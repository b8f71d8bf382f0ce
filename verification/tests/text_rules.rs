use wechat_pc_auto::adapter::ax_reader::{
    is_same_message_prefix8, prefix8_key,
    choose_main_window, clean_text, contains_avatar_hint, get_current_sessions,
    get_current_sessions_fallback, has_popup_or_menu, is_session_noise_line, normalize_for_match,
    normalize_session_name_for_match, read_active_chat_member_count, read_active_chat_name,
    read_chat_messages, read_latest_message, read_session_preview_for_chat, read_session_snapshots,
    remove_zero_width, SessionListItem, WindowInfo,
};

#[test]
fn normalize_collapses_whitespace_and_drops_zero_width() {
    assert_eq!(normalize_for_match("  a\u{200b}b \t\n c  "), "ab c");
    assert_eq!(normalize_for_match(""), "");
}

#[test]
fn clean_text_only_drops_zero_width_space() {
    assert_eq!(clean_text(" x\u{200b}y\u{200c} "), "xy\u{200c}");
}

#[test]
fn remove_zero_width_keeps_whitespace() {
    assert_eq!(remove_zero_width("a\u{200d} b\u{feff}"), "a b");
}

#[test]
fn noise_lines_are_time_mute_and_pin_hints() {
    assert!(is_session_noise_line("  "));
    assert!(is_session_noise_line("已置顶"));
    assert!(is_session_noise_line("消息免打扰"));
    assert!(is_session_noise_line("昨天 09:30"));
    assert!(is_session_noise_line("21:34"));
    assert!(!is_session_noise_line("你好"));
}

#[test]
fn session_name_key_strips_unread_marker_and_suffix() {
    assert_eq!(normalize_session_name_for_match("[3条] 项目群"), "项目群");
    assert_eq!(normalize_session_name_for_match("项目群 2条新消息"), "项目群");
    assert_eq!(normalize_session_name_for_match("  项目  群 "), "项目 群");
}

#[test]
fn current_sessions_come_from_item_identifiers() {
    let ids = vec![
        "session_item_张三".to_string(),
        "other".to_string(),
        "session_item_".to_string(),
        "session_item_项目群".to_string(),
    ];
    assert_eq!(get_current_sessions(&ids), vec!["张三".to_string(), "项目群".to_string()]);
}

#[test]
fn fallback_sessions_skip_chrome_times_long_and_repeated_texts() {
    let texts = vec![
        "微信".to_string(),
        "张三".to_string(),
        "12:30".to_string(),
        "张三".to_string(),
        "这是一段超过四十个字节的很长很长很长的文字内容".to_string(),
        "李四".to_string(),
    ];
    assert_eq!(
        get_current_sessions_fallback(&texts),
        vec!["张三".to_string(), "李四".to_string()]
    );
}

#[test]
fn latest_message_skips_chrome_and_time_stamps() {
    let texts = vec!["第一条".to_string(), "第二条".to_string(), "12:01".to_string(), "搜索".to_string()];
    assert_eq!(read_latest_message(&texts), Some("第二条".to_string()));
    let none: Vec<String> = vec!["12:01".to_string()];
    assert_eq!(read_latest_message(&none), None);
}

#[test]
fn chat_messages_are_cleaned_bubble_titles() {
    let children = vec![
        ("chat_bubble_item_view".to_string(), Some("  你好  世界 ".to_string())),
        ("other_view".to_string(), Some("不是消息".to_string())),
        ("chat_bubble_item_view".to_string(), None),
        ("chat_bubble_item_view".to_string(), Some("\u{200b} ".to_string())),
        ("chat_bubble_item_view".to_string(), Some("再见".to_string())),
    ];
    assert_eq!(read_chat_messages(&children), vec!["你好 世界".to_string(), "再见".to_string()]);
}

fn item(id: &str, text: Option<&str>) -> SessionListItem {
    SessionListItem { identifier: id.to_string(), text: text.map(|t| t.to_string()) }
}

#[test]
fn preview_for_chat_prefers_exact_entry_then_fuzzy_name() {
    let items = vec![
        item("session_item_项目群组", Some("项目群组\n张三: 早")),
        item("session_item_项目群", Some("项目群\n李四: 晚")),
    ];
    assert_eq!(
        read_session_preview_for_chat("项目群", &items),
        Some("项目群\n李四: 晚".to_string())
    );
    let fuzzy = vec![item("session_item_项目群组", Some("项目群组\n张三: 早"))];
    assert_eq!(
        read_session_preview_for_chat("项目群", &fuzzy),
        Some("项目群组\n张三: 早".to_string())
    );
    assert_eq!(read_session_preview_for_chat("   ", &items), None);
}

#[test]
fn snapshots_parse_each_session_once() {
    let items = vec![
        item("session_item_项目群", Some("项目群\n[2条] 张三: 开会\n10:00")),
        item("session_item_项目群", Some("项目群\n重复")),
        item("session_item_李四", Some("李四\n好的")),
        item("not_a_session", Some("x")),
    ];
    let snaps = read_session_snapshots(&items);
    assert_eq!(snaps.len(), 2);
    assert_eq!(snaps[0].chat_name, "项目群");
    assert_eq!(snaps[0].preview_body, "开会");
    assert_eq!(snaps[0].unread_count, 2);
    assert_eq!(snaps[0].sender_hint.as_deref(), Some("张三"));
    assert!(snaps[0].has_sender_prefix && snaps[0].is_group);
    assert_eq!(snaps[1].chat_name, "李四");
    assert_eq!(snaps[1].preview_body, "好的");
    assert_eq!(snaps[1].sender_hint, None);
    assert!(!snaps[1].is_group);
}

#[test]
fn active_chat_name_falls_back_through_labels_and_title() {
    assert_eq!(
        read_active_chat_name(&Some(" 张三 ".to_string()), &Some("标题".to_string()), &None),
        "张三"
    );
    assert_eq!(read_active_chat_name(&None, &Some("标题".to_string()), &None), "标题");
    assert_eq!(
        read_active_chat_name(&None, &None, &Some("项目群 - 微信".to_string())),
        "项目群"
    );
    assert_eq!(read_active_chat_name(&None, &None, &Some("微信 - 微信".to_string())), "当前会话");
    assert_eq!(read_active_chat_name(&None, &None, &None), "当前会话");
}

#[test]
fn member_count_reads_the_digits_of_the_label() {
    assert_eq!(read_active_chat_member_count(&Some("(433)".to_string())), Some(433));
    assert_eq!(read_active_chat_member_count(&Some("()".to_string())), None);
    assert_eq!(read_active_chat_member_count(&None), None);
}

#[test]
fn avatar_hints_are_case_insensitive() {
    assert!(contains_avatar_hint("UserAvatarView"));
    assert!(contains_avatar_hint("HEAD_img"));
    assert!(!contains_avatar_hint("bubble"));
}

fn window(role: Option<&str>, subrole: Option<&str>, title: Option<&str>, list: bool) -> WindowInfo {
    WindowInfo {
        role: role.map(|s| s.to_string()),
        subrole: subrole.map(|s| s.to_string()),
        title: title.map(|s| s.to_string()),
        has_message_list: list,
    }
}

#[test]
fn popups_and_menus_are_detected() {
    let plain = vec![window(Some("AXWindow"), Some("AXStandardWindow"), Some("微信"), true)];
    assert!(!has_popup_or_menu(&plain, &vec![None]));
    assert!(has_popup_or_menu(&plain, &vec![Some("AXMenu".to_string())]));
    let dialog = vec![window(Some("AXWindow"), Some("AXDialog"), Some("更新"), false)];
    assert!(has_popup_or_menu(&dialog, &vec![]));
}

#[test]
fn main_window_prefers_the_one_with_the_message_list() {
    let ws = vec![
        window(Some("AXSheet"), None, None, true),
        window(Some("AXWindow"), None, Some("微信"), false),
        window(Some("AXWindow"), None, Some("聊天"), true),
    ];
    assert_eq!(choose_main_window(&ws), Ok(2));
    let named = vec![window(Some("AXWindow"), None, Some("其他"), false), window(Some("AXWindow"), None, Some("WeChat"), false)];
    assert_eq!(choose_main_window(&named), Ok(1));
    assert_eq!(choose_main_window(&vec![]), Err("微信没有打开的窗口".to_string()));
    let only_popups = vec![window(Some("AXMenu"), None, None, false)];
    assert_eq!(
        choose_main_window(&only_popups),
        Err("微信没有可用的主窗口（可能被弹窗遮挡）".to_string())
    );
}

#[test]
fn normalizing_twice_changes_nothing() {
    let once = normalize_for_match(" \u{feff} a \u{3000}\u{200b} b\n");
    assert_eq!(once, "a b");
    assert_eq!(normalize_for_match(&once), once);
}

#[test]
fn prefix_key_of_normalized_text_is_the_same() {
    let raw = "  因为 \u{200b} rust   的代码简直 ";
    assert_eq!(prefix8_key(&normalize_for_match(raw)), prefix8_key(raw));
    assert_eq!(
        is_same_message_prefix8("abc", "abc d"),
        is_same_message_prefix8("abc d", "abc")
    );
}

#[test]
fn normalizing_keeps_the_words_and_spaces_them_singly() {
    let raw = "\u{feff} 早上\u{200c}好 \t 各位\u{3000}\n朋友 ";
    let n = normalize_for_match(raw);
    assert_eq!(n, "早上好 各位 朋友");
    let stripped: String = raw.chars().filter(|c| !matches!(c, '\u{200b}' | '\u{200c}' | '\u{200d}' | '\u{feff}')).collect();
    assert_eq!(n.split_whitespace().collect::<Vec<_>>(), stripped.split_whitespace().collect::<Vec<_>>());
    assert!(!n.starts_with(' ') && !n.ends_with(' ') && !n.contains("  "));
}
