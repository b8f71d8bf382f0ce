use wechat_pc_auto::adapter::applescript::{
    activate_wechat, copy_file, escape_applescript_text, frontmost_query_script, is_wechat_frontmost,
    open_chat_by_search, paste_and_send, press_enter, window_reported_hidden, window_visibility_script,
};
use wechat_pc_auto::adapter::ax_reader::{
    apply_side_hints, bubble_message_positions, chat_messages_from_bubbles, fill_side_hints_from_probes, ChatMessage,
    HitProbe, SessionListItem,
};
use wechat_pc_auto::adapter::MacOSAdapter;

#[test]
fn unsupported_platform_refuses_every_reading() {
    let adapter = MacOSAdapter::new(false);
    assert!(!adapter.is_supported());
    assert!(!adapter.is_ui_paused());
    assert_eq!(adapter.support_reason(), "当前不是 macOS 环境");
    assert_eq!(adapter.ensure_supported(), Err("当前不是 macOS 环境".to_string()));
    assert_eq!(
        adapter.get_current_sessions(&Some(vec!["session_item_a".to_string()]), &vec![]),
        Err("当前不是 macOS 环境".to_string())
    );
    assert_eq!(
        adapter.read_active_chat_member_count(&Some("(3)".to_string())),
        Err("当前不是 macOS 环境".to_string())
    );
    assert!(!adapter.has_popup_or_menu(&vec![], &vec![Some("AXMenu".to_string())]));
}

#[test]
fn supported_platform_reads_through() {
    let adapter = MacOSAdapter::new(true);
    assert_eq!(adapter.support_reason(), "ok");
    assert_eq!(adapter.ensure_supported(), Ok(()));
    assert_eq!(
        adapter.get_current_sessions(&Some(vec!["session_item_a".to_string()]), &vec![]),
        Ok(vec!["a".to_string()])
    );
    assert_eq!(
        adapter.get_current_sessions(&None, &vec!["张三".to_string(), "张三".to_string()]),
        Ok(vec!["张三".to_string()])
    );
    assert_eq!(adapter.read_active_chat_member_count(&Some("(3)".to_string())), Ok(Some(3)));
    assert!(adapter.has_popup_or_menu(&vec![], &vec![Some("AXMenu".to_string())]));
    let items = vec![SessionListItem {
        identifier: "session_item_群".to_string(),
        text: Some("群\n甲: 乙".to_string()),
    }];
    assert_eq!(
        adapter.read_session_preview_for_chat("群", &items),
        Ok(Some("群\n甲: 乙".to_string()))
    );
}

#[test]
fn latest_message_falls_back_to_static_texts_then_empty() {
    let adapter = MacOSAdapter::new(true);
    let bubbles = vec![("chat_bubble_item_view".to_string(), Some("最后一条".to_string()))];
    assert_eq!(adapter.read_latest_message(&bubbles, &vec![]), Ok("最后一条".to_string()));
    assert_eq!(
        adapter.read_latest_message(&vec![], &vec!["静态文本".to_string()]),
        Ok("静态文本".to_string())
    );
    assert_eq!(adapter.read_latest_message(&vec![], &vec![]), Ok(String::new()));
}

#[test]
fn applescript_text_escapes_backslashes_and_quotes() {
    assert_eq!(escape_applescript_text(r#"a\b"c"#), r#"a\\b\"c"#);
    assert_eq!(escape_applescript_text("普通"), "普通");
}

#[test]
fn scripts_name_wechat_and_the_target() {
    assert_eq!(activate_wechat(), "tell application id \"com.tencent.xinWeChat\" to activate");
    assert_eq!(open_chat_by_search(""), None);
    let script = open_chat_by_search("张\"三").unwrap();
    assert!(script.contains("tell application id \"com.tencent.xinWeChat\" to activate"));
    assert!(script.contains("keystroke \"张\\\"三\""));
    assert!(script.contains("key code 36"));
    assert!(copy_file("/tmp/a b.png").contains("POSIX file \"/tmp/a b.png\""));
    assert!(paste_and_send(true).contains("key code 36"));
    assert!(!paste_and_send(false).contains("key code 36"));
    assert!(press_enter().contains("key code 36"));
    assert!(frontmost_query_script().contains("frontmost is true"));
    assert!(window_visibility_script().contains("com.tencent.xinWeChat"));
}

#[test]
fn answers_of_the_queries_are_read() {
    assert!(is_wechat_frontmost(Some(" com.tencent.xinWeChat\n")));
    assert!(!is_wechat_frontmost(Some("com.apple.finder")));
    assert!(!is_wechat_frontmost(None));
    assert!(window_reported_hidden("hidden\n"));
    assert!(!window_reported_hidden("visible"));
}

fn probe(role: &str, identifier: &str, title: &str) -> HitProbe {
    HitProbe { role: role.to_string(), identifier: identifier.to_string(), title: title.to_string() }
}

fn chat_children() -> Vec<(String, Option<String>)> {
    vec![
        ("chat_bubble_item_view".to_string(), Some("  你好\u{200b}  呀 ".to_string())),
        ("time_view".to_string(), Some("21:11".to_string())),
        ("chat_bubble_item_view".to_string(), None),
        ("chat_bubble_item_view".to_string(), Some(" \u{200b} ".to_string())),
        ("chat_bubble_item_view".to_string(), Some("第二条".to_string())),
    ]
}

#[test]
fn messages_are_built_from_the_bubbles_in_order() {
    let children = chat_children();
    let messages = chat_messages_from_bubbles(&children);
    assert_eq!(messages.len(), 2);
    assert_eq!(messages[0].content, "你好 呀");
    assert_eq!(messages[1].content, "第二条");
    for m in &messages {
        assert!(!m.content.is_empty() && !m.content.contains('\u{200b}') && !m.content.contains("  "));
        assert_eq!(m.content.trim(), m.content);
        assert_eq!(m.sender, "");
        assert!(!m.is_self);
        assert_eq!(m.side_hint, None);
    }
    assert_eq!(bubble_message_positions(&children), vec![0, 4]);
    assert_eq!(bubble_message_positions(&vec![]), Vec::<usize>::new());
}

#[test]
fn geometric_hints_set_the_side_of_the_first_messages() {
    let mut messages = chat_messages_from_bubbles(&chat_children());
    apply_side_hints(&mut messages, &vec![Some(true)]);
    assert_eq!(messages[0].side_hint, Some(true));
    assert_eq!(messages[1].side_hint, None);
    assert_eq!(messages[0].content, "你好 呀");
}

#[test]
fn probes_decide_only_the_messages_without_a_side() {
    let mut messages = chat_messages_from_bubbles(&chat_children());
    apply_side_hints(&mut messages, &vec![Some(false)]);
    let probes = vec![
        Some((probe("AXStaticText", "", "你好 呀"), probe("AXGroup", "", ""))),
        Some((probe("AXGroup", "", ""), probe("AXStaticText", "", "第二条"))),
    ];
    fill_side_hints_from_probes(&mut messages, &probes);
    assert_eq!(messages[0].side_hint, Some(false));
    assert_eq!(messages[1].side_hint, Some(true));
    let mut bare: Vec<ChatMessage> = chat_messages_from_bubbles(&chat_children());
    fill_side_hints_from_probes(&mut bare, &vec![None, Some((probe("AXImage", "", ""), probe("AXGroup", "", "")))]);
    assert_eq!(bare[0].side_hint, None);
    assert_eq!(bare[1].side_hint, Some(false));
}

#[test]
fn rich_reading_builds_messages_on_macos_only() {
    let children = chat_children();
    let probes = vec![None, Some((probe("AXGroup", "", ""), probe("AXImage", "avatar", "")))];
    let adapter = MacOSAdapter::new(true);
    let messages = adapter.read_chat_messages_rich(&children, &vec![], &probes).unwrap();
    assert_eq!(messages.len(), 2);
    assert_eq!(messages[0].content, "你好 呀");
    assert_eq!(messages[0].side_hint, None);
    assert_eq!(messages[1].side_hint, Some(true));
    assert!(messages.iter().all(|m| m.sender.is_empty() && !m.is_self));
    let refused = MacOSAdapter::new(false).read_chat_messages_rich(&children, &vec![], &probes);
    assert!(matches!(refused, Err(e) if e == "当前不是 macOS 环境"));
}
