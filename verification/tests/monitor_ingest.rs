use wechat_pc_auto::adapter::ax_reader::{ChatMessage, SessionItemSnapshot};
use wechat_pc_auto::monitor_ingest::{
    anchor_diff_progressive, apply_cached_preview_sender_hint, apply_sender_defaults,
    apply_session_preview_sender_hint, bag_diff, cleanup_preview_sender_hints, diff_messages,
    inherit_sender_from_reference, is_image_placeholder_like, is_image_word,
    preview_body_matches_message, remember_preview_sender_hint, self_source_label,
    short_error_text, should_emit_session_snapshot, should_forward_session_preview,
    should_forward_sidebar_chat, trim_for_log, ChatKind, PreviewHintCache, SessionListenState,
    PREVIEW_SENDER_HINT_TTL_NANOS,
};

fn msg(sender: &str, content: &str) -> ChatMessage {
    ChatMessage { sender: sender.to_string(), content: content.to_string(), is_self: false, side_hint: None }
}

fn texts(ms: &[ChatMessage]) -> Vec<String> {
    ms.iter().map(|m| m.content.clone()).collect()
}

#[test]
fn appended_messages_are_reported() {
    let old = vec![msg("", "a"), msg("", "b")];
    let new = vec![msg("", "a"), msg("", "b"), msg("", "c"), msg("", "d")];
    let r = diff_messages(&old, &new);
    assert_eq!(texts(&r.new_messages), vec!["c", "d"]);
    assert!(!r.anchor_failed);
}

#[test]
fn unchanged_poll_reports_nothing() {
    let old = vec![msg("", "a"), msg("", "b")];
    let r = diff_messages(&old, &old.iter().map(|m| msg(&m.sender, &m.content)).collect::<Vec<_>>());
    assert!(r.new_messages.is_empty());
    assert!(!r.anchor_failed);
    assert!(diff_messages(&[], &old).new_messages.is_empty());
}

#[test]
fn scrolled_list_is_diffed_after_the_anchor() {
    let old = vec![msg("", "a"), msg("", "b"), msg("", "c")];
    let new = vec![msg("", "b"), msg("", "c"), msg("", "d")];
    let r = diff_messages(&old, &new);
    assert_eq!(texts(&r.new_messages), vec!["d"]);
    assert!(!r.anchor_failed);
    assert_eq!(texts(&anchor_diff_progressive(&old, &new).unwrap()), vec!["d"]);
}

#[test]
fn smaller_anchor_is_tried_when_the_tail_moved() {
    let old = vec![msg("", "x"), msg("", "y"), msg("", "z")];
    let new = vec![msg("", "z"), msg("", "n1"), msg("", "n2")];
    assert_eq!(texts(&diff_messages(&old, &new).new_messages), vec!["n1", "n2"]);
}

#[test]
fn multiset_fallback_when_no_anchor_matches() {
    let old = vec![msg("", "a"), msg("", "a"), msg("", "q")];
    let new = vec![msg("", "a"), msg("", "b"), msg("", "a"), msg("", "a")];
    let r = diff_messages(&old, &new);
    assert!(r.anchor_failed);
    assert_eq!(texts(&r.new_messages), vec!["b", "a"]);
    assert_eq!(texts(&bag_diff(&old, &new)), vec!["b", "a"]);
}

#[test]
fn chat_kind_labels() {
    assert_eq!(ChatKind::Group.as_str(), "group");
    assert_eq!(ChatKind::Private.as_str(), "private");
    assert_eq!(ChatKind::Unknown.as_str(), "unknown");
}

#[test]
fn self_source_depends_on_sender() {
    assert_eq!(self_source_label(&msg("甲", "x")), "prefix");
    assert_eq!(self_source_label(&msg("", "x")), "fallback");
}

#[test]
fn snapshot_is_emitted_only_for_a_new_body() {
    let snap = SessionItemSnapshot {
        chat_name: "群".to_string(),
        raw_preview: String::new(),
        preview_body: "你好".to_string(),
        unread_count: 1,
        sender_hint: None,
        has_sender_prefix: false,
        is_group: false,
    };
    let mut state = SessionListenState::default();
    assert!(should_emit_session_snapshot(&snap, &state));
    state.last_preview_body = "你好".to_string();
    assert!(!should_emit_session_snapshot(&snap, &state));
    let empty = SessionItemSnapshot { preview_body: String::new(), ..snap };
    assert!(!should_emit_session_snapshot(&empty, &SessionListenState::default()));
}

#[test]
fn forwarding_rules() {
    assert!(should_forward_session_preview(false, "a", "a"));
    assert!(!should_forward_session_preview(true, "a", "a"));
    assert!(should_forward_session_preview(true, "a", "b"));
    assert!(should_forward_sidebar_chat("a"));
    assert!(!should_forward_sidebar_chat(""));
}

#[test]
fn private_chat_messages_get_the_chat_name() {
    let mut ms = vec![msg("", "a"), msg("乙", "b"), ChatMessage { is_self: true, ..msg("", "c") }];
    apply_sender_defaults(&mut ms, "甲", ChatKind::Private);
    assert_eq!(ms[0].sender, "甲");
    assert_eq!(ms[1].sender, "乙");
    assert_eq!(ms[2].sender, "");
    let mut group = vec![msg("", "a")];
    apply_sender_defaults(&mut group, "群", ChatKind::Group);
    assert_eq!(group[0].sender, "");
}

#[test]
fn log_and_error_texts_are_cut() {
    assert_eq!(trim_for_log("  ab   cd ", 3), "ab …");
    assert_eq!(trim_for_log("ab", 3), "ab");
    let long = "x".repeat(130);
    assert_eq!(short_error_text(&long), format!("{}...", "x".repeat(120)));
    assert_eq!(short_error_text("short"), "short");
}

#[test]
fn preview_bodies_match_by_prefix_or_short_prefix() {
    assert!(preview_body_matches_message("因为rust的代码简直", "因为rust的代码简直不是人类读的", None));
    assert!(preview_body_matches_message("好的", "好的呀", None));
    assert!(!preview_body_matches_message("", "x", None));
    assert!(!preview_body_matches_message("完全不同的内容啊啊", "另一条消息内容不同", None));
    assert!(preview_body_matches_message("anything", "因为rust的代码简直不是", Some("因为rust的代")));
}

#[test]
fn image_placeholders_are_recognised() {
    assert!(is_image_placeholder_like("[图片]"));
    assert!(is_image_placeholder_like(" (Photo) "));
    assert!(is_image_placeholder_like("【照片】"));
    assert!(!is_image_placeholder_like("图片很好看"));
    assert!(!is_image_placeholder_like(""));
    assert!(is_image_word("images"));
    assert!(!is_image_word("Image"));
}

#[test]
fn session_preview_names_the_newest_message_in_a_group() {
    let mut ms = vec![msg("", "旧消息"), msg("", "哈哈哈")];
    let mut kind = ChatKind::Unknown;
    apply_session_preview_sender_hint(&mut ms, "项目群\n花姐: 哈哈哈\n21:34", &mut kind, true);
    assert_eq!(kind, ChatKind::Group);
    assert_eq!(ms[1].sender, "花姐");
    assert!(!ms[1].is_self);
    assert_eq!(ms[0].sender, "");
}

#[test]
fn session_preview_without_sender_marks_private_and_self() {
    let mut ms = vec![msg("", "在吗")];
    let mut kind = ChatKind::Unknown;
    apply_session_preview_sender_hint(&mut ms, "张三\n在吗\n21:34", &mut kind, false);
    assert_eq!(kind, ChatKind::Private);
    assert!(ms[0].is_self);
    let mut ms2 = vec![msg("", "在吗")];
    let mut kind2 = ChatKind::Unknown;
    apply_session_preview_sender_hint(&mut ms2, "张三\n在吗\n21:34", &mut kind2, true);
    assert!(!ms2[0].is_self);
}

fn snapshot(chat: &str, sender: Option<&str>, body: &str) -> SessionItemSnapshot {
    SessionItemSnapshot {
        chat_name: chat.to_string(),
        raw_preview: String::new(),
        preview_body: body.to_string(),
        unread_count: 1,
        sender_hint: sender.map(|s| s.to_string()),
        has_sender_prefix: sender.is_some(),
        is_group: sender.is_some(),
    }
}

#[test]
fn remembered_hint_names_the_next_matching_message_once() {
    let mut cache = PreviewHintCache::new();
    remember_preview_sender_hint(&mut cache, &snapshot("群", Some(" 花姐 "), " 哈哈哈 "), 1_000);
    assert_eq!(cache.len(), 1);
    let hint = cache.get("群").unwrap();
    assert_eq!(hint.sender, "花姐");
    assert_eq!(hint.preview_body, "哈哈哈");
    assert_eq!(hint.preview_body_key, "哈哈哈");
    assert!(!hint.consumed);

    let mut ms = vec![msg("", "哈哈哈"), msg("", "别的")];
    let mut kind = ChatKind::Unknown;
    assert!(apply_cached_preview_sender_hint("群", &mut ms, &mut kind, &mut cache, 2_000));
    assert_eq!(kind, ChatKind::Group);
    assert_eq!(ms[0].sender, "花姐");
    assert!(cache.get("群").unwrap().consumed);

    let mut again = vec![msg("", "哈哈哈")];
    assert!(!apply_cached_preview_sender_hint("群", &mut again, &mut kind, &mut cache, 3_000));
    assert_eq!(again[0].sender, "");
}

#[test]
fn previews_without_sender_are_not_remembered() {
    let mut cache = PreviewHintCache::new();
    remember_preview_sender_hint(&mut cache, &snapshot("群", None, "哈哈"), 0);
    remember_preview_sender_hint(&mut cache, &snapshot("群", Some("  "), "哈哈"), 0);
    remember_preview_sender_hint(&mut cache, &snapshot("群", Some("甲"), "   "), 0);
    assert_eq!(cache.len(), 0);
}

#[test]
fn expired_hints_name_nothing_and_are_cleaned() {
    let mut cache = PreviewHintCache::new();
    remember_preview_sender_hint(&mut cache, &snapshot("群", Some("甲"), "消息"), 0);
    remember_preview_sender_hint(&mut cache, &snapshot("另一群", Some("乙"), "别的"), 5);
    let late = PREVIEW_SENDER_HINT_TTL_NANOS + 1;
    let mut ms = vec![msg("", "消息")];
    let mut kind = ChatKind::Private;
    assert!(!apply_cached_preview_sender_hint("群", &mut ms, &mut kind, &mut cache, late));
    assert_eq!(kind, ChatKind::Private);
    cleanup_preview_sender_hints(&mut cache, late);
    assert!(cache.get("群").is_none());
    assert!(cache.get("另一群").is_some());
    cleanup_preview_sender_hints(&mut cache, late + 10);
    assert_eq!(cache.len(), 0);
}

#[test]
fn senders_are_inherited_from_the_reference_by_text() {
    let mut current = vec![msg("", "hi"), msg("", "other"), msg("", "hi")];
    let reference = vec![msg("甲", "hi"), msg("乙", "hi"), msg("", "other")];
    inherit_sender_from_reference(&mut current, &reference);
    assert_eq!(current[2].sender, "甲");
    assert_eq!(current[0].sender, "乙");
    assert_eq!(current[1].sender, "");
}
