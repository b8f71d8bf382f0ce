use wechat_pc_auto::adapter::ax_reader::{
    is_noise_given, replaced_or_original, sender_and_body_from_captures, unread_from_captures,
    is_same_message_prefix8, parse_session_preview_line, parse_session_unread_count, prefix8_key,
    side_hint_from_hit_probes, HitProbe,
};

#[test]
fn parse_session_preview_with_sender_prefix() {
    let text = "ssh 前端进阶交流群3群「禁广告」\n花姐🌸: 哈哈哈哈哈哈嗝\n21:34\n消息免打扰";
    let (sender, body) = parse_session_preview_line(text);
    assert_eq!(sender.as_deref(), Some("花姐🌸"));
    assert_eq!(body.as_deref(), Some("哈哈哈哈哈哈嗝"));
}

#[test]
fn parse_session_preview_without_sender_prefix() {
    let text = "某会话\n仅正文不带前缀\n今天 21:11";
    let (sender, body) = parse_session_preview_line(text);
    assert_eq!(sender, None);
    assert_eq!(body.as_deref(), Some("仅正文不带前缀"));
}

#[test]
fn parse_session_preview_url_not_treated_as_sender() {
    let text = "某会话\nhttps://example.com/a:b?x=1\n21:11";
    let (sender, body) = parse_session_preview_line(text);
    assert_eq!(sender, None);
    assert_eq!(body.as_deref(), Some("https://example.com/a:b?x=1"));
}

#[test]
fn parse_session_preview_skips_noise_lines() {
    let text = "某会话\n[3条] 阿强：你好呀\n今天 21:11\n已置顶\n消息免打扰";
    let (sender, body) = parse_session_preview_line(text);
    assert_eq!(sender.as_deref(), Some("阿强"));
    assert_eq!(body.as_deref(), Some("你好呀"));
}

#[test]
fn parse_session_unread_count_should_parse_prefix() {
    let text = "某会话\n[12条] 阿强：你好呀\n今天 21:11\n已置顶";
    assert_eq!(parse_session_unread_count(text), 12);
}

#[test]
fn parse_session_unread_count_should_ignore_non_prefix_lines() {
    let text = "某会话\n阿强：你好呀\n今天 21:11";
    assert_eq!(parse_session_unread_count(text), 0);
}

#[test]
fn prefix8_match_should_work_for_same_prefix() {
    assert!(is_same_message_prefix8(
        "因为rust的代码简直不是人类读的",
        "因为rust的代码简直不是人类读的!!!"
    ));
}

#[test]
fn prefix8_match_should_work_for_short_text() {
    assert!(is_same_message_prefix8("哈哈", "哈哈"));
}

#[test]
fn prefix8_match_should_fail_for_empty_or_different_text() {
    assert!(!is_same_message_prefix8("", "abc"));
    assert!(!is_same_message_prefix8("前缀不同A", "前缀不同B"));
}

#[test]
fn prefix8_key_should_trim_and_normalize_spaces() {
    let key = prefix8_key("  hello   world \u{200b} ");
    assert_eq!(key, "hello wo");
}

#[test]
fn side_hint_from_hit_probes_should_prefer_single_side_text_match() {
    let left = HitProbe {
        role: "AXStaticText".to_string(),
        identifier: "".to_string(),
        title: "对方消息".to_string(),
    };
    let right = HitProbe {
        role: "AXStaticText".to_string(),
        identifier: "".to_string(),
        title: "".to_string(),
    };
    assert_eq!(
        side_hint_from_hit_probes("对方消息", &left, &right),
        Some(false)
    );
}

#[test]
fn side_hint_from_hit_probes_should_use_avatar_probe_when_text_ambiguous() {
    let left = HitProbe {
        role: "AXImage".to_string(),
        identifier: "avatar_img".to_string(),
        title: "".to_string(),
    };
    let right = HitProbe {
        role: "AXStaticText".to_string(),
        identifier: "".to_string(),
        title: "".to_string(),
    };
    assert_eq!(
        side_hint_from_hit_probes("任意内容", &left, &right),
        Some(false)
    );
}

fn groups(parts: &[Option<&str>]) -> Option<Option<Vec<Option<String>>>> {
    Some(Some(parts.iter().map(|p| p.map(|t| t.to_string())).collect()))
}

#[test]
fn noise_is_decided_from_the_trimmed_line_and_the_time_match() {
    assert!(is_noise_given("", None));
    assert!(is_noise_given("已置顶", None));
    assert!(is_noise_given("消息免打扰", Some(false)));
    assert!(is_noise_given("21:34", Some(true)));
    assert!(!is_noise_given("21:34", None));
    assert!(!is_noise_given("你好", Some(false)));
}

#[test]
fn unread_count_comes_from_the_first_group() {
    assert_eq!(unread_from_captures(&groups(&[Some("[12条] "), Some("12")])), 12);
    assert_eq!(unread_from_captures(&groups(&[Some("[x条]"), Some("x")])), 0);
    assert_eq!(unread_from_captures(&groups(&[Some("[99999999999条]"), Some("99999999999")])), 0);
    assert_eq!(unread_from_captures(&groups(&[Some("")])), 0);
    assert_eq!(unread_from_captures(&Some(None)), 0);
    assert_eq!(unread_from_captures(&None), 0);
}

#[test]
fn a_missing_replacement_keeps_the_text() {
    assert_eq!(replaced_or_original("[3条] 你好", Some("你好".to_string())), "你好");
    assert_eq!(replaced_or_original("[3条] 你好", None), "[3条] 你好");
}

#[test]
fn sender_and_body_come_from_believable_captures() {
    let caps = groups(&[Some("阿强：你好 "), Some(" 阿强 "), Some("你好 ")]);
    assert_eq!(
        sender_and_body_from_captures("阿强：你好", &caps),
        (Some("阿强".to_string()), "你好".to_string())
    );
    let digits = groups(&[Some("123: x"), Some("123"), Some("x")]);
    assert_eq!(sender_and_body_from_captures("123: x", &digits), (None, "123: x".to_string()));
    let scheme = groups(&[Some("HTTP: x"), Some("HTTP"), Some("x")]);
    assert_eq!(sender_and_body_from_captures("HTTP: x", &scheme), (None, "HTTP: x".to_string()));
    let no_body = groups(&[Some("甲: "), Some("甲"), None]);
    assert_eq!(sender_and_body_from_captures("甲:", &no_body), (None, "甲:".to_string()));
    assert_eq!(sender_and_body_from_captures("正文", &Some(None)), (None, "正文".to_string()));
    assert_eq!(sender_and_body_from_captures("正文", &None), (None, "正文".to_string()));
}

#[test]
fn preview_senders_are_believable_and_trimmed() {
    for text in [
        "群\n 阿强 ： 你好 \n21:11",
        "群\n123: 你好",
        "群\nftp: files",
        "群\n[2条]  Bob:  hi  ",
    ] {
        let (sender, body) = parse_session_preview_line(text);
        if let Some(s) = &sender {
            assert!(!s.is_empty() && !s.chars().all(|c| c.is_ascii_digit()));
            assert!(!matches!(s.to_lowercase().as_str(), "http" | "https" | "ftp"));
            assert_eq!(s.trim(), s);
            assert!(body.is_some());
        }
        let b = body.unwrap();
        assert!(!b.is_empty());
        assert_eq!(b.trim(), b);
    }
    assert_eq!(parse_session_preview_line("群\n 阿强 ： 你好 \n21:11"), (Some("阿强".to_string()), Some("你好".to_string())));
    assert_eq!(parse_session_preview_line("群\n123: 你好"), (None, Some("123: 你好".to_string())));
    assert_eq!(parse_session_preview_line("群\nftp: files"), (None, Some("ftp: files".to_string())));
    assert_eq!(parse_session_preview_line("群\n[2条]  Bob:  hi  "), (Some("Bob".to_string()), Some("hi".to_string())));
}
