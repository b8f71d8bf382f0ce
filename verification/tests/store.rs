use wechat_pc_auto::store::{
    content_hash, content_only_hash, encode, hex_encode, messages_query, recent_hash_bags,
    select_preview_candidate, summary_messages_query, summary_participants, PreviewRow, QueryParam,
};

#[test]
fn hex_is_two_lowercase_digits_per_byte() {
    assert_eq!(hex_encode(&[0x00, 0x0f, 0xab, 0xff]), "000fabff");
    assert_eq!(encode(&[]), "");
}

#[test]
fn content_hash_is_the_sha256_prefix_of_sender_newline_content() {
    let h = content_hash("Alice", "你好");
    assert_eq!(h.len(), 16);
    assert_eq!(h, "f4933f792f078429");
    assert!(h.chars().all(|c| c.is_ascii_hexdigit() && !c.is_ascii_uppercase()));
    assert_eq!(h, content_hash("Alice", "你好"));
    assert_ne!(h, content_hash("Bob", "你好"));
    assert_ne!(content_hash("a", "bc"), content_hash("ab", "c"));
    assert_eq!(content_only_hash("你好"), content_hash("", "你好"));
}

#[test]
fn content_hash_known_value() {
    // SHA-256 of "\n" + "" is the digest of a single line feed:
    // 01ba4719c80b6fe911b091a7c05124b64eeece964e09c058ef8f9805daca546b
    assert_eq!(content_hash("", ""), "01ba4719c80b6fe9");
}

fn row(id: i64, content: &str, at: &str) -> PreviewRow {
    PreviewRow { id, content: content.to_string(), detected_at: at.to_string() }
}

#[test]
fn preview_row_within_window_is_chosen() {
    let rows = vec![
        row(9, "别的消息内容很长很长", "2026-03-07 11:00:04"),
        row(7, "因为rust的代码简直不是人类读的", "2026-03-07 11:00:00"),
        row(3, "因为rust的代码简直不是人类读的", "2026-03-07 10:00:00"),
    ];
    assert_eq!(
        select_preview_candidate("因为rust的代码简直不是人类读的!!!", "2026-03-07 11:00:05", 20, &rows),
        Some(7)
    );
    assert_eq!(
        select_preview_candidate("因为rust的代码简直不是人类读的!!!", "2026-03-07 11:00:05", 2, &rows),
        None
    );
}

#[test]
fn preview_row_needs_key_time_and_not_future() {
    let rows = vec![row(1, "abc", "2026-03-07 11:00:10")];
    assert_eq!(select_preview_candidate("abc", "2026-03-07 11:00:05", 20, &rows), None);
    assert_eq!(select_preview_candidate("   ", "2026-03-07 11:00:05", 20, &rows), None);
    assert_eq!(select_preview_candidate("abc", "not a time", 20, &rows), None);
    let bad_time = vec![row(2, "abc", "yesterday")];
    assert_eq!(select_preview_candidate("abc", "2026-03-07 11:00:05", 20, &bad_time), None);
}

#[test]
fn participants_put_self_first() {
    let counts = vec![("张三".to_string(), 2i64)];
    let ps = summary_participants(&counts, 1, "self");
    assert_eq!(ps.len(), 2);
    assert_eq!(ps[0].id, "self");
    assert_eq!(ps[0].label, "我");
    assert!(ps[0].is_self);
    assert_eq!(ps[0].message_count, 1);
    assert_eq!(ps[1].label, "张三");
    assert_eq!(ps[1].id, "张三");
    assert_eq!(ps[1].message_count, 2);
    assert!(!ps[1].is_self);
    assert_eq!(summary_participants(&counts, 0, "self").len(), 1);
}

fn texts(ps: &[QueryParam]) -> Vec<String> {
    ps.iter()
        .map(|p| match p {
            QueryParam::Text(s) => s.clone(),
            QueryParam::Int(n) => n.to_string(),
        })
        .collect()
}

#[test]
fn message_query_adds_the_filters_given() {
    let (sql, params) = messages_query(Some("chat-a"), None, Some("hi"), 20, 5);
    assert!(sql.ends_with(" AND chat_name = ? AND content LIKE ? ORDER BY detected_at DESC, id DESC LIMIT ? OFFSET ?"));
    assert!(!sql.contains("sender = ?"));
    assert_eq!(texts(&params), vec!["chat-a", "%hi%", "20", "5"]);
    let (all, p2) = messages_query(None, None, None, 50, 0);
    assert!(all.ends_with("WHERE 1=1 ORDER BY detected_at DESC, id DESC LIMIT ? OFFSET ?"));
    assert_eq!(texts(&p2), vec!["50", "0"]);
}

#[test]
fn summary_query_filters_self_or_one_sender() {
    let (own, p_own) = summary_messages_query("项目群", "2026-03-18", "2026-03-18", Some("me"), "me");
    assert!(own.ends_with(" AND is_self = 1 ORDER BY detected_at ASC, id ASC"));
    assert_eq!(texts(&p_own), vec!["项目群", "2026-03-18", "2026-03-18"]);
    let (other, p_other) = summary_messages_query("项目群", "a", "b", Some("张三"), "me");
    assert!(other.ends_with(" AND is_self = 0 AND sender = ? ORDER BY detected_at ASC, id ASC"));
    assert_eq!(texts(&p_other), vec!["项目群", "a", "b", "张三"]);
    let (none, _) = summary_messages_query("项目群", "a", "b", None, "me");
    assert!(none.ends_with("<= date(?) ORDER BY detected_at ASC, id ASC"));
}

#[test]
fn hash_bags_count_rows() {
    let rows = vec![
        ("h1".to_string(), "你好".to_string()),
        ("h2".to_string(), "你好".to_string()),
        ("h1".to_string(), "再见".to_string()),
    ];
    let (full, content) = recent_hash_bags(&rows);
    assert_eq!(full.get("h1"), 2);
    assert_eq!(full.get("h2"), 1);
    assert_eq!(full.get("h3"), 0);
    assert_eq!(content.get(&content_only_hash("你好")), 2);
    assert_eq!(content.get(&content_only_hash("再见")), 1);
}
