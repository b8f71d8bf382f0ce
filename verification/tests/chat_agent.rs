use wechat_pc_auto::chat_agent::{
    build_preamble, chat_base_url, chat_model_id, check_api_key, context_output,
    describe_chat_error, is_safe_sql, is_safe_upper_sql, rows_truncated, schema_for_table,
    ChatSession, HistoryMessage, SchemaInput, SessionStore, ToolError, MAX_HISTORY_TURNS,
    MESSAGES_SCHEMA, TRANSLATIONS_SCHEMA,
};

#[test]
fn history_messages_have_roles() {
    let u = HistoryMessage::user("hi".to_string());
    assert_eq!(u.role, "user");
    assert_eq!(u.content, "hi");
    assert_eq!(HistoryMessage::assistant("yo".to_string()).role, "assistant");
}

#[test]
fn session_keeps_the_last_forty_turns() {
    let mut s = ChatSession::new();
    for i in 0..45 {
        s.push_user(format!("u{i}"));
    }
    s.push_assistant("last".to_string());
    assert_eq!(s.messages.len(), MAX_HISTORY_TURNS);
    assert_eq!(s.messages[0].content, "u6");
    assert_eq!(s.messages[39].content, "last");
    assert_eq!(s.messages[39].role, "assistant");
}

#[test]
fn store_routes_turns_by_session_id() {
    let mut store = SessionStore::new();
    let id = store.create();
    assert_eq!(id.len(), 36);
    let other = store.create();
    assert_ne!(id, other);
    store.push_user(&id, "question".to_string());
    store.push_assistant(&id, "answer".to_string());
    let h = store.history(&id);
    assert_eq!(h.len(), 2);
    assert_eq!(h[0].role, "user");
    assert_eq!(h[1].content, "answer");
    assert!(store.history(&other).is_empty());
    store.push_user("unknown", "x".to_string());
    assert!(store.history("unknown").is_empty());
    store.clear(&id);
    assert!(store.history(&id).is_empty());
}

#[test]
fn tool_errors_wrap_text() {
    let e: ToolError = "bad".into();
    assert_eq!(e.0, "bad");
    let f: ToolError = String::from("worse").into();
    assert_eq!(f.0, "worse");
}

#[test]
fn schema_tool_answers_by_table() {
    let one = schema_for_table(&SchemaInput { table_name: Some("messages".to_string()) });
    assert_eq!(one.schema, MESSAGES_SCHEMA);
    let two = schema_for_table(&SchemaInput { table_name: Some("message_translations".to_string()) });
    assert_eq!(two.schema, TRANSLATIONS_SCHEMA);
    let all = schema_for_table(&SchemaInput { table_name: None });
    assert_eq!(all.schema, format!("{}{}", MESSAGES_SCHEMA, TRANSLATIONS_SCHEMA));
    let unknown = schema_for_table(&SchemaInput { table_name: Some("x".to_string()) });
    assert_eq!(unknown.schema, all.schema);
}

#[test]
fn only_read_only_sql_is_allowed() {
    assert!(is_safe_sql("  select * from messages"));
    assert!(is_safe_sql("WITH t AS (SELECT 1) SELECT * FROM t"));
    assert!(!is_safe_sql("delete from messages"));
    assert!(!is_safe_sql("SELECT 1; DROP TABLE messages"));
    assert!(!is_safe_sql("select * from messages where content like '%update%'"));
    assert!(!is_safe_sql("PRAGMA table_info(messages)"));
    assert!(is_safe_upper_sql("SELECT 1"));
    assert!(!is_safe_upper_sql("select 1"));
}

#[test]
fn rows_are_truncated_at_the_limit() {
    assert!(rows_truncated(200));
    assert!(!rows_truncated(199));
}

#[test]
fn context_output_lists_top_chats() {
    let out = context_output(10, 2, Some("a".to_string()), None, vec![("群".to_string(), 7)]);
    assert_eq!(out.total_messages, 10);
    assert_eq!(out.chat_count, 2);
    assert_eq!(out.earliest_date.as_deref(), Some("a"));
    assert_eq!(out.latest_date, None);
    assert_eq!(out.top_chats.len(), 1);
    assert_eq!(out.top_chats[0].chat_name, "群");
    assert_eq!(out.top_chats[0].message_count, 7);
}

#[test]
fn chat_request_settings() {
    assert_eq!(check_api_key("  "), Err("AI API Key 未配置，请在设置中填写".to_string()));
    assert_eq!(check_api_key(" k "), Ok(()));
    assert_eq!(chat_model_id(""), "gpt-4o");
    assert_eq!(chat_model_id(" gpt-4-turbo "), "gpt-4-turbo");
    assert_eq!(chat_base_url("  "), None);
    assert_eq!(chat_base_url(" https://x/v1 "), Some("https://x/v1".to_string()));
}

#[test]
fn tool_calling_errors_are_explained() {
    let e = describe_chat_error("400: tools is not supported");
    assert!(e.starts_with("当前模型不支持 Function Calling（工具调用）。"));
    assert!(e.ends_with("原始错误：400: tools is not supported"));
    assert_eq!(describe_chat_error("timeout"), "timeout");
}

#[test]
fn preamble_mentions_the_tools() {
    let p = build_preamble();
    assert!(p.starts_with("你是微信消息数据分析助手"));
    assert!(p.contains("get_context") && p.contains("get_schema") && p.contains("execute_sql"));
}
