use wechat_pc_auto::history::{empty_history_summary, require_chat_selected, resolve_selected_participant};
use wechat_pc_auto::store::HistorySummaryParticipant;

fn p(id: &str) -> HistorySummaryParticipant {
    HistorySummaryParticipant { id: id.to_string(), label: id.to_string(), message_count: 1, is_self: false }
}

#[test]
fn a_chat_must_be_chosen() {
    assert_eq!(require_chat_selected("  "), Err("请先选择一个会话".to_string()));
    assert_eq!(require_chat_selected("群"), Ok(()));
}

#[test]
fn member_summary_needs_a_known_member() {
    let ps = vec![p("张三"), p("李四")];
    assert_eq!(resolve_selected_participant(false, Some("x".to_string()), &ps).unwrap().map(|q| q.id), None);
    assert_eq!(
        resolve_selected_participant(true, Some(" 李四 ".to_string()), &ps).unwrap().map(|q| q.id),
        Some("李四".to_string())
    );
    assert_eq!(
        resolve_selected_participant(true, None, &ps).err(),
        Some("成员总结需要先选择一个成员".to_string())
    );
    assert_eq!(
        resolve_selected_participant(true, Some(" ".to_string()), &ps).err(),
        Some("成员总结需要先选择一个成员".to_string())
    );
    assert_eq!(
        resolve_selected_participant(true, Some("王五".to_string()), &ps).err(),
        Some("所选成员在当前时间范围内没有可用消息".to_string())
    );
}

#[test]
fn an_empty_range_gets_an_empty_summary_without_the_ai() {
    let member = Some(p("wxid_a"));
    let s = empty_history_summary("participant", "群", &member, "2024-01-01", "2024-01-07", 0, 3).unwrap();
    assert_eq!(s.scope, "participant");
    assert_eq!(s.chat_name, "群");
    assert_eq!(s.start_date, "2024-01-01");
    assert_eq!(s.end_date, "2024-01-07");
    assert_eq!(s.message_count, 0);
    assert_eq!(s.participant_count, 3);
    assert_eq!(s.overall_summary, "");
    let q = s.participant.unwrap();
    assert_eq!((q.id.as_str(), q.label.as_str()), ("wxid_a", "wxid_a"));
    let chat = empty_history_summary("chat", "群", &None, "2024-01-01", "2024-01-07", 0, 0).unwrap();
    assert!(chat.participant.is_none());
    assert!(empty_history_summary("chat", "群", &None, "2024-01-01", "2024-01-07", 12, 2).is_none());
}
