//! The checks of a history-summary request: a chat must be chosen, a
//! member summary needs a member that wrote in the range, and a range
//! without messages is answered with an empty summary.
use vstd::prelude::*;

use crate::store::{copy_participant, HistorySummaryParticipant};
use crate::text::{chars_eq, chars_of, trim_chars, trim_spec};

verus! {

pub const NO_CHAT_ERROR: &'static str = "请先选择一个会话";

pub const NO_MEMBER_ERROR: &'static str = "成员总结需要先选择一个成员";

pub const MEMBER_WITHOUT_MESSAGES_ERROR: &'static str = "所选成员在当前时间范围内没有可用消息";

/// A summary needs a chat whose name is not blank.
pub fn require_chat_selected(chat_name: &str) -> (r: Result<(), String>)
    ensures
        r is Ok <==> trim_spec(chat_name@).len() > 0,
        r matches Err(e) ==> e@ == NO_CHAT_ERROR@,
{
    if trim_chars(&chars_of(chat_name)).len() == 0 {
        return Err(String::from_str(NO_CHAT_ERROR));
    }
    Ok(())
}

/// Index of the first participant whose id is `id`.
pub open spec fn first_with_id(ps: Seq<HistorySummaryParticipant>, id: Seq<char>, i: int) -> Option<int>
    decreases ps.len() - i,
{
    if i < 0 || i >= ps.len() {
        None
    } else if ps[i].id@ == id {
        Some(i)
    } else {
        first_with_id(ps, id, i + 1)
    }
}

/// The member a summary is about: none outside the member scope; in it,
/// the participant whose id is the trimmed requested id, which must be
/// given and must be among the participants of the range.
pub fn resolve_selected_participant(
    participant_scope: bool,
    participant_id: Option<String>,
    participants: &Vec<HistorySummaryParticipant>,
) -> (r: Result<Option<HistorySummaryParticipant>, String>)
    ensures
        !participant_scope ==> r matches Ok(None),
        participant_scope ==> match participant_id {
            None => r matches Err(e) && e@ == NO_MEMBER_ERROR@,
            Some(p) => {
                let id = trim_spec(p@);
                if id.len() == 0 {
                    r matches Err(e) && e@ == NO_MEMBER_ERROR@
                } else {
                    match first_with_id(participants@, id, 0) {
                        Some(i) => r matches Ok(Some(q)) && q == participants@[i],
                        None => r matches Err(e) && e@ == MEMBER_WITHOUT_MESSAGES_ERROR@,
                    }
                }
            },
        },
{
    if !participant_scope {
        return Ok(None);
    }
    let id = match &participant_id {
        Some(p) => trim_chars(&chars_of(p.as_str())),
        None => {
            return Err(String::from_str(NO_MEMBER_ERROR));
        },
    };
    if id.len() == 0 {
        return Err(String::from_str(NO_MEMBER_ERROR));
    }
    let mut i: usize = 0;
    while i < participants.len()
        invariant
            i <= participants@.len(),
            participant_scope,
            id@.len() > 0,
            participant_id matches Some(p) && id@ == trim_spec(p@),
            first_with_id(participants@, id@, 0) == first_with_id(participants@, id@, i as int),
        decreases participants@.len() - i,
    {
        if chars_eq(&chars_of(participants[i].id.as_str()), &id) {
            return Ok(Some(copy_participant(&participants[i])));
        }
        i += 1;
    }
    Err(String::from_str(MEMBER_WITHOUT_MESSAGES_ERROR))
}

/// The member a summary is about, by id and label.
pub struct HistorySummaryParticipantRef {
    pub id: String,
    pub label: String,
}

/// The summary of a range that holds no message.
pub struct EmptyHistorySummary {
    pub scope: String,
    pub chat_name: String,
    pub participant: Option<HistorySummaryParticipantRef>,
    pub start_date: String,
    pub end_date: String,
    pub message_count: usize,
    pub participant_count: usize,
    pub overall_summary: String,
}

/// The answer owed without asking the AI: when the range holds no message
/// (`message_count == 0`), an empty summary of this chat, scope, member and
/// range, with no message and no text; otherwise `None`, and the AI is
/// asked to summarise the messages.
pub fn empty_history_summary(
    scope: &str,
    chat_name: &str,
    participant: &Option<HistorySummaryParticipant>,
    start_date: &str,
    end_date: &str,
    message_count: usize,
    participant_count: usize,
) -> (r: Option<EmptyHistorySummary>)
    ensures
        r is Some <==> message_count == 0,
        r matches Some(s) ==> {
            &&& s.scope@ == scope@
            &&& s.chat_name@ == chat_name@
            &&& s.start_date@ == start_date@
            &&& s.end_date@ == end_date@
            &&& s.message_count == 0
            &&& s.participant_count == participant_count
            &&& s.overall_summary@.len() == 0
            &&& match participant {
                Some(p) => s.participant matches Some(q) && q.id@ == p.id@ && q.label@ == p.label@,
                None => s.participant is None,
            }
        },
{
    if message_count > 0 {
        return None;
    }
    let member = match participant {
        Some(p) => Some(HistorySummaryParticipantRef { id: p.id.clone(), label: p.label.clone() }),
        None => None,
    };
    Some(
        EmptyHistorySummary {
            scope: String::from_str(scope),
            chat_name: String::from_str(chat_name),
            participant: member,
            start_date: String::from_str(start_date),
            end_date: String::from_str(end_date),
            message_count: 0,
            participant_count,
            overall_summary: String::new(),
        },
    )
}

} // verus!
