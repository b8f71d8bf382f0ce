//! The rules of the message store: the records it hands out, the keys it
//! deduplicates by, and the choices made around its queries.  The SQLite
//! calls themselves run outside this crate.
use vstd::prelude::*;

use crate::adapter::ax_reader::prefix8_chars;
use crate::bindings::{datetime_seconds, parse_datetime_seconds, sha256_digest, sha256_of};
use crate::keyed::{find_key, insert_entry, keyed_map, keys_unique};
use crate::text::{chars_eq, chars_of, prefix8_spec, string_of};

verus! {

/// One stored message as queried.
pub struct StoredMessage {
    pub id: i64,
    pub chat_name: String,
    pub chat_type: Option<String>,
    pub sender: String,
    pub content: String,
    pub content_en: String,
    pub is_self: bool,
    pub detected_at: String,
    pub image_path: Option<String>,
    pub source: Option<String>,
    pub quality: Option<String>,
}

/// A chat with its message count and last activity.
pub struct ChatSummary {
    pub chat_name: String,
    pub message_count: i64,
    pub last_message_at: String,
}

/// Size and time span of the store.
pub struct DbStats {
    pub total_messages: i64,
    pub total_chats: i64,
    pub earliest_message: String,
    pub latest_message: String,
}

/// A member that can be summarised, with the number of their messages.
pub struct HistorySummaryParticipant {
    pub id: String,
    pub label: String,
    pub message_count: i64,
    pub is_self: bool,
}

/// A field-by-field copy of a participant.
pub fn copy_participant(p: &HistorySummaryParticipant) -> (r: HistorySummaryParticipant)
    ensures
        r == *p,
{
    HistorySummaryParticipant {
        id: p.id.clone(),
        label: p.label.clone(),
        message_count: p.message_count,
        is_self: p.is_self,
    }
}

/// A message handed to the summariser.
pub struct HistorySummarySourceMessage {
    pub chat_name: String,
    pub sender: String,
    pub content: String,
    pub is_self: bool,
    pub detected_at: String,
    pub image_path: Option<String>,
}

/// A cached translation of a text.
pub struct CachedTranslation {
    pub translated_text: String,
    pub source_lang: String,
    pub target_lang: String,
    pub updated_at: String,
}

// ---------------------------------------------------------------------------
// Hex and content hashes
// ---------------------------------------------------------------------------

/// The lowercase hexadecimal digit of `n` (0 to 15).
pub open spec fn hex_digit(n: int) -> char {
    if n < 10 {
        (48 + n) as char
    } else {
        (87 + n) as char
    }
}

/// Two lowercase hex digits per byte, most significant first.
pub open spec fn hex_spec(bytes: Seq<u8>) -> Seq<char>
    decreases bytes.len(),
{
    if bytes.len() == 0 {
        Seq::empty()
    } else {
        hex_spec(bytes.drop_last()) + seq![hex_digit(bytes.last() as int / 16), hex_digit(bytes.last() as int % 16)]
    }
}

fn hex_char(n: u8) -> (c: char)
    requires
        n < 16,
    ensures
        c == hex_digit(n as int),
{
    if n < 10 {
        (48u8 + n) as char
    } else {
        (87u8 + n) as char
    }
}

/// Lowercase hexadecimal text of `bytes`, two digits per byte.
pub fn hex_encode(bytes: &[u8]) -> (r: String)
    ensures
        r@ == hex_spec(bytes@),
{
    let mut out: Vec<char> = Vec::new();
    let mut i: usize = 0;
    assert(bytes@.take(0) =~= Seq::<u8>::empty());
    while i < bytes.len()
        invariant
            i <= bytes@.len(),
            out@ == hex_spec(bytes@.take(i as int)),
        decreases bytes@.len() - i,
    {
        assert(bytes@.take(i + 1).drop_last() =~= bytes@.take(i as int));
        let b = bytes[i];
        out.push(hex_char(b / 16));
        out.push(hex_char(b % 16));
        proof {
            assert(out@ =~= hex_spec(bytes@.take(i + 1)));
        }
        i += 1;
    }
    assert(bytes@.take(bytes@.len() as int) =~= bytes@);
    string_of(&out)
}

/// Same as [`hex_encode`].
pub fn encode(bytes: &[u8]) -> (r: String)
    ensures
        r@ == hex_spec(bytes@),
{
    hex_encode(bytes)
}

/// The bytes that are hashed for a message: the sender's UTF-8, a line
/// feed, the content's UTF-8.
pub open spec fn hash_input(sender: Seq<char>, content: Seq<char>) -> Seq<u8> {
    vstd::utf8::encode_utf8(sender) + seq![10u8] + vstd::utf8::encode_utf8(content)
}

/// The dedupe key of a message: the first eight bytes of the SHA-256 of
/// its hash input, in hex.
pub open spec fn content_hash_spec(sender: Seq<char>, content: Seq<char>) -> Seq<char> {
    hex_spec(sha256_of(hash_input(sender, content)).take(8))
}

/// The key by which a message is deduplicated within its chat.
pub fn content_hash(sender: &str, content: &str) -> (r: String)
    ensures
        r@ == content_hash_spec(sender@, content@),
        r@.len() == 16,
{
    let mut data = sender.as_bytes_vec();
    data.push(10u8);
    let mut tail = content.as_bytes_vec();
    data.append(&mut tail);
    assert(data@ =~= hash_input(sender@, content@));
    let digest = sha256_digest(data.as_slice());
    let mut head: Vec<u8> = Vec::new();
    let mut i: usize = 0;
    while i < 8
        invariant
            i <= 8,
            digest@.len() == 32,
            head@ == digest@.take(i as int),
        decreases 8 - i,
    {
        head.push(digest[i]);
        proof {
            assert(head@ =~= digest@.take(i + 1));
        }
        i += 1;
    }
    proof {
        lemma_hex_len(head@);
    }
    hex_encode(head.as_slice())
}

pub proof fn lemma_hex_len(bytes: Seq<u8>)
    ensures
        hex_spec(bytes).len() == 2 * bytes.len(),
    decreases bytes.len(),
{
    if bytes.len() > 0 {
        lemma_hex_len(bytes.drop_last());
    }
}

/// The key of a text alone, as if its sender were empty.
pub fn content_only_hash(content: &str) -> (r: String)
    ensures
        r@ == content_hash_spec(Seq::empty(), content@),
        r@.len() == 16,
{
    proof {
        reveal_strlit("");
    }
    content_hash("", content)
}

// ---------------------------------------------------------------------------
// Correcting a preview row
// ---------------------------------------------------------------------------

/// A low-quality row stored from a session preview, newest first.
pub struct PreviewRow {
    pub id: i64,
    pub content: String,
    pub detected_at: String,
}

/// A preview row stands for the message being stored: same prefix key, and
/// stored no later than `now` and at most `window` seconds before it.
pub open spec fn row_matches(row: PreviewRow, key: Seq<char>, now: i64, window: i64) -> bool {
    &&& prefix8_spec(row.content@) == key
    &&& match datetime_seconds(row.detected_at@) {
        Some(t) => 0 <= now - t <= window,
        None => false,
    }
}

/// The first row from position `i` on that matches.
pub open spec fn first_matching_row(rows: Seq<PreviewRow>, key: Seq<char>, now: i64, window: i64, i: int) -> Option<int>
    decreases rows.len() - i,
{
    if i < 0 || i >= rows.len() {
        None
    } else if row_matches(rows[i], key, now, window) {
        Some(i)
    } else {
        first_matching_row(rows, key, now, window, i + 1)
    }
}

/// The preview row a detailed message corrects: none when the message has
/// no prefix key or an unreadable time; otherwise the first (newest) row
/// that matches.
pub open spec fn preview_candidate_spec(
    content: Seq<char>,
    detected_at: Seq<char>,
    window: i64,
    rows: Seq<PreviewRow>,
) -> Option<i64> {
    let key = prefix8_spec(content);
    if key.len() == 0 {
        None
    } else {
        match datetime_seconds(detected_at) {
            None => None,
            Some(now) => match first_matching_row(rows, key, now, window, 0) {
                Some(i) => Some(rows[i].id),
                None => None,
            },
        }
    }
}

/// Picks the id of the session-preview row that a detailed message should
/// replace, among the chat's recent low-quality preview rows.
pub fn select_preview_candidate(content: &str, detected_at: &str, window_seconds: i64, rows: &Vec<PreviewRow>) -> (r:
    Option<i64>)
    ensures
        r == preview_candidate_spec(content@, detected_at@, window_seconds, rows@),
{
    let key = prefix8_chars(&chars_of(content));
    if key.len() == 0 {
        return None;
    }
    let now = match parse_datetime_seconds(detected_at) {
        Some(t) => t,
        None => {
            return None;
        },
    };
    let mut i: usize = 0;
    while i < rows.len()
        invariant
            i <= rows@.len(),
            key@ == prefix8_spec(content@),
            key@.len() > 0,
            datetime_seconds(detected_at@) == Some(now),
            first_matching_row(rows@, key@, now, window_seconds, 0) == first_matching_row(
                rows@,
                key@,
                now,
                window_seconds,
                i as int,
            ),
        decreases rows@.len() - i,
    {
        let row = &rows[i];
        let row_key = prefix8_chars(&chars_of(row.content.as_str()));
        if chars_eq(&row_key, &key) {
            match parse_datetime_seconds(row.detected_at.as_str()) {
                Some(t) => {
                    let delta: i128 = (now as i128) - (t as i128);
                    if 0 <= delta && delta <= window_seconds as i128 {
                        return Some(row.id);
                    }
                },
                None => {},
            }
        }
        i += 1;
    }
    None
}

proof fn lemma_first_matching_row(rows: Seq<PreviewRow>, key: Seq<char>, now: i64, window: i64, i: int)
    ensures
        first_matching_row(rows, key, now, window, i) matches Some(j) ==> i <= j < rows.len() && row_matches(
            rows[j],
            key,
            now,
            window,
        ) && forall|m: int| i <= m < j ==> !#[trigger] row_matches(rows[m], key, now, window),
    decreases rows.len() - i,
{
    if 0 <= i < rows.len() && !row_matches(rows[i], key, now, window) {
        lemma_first_matching_row(rows, key, now, window, i + 1);
    }
}

/// The corrected preview row is the newest one that shares the message's
/// prefix key and was stored within the window before it; no newer row
/// qualifies.
pub proof fn law_corrected_row_is_newest_match(
    content: Seq<char>,
    detected_at: Seq<char>,
    window: i64,
    rows: Seq<PreviewRow>,
)
    requires
        preview_candidate_spec(content, detected_at, window, rows) is Some,
    ensures
        ({
            let now = datetime_seconds(detected_at)->0;
            let key = prefix8_spec(content);
            exists|j: int|
                0 <= j < rows.len() && rows[j].id == preview_candidate_spec(content, detected_at, window, rows)->0
                    && #[trigger] row_matches(rows[j], key, now, window) && key.len() > 0 && forall|m: int|
                    0 <= m < j ==> !#[trigger] row_matches(rows[m], key, now, window)
        }),
{
    let now = datetime_seconds(detected_at)->0;
    let key = prefix8_spec(content);
    lemma_first_matching_row(rows, key, now, window, 0);
    let j = first_matching_row(rows, key, now, window, 0)->0;
    assert(row_matches(rows[j], key, now, window));
}

// ---------------------------------------------------------------------------
// Summary participants
// ---------------------------------------------------------------------------

/// Label of the user's own entry among the participants.
pub const SELF_LABEL: &'static str = "我";

/// `p` is the participant entry of the sender counted `count` times.
pub open spec fn is_sender_entry(p: HistorySummaryParticipant, sender: Seq<char>, count: i64) -> bool {
    p.id@ == sender && p.label@ == sender && p.message_count == count && !p.is_self
}

/// The participants of a summary: the user's own entry first when they
/// wrote anything in the range, then one entry per other sender, in the
/// order the counts came.
pub fn summary_participants(sender_counts: &Vec<(String, i64)>, self_count: i64, self_id: &str) -> (r: Vec<
    HistorySummaryParticipant,
>)
    ensures
        ({
            let off: int = if self_count > 0 {
                1
            } else {
                0
            };
            &&& r@.len() == sender_counts@.len() + off
            &&& self_count > 0 ==> (r@[0].id@ == self_id@ && r@[0].label@ == SELF_LABEL@ && r@[0].message_count
                == self_count && r@[0].is_self)
            &&& forall|i: int|
                0 <= i < sender_counts@.len() ==> is_sender_entry(
                    #[trigger] r@[i + off],
                    sender_counts@[i].0@,
                    sender_counts@[i].1,
                )
        }),
{
    let mut out: Vec<HistorySummaryParticipant> = Vec::new();
    let off: usize = if self_count > 0 {
        1
    } else {
        0
    };
    if self_count > 0 {
        out.push(
            HistorySummaryParticipant {
                id: String::from_str(self_id),
                label: String::from_str(SELF_LABEL),
                message_count: self_count,
                is_self: true,
            },
        );
    }
    let mut i: usize = 0;
    while i < sender_counts.len()
        invariant
            i <= sender_counts@.len(),
            off == (if self_count > 0 {
                1usize
            } else {
                0usize
            }),
            out@.len() == i + off,
            self_count > 0 ==> (out@[0].id@ == self_id@ && out@[0].label@ == SELF_LABEL@ && out@[0].message_count
                == self_count && out@[0].is_self),
            forall|k: int|
                0 <= k < i ==> is_sender_entry(
                    #[trigger] out@[k + off],
                    sender_counts@[k].0@,
                    sender_counts@[k].1,
                ),
        decreases sender_counts@.len() - i,
    {
        let entry = HistorySummaryParticipant {
            id: sender_counts[i].0.clone(),
            label: sender_counts[i].0.clone(),
            message_count: sender_counts[i].1,
            is_self: false,
        };
        out.push(entry);
        i += 1;
    }
    out
}

// ---------------------------------------------------------------------------
// Query text
// ---------------------------------------------------------------------------

/// A value bound to a `?` of a query.
pub enum QueryParam {
    Text(String),
    Int(i64),
}

/// A bound value, as a plain value.
pub enum ParamView {
    Text(Seq<char>),
    Int(i64),
}

/// The plain values of bound parameters.
pub open spec fn param_views(ps: Seq<QueryParam>) -> Seq<ParamView> {
    ps.map_values(
        |p: QueryParam|
            match p {
                QueryParam::Text(s) => ParamView::Text(s@),
                QueryParam::Int(n) => ParamView::Int(n),
            },
    )
}

pub const MESSAGES_SELECT: &'static str = "SELECT id, chat_name, chat_type, sender, content, detected_at, content_en, is_self, image_path, source, quality\n             FROM messages\n             WHERE 1=1";

pub const FILTER_CHAT: &'static str = " AND chat_name = ?";

pub const FILTER_SENDER: &'static str = " AND sender = ?";

pub const FILTER_KEYWORD: &'static str = " AND content LIKE ?";

pub const MESSAGES_ORDER: &'static str = " ORDER BY detected_at DESC, id DESC LIMIT ? OFFSET ?";

/// The text of the message query for the given filters.
pub open spec fn messages_sql_spec(chat: bool, sender: bool, keyword: bool) -> Seq<char> {
    MESSAGES_SELECT@ + (if chat {
        FILTER_CHAT@
    } else {
        Seq::empty()
    }) + (if sender {
        FILTER_SENDER@
    } else {
        Seq::empty()
    }) + (if keyword {
        FILTER_KEYWORD@
    } else {
        Seq::empty()
    }) + MESSAGES_ORDER@
}

/// The values bound to the message query: each filter that is set, the
/// keyword wrapped in '%', then the limit and the offset.
pub open spec fn messages_params_spec(
    chat: Option<Seq<char>>,
    sender: Option<Seq<char>>,
    keyword: Option<Seq<char>>,
    limit: i64,
    offset: i64,
) -> Seq<ParamView> {
    (match chat {
        Some(c) => seq![ParamView::Text(c)],
        None => Seq::empty(),
    }) + (match sender {
        Some(s) => seq![ParamView::Text(s)],
        None => Seq::empty(),
    }) + (match keyword {
        Some(k) => seq![ParamView::Text("%"@ + k + "%"@)],
        None => Seq::empty(),
    }) + seq![ParamView::Int(limit), ParamView::Int(offset)]
}

/// The view of an optional string slice.
pub open spec fn opt_str(o: Option<&str>) -> Option<Seq<char>> {
    match o {
        Some(s) => Some(s@),
        None => None,
    }
}

/// The query and its bound values for listing messages, newest first,
/// optionally filtered by chat, sender and a keyword in the text.
pub fn messages_query(
    chat_name: Option<&str>,
    sender: Option<&str>,
    keyword: Option<&str>,
    limit: i64,
    offset: i64,
) -> (r: (String, Vec<QueryParam>))
    ensures
        r.0@ == messages_sql_spec(chat_name is Some, sender is Some, keyword is Some),
        param_views(r.1@) == messages_params_spec(
            opt_str(chat_name),
            opt_str(sender),
            opt_str(keyword),
            limit,
            offset,
        ),
{
    let mut sql = String::from_str(MESSAGES_SELECT);
    let mut params: Vec<QueryParam> = Vec::new();
    let ghost p0 = params@;
    match chat_name {
        Some(c) => {
            sql.append(FILTER_CHAT);
            params.push(QueryParam::Text(String::from_str(c)));
        },
        None => {},
    }
    let ghost p1 = params@;
    match sender {
        Some(s) => {
            sql.append(FILTER_SENDER);
            params.push(QueryParam::Text(String::from_str(s)));
        },
        None => {},
    }
    let ghost p2 = params@;
    match keyword {
        Some(k) => {
            sql.append(FILTER_KEYWORD);
            let pattern = String::from_str("%").concat(k).concat("%");
            params.push(QueryParam::Text(pattern));
        },
        None => {},
    }
    let ghost p3 = params@;
    sql.append(MESSAGES_ORDER);
    params.push(QueryParam::Int(limit));
    params.push(QueryParam::Int(offset));
    proof {
        assert(param_views(p1) =~= param_views(p0) + match opt_str(chat_name) {
            Some(c) => seq![ParamView::Text(c)],
            None => Seq::<ParamView>::empty(),
        });
        assert(param_views(p2) =~= param_views(p1) + match opt_str(sender) {
            Some(s) => seq![ParamView::Text(s)],
            None => Seq::<ParamView>::empty(),
        });
        assert(param_views(p3) =~= param_views(p2) + match opt_str(keyword) {
            Some(k) => seq![ParamView::Text("%"@ + k + "%"@)],
            None => Seq::<ParamView>::empty(),
        });
        assert(param_views(params@) =~= param_views(p3) + seq![ParamView::Int(limit), ParamView::Int(offset)]);
        assert(param_views(params@) =~= messages_params_spec(
            opt_str(chat_name),
            opt_str(sender),
            opt_str(keyword),
            limit,
            offset,
        ));
    }
    (sql, params)
}

/// The SQL text of a run of filter clauses, in order.
pub open spec fn clause_sql(cs: Seq<(Seq<char>, ParamView)>) -> Seq<char>
    decreases cs.len(),
{
    if cs.len() == 0 {
        Seq::empty()
    } else {
        clause_sql(cs.drop_last()) + cs.last().0
    }
}

/// The values bound to a run of filter clauses, in order.
pub open spec fn clause_values(cs: Seq<(Seq<char>, ParamView)>) -> Seq<ParamView> {
    cs.map_values(|c: (Seq<char>, ParamView)| c.1)
}

/// A filter clause of the message query paired with the value its
/// placeholder takes: the chat name for the chat filter, the sender for the
/// sender filter, the keyword wrapped in '%' for the text filter.
pub open spec fn is_message_filter(
    c: (Seq<char>, ParamView),
    chat: Option<Seq<char>>,
    sender: Option<Seq<char>>,
    keyword: Option<Seq<char>>,
) -> bool {
    ||| chat matches Some(v) && c == (FILTER_CHAT@, ParamView::Text(v))
    ||| sender matches Some(v) && c == (FILTER_SENDER@, ParamView::Text(v))
    ||| keyword matches Some(v) && c == (FILTER_KEYWORD@, ParamView::Text("%"@ + v + "%"@))
}

proof fn lemma_clause_push(cs: Seq<(Seq<char>, ParamView)>, c: (Seq<char>, ParamView))
    ensures
        clause_sql(cs.push(c)) == clause_sql(cs) + c.0,
        clause_values(cs.push(c)) == clause_values(cs).push(c.1),
{
    assert(cs.push(c).drop_last() =~= cs);
    assert(clause_values(cs.push(c)) =~= clause_values(cs).push(c.1));
}

/// The values bound to the message query line up with its placeholders:
/// the query is the base selection, a run of filter clauses (each set
/// filter exactly once, no other), then the ordering; and the bound values
/// are, in the same order, the value of each of those clauses (chat name,
/// sender, '%'-wrapped keyword), followed by the limit and the offset.
pub proof fn law_messages_params_line_up(
    chat: Option<Seq<char>>,
    sender: Option<Seq<char>>,
    keyword: Option<Seq<char>>,
    limit: i64,
    offset: i64,
)
    ensures
        exists|cs: Seq<(Seq<char>, ParamView)>|
            {
                &&& messages_sql_spec(chat is Some, sender is Some, keyword is Some) == MESSAGES_SELECT@
                    + #[trigger] clause_sql(cs) + MESSAGES_ORDER@
                &&& messages_params_spec(chat, sender, keyword, limit, offset) == clause_values(cs) + seq![
                    ParamView::Int(limit),
                    ParamView::Int(offset),
                ]
                &&& forall|i: int| 0 <= i < cs.len() ==> is_message_filter(#[trigger] cs[i], chat, sender, keyword)
                &&& forall|i: int, j: int| 0 <= i < j < cs.len() ==> #[trigger] cs[i].0 != #[trigger] cs[j].0
                &&& cs.len() == (if chat is Some {
                    1int
                } else {
                    0
                }) + (if sender is Some {
                    1int
                } else {
                    0
                }) + (if keyword is Some {
                    1int
                } else {
                    0
                })
            },
{
    reveal_strlit(" AND chat_name = ?");
    reveal_strlit(" AND sender = ?");
    reveal_strlit(" AND content LIKE ?");
    let e = Seq::<(Seq<char>, ParamView)>::empty();
    let p1 = match chat {
        Some(v) => e.push((FILTER_CHAT@, ParamView::Text(v))),
        None => e,
    };
    let p2 = match sender {
        Some(v) => p1.push((FILTER_SENDER@, ParamView::Text(v))),
        None => p1,
    };
    let p3 = match keyword {
        Some(v) => p2.push((FILTER_KEYWORD@, ParamView::Text("%"@ + v + "%"@))),
        None => p2,
    };
    let a = if chat is Some {
        FILTER_CHAT@
    } else {
        Seq::empty()
    };
    let b = if sender is Some {
        FILTER_SENDER@
    } else {
        Seq::empty()
    };
    let c = if keyword is Some {
        FILTER_KEYWORD@
    } else {
        Seq::empty()
    };
    assert(clause_sql(e) == Seq::<char>::empty());
    assert(clause_values(e) =~= Seq::<ParamView>::empty());
    if let Some(v) = chat {
        lemma_clause_push(e, (FILTER_CHAT@, ParamView::Text(v)));
    }
    assert(clause_sql(p1) =~= a);
    if let Some(v) = sender {
        lemma_clause_push(p1, (FILTER_SENDER@, ParamView::Text(v)));
    }
    assert(clause_sql(p2) =~= a + b);
    if let Some(v) = keyword {
        lemma_clause_push(p2, (FILTER_KEYWORD@, ParamView::Text("%"@ + v + "%"@)));
    }
    assert(clause_sql(p3) =~= a + b + c);
    assert(messages_sql_spec(chat is Some, sender is Some, keyword is Some) =~= MESSAGES_SELECT@ + clause_sql(p3)
        + MESSAGES_ORDER@);
    assert(messages_params_spec(chat, sender, keyword, limit, offset) =~= clause_values(p3) + seq![
        ParamView::Int(limit),
        ParamView::Int(offset),
    ]);
    assert(FILTER_CHAT@.len() != FILTER_SENDER@.len());
    assert(FILTER_CHAT@.len() != FILTER_KEYWORD@.len());
    assert(FILTER_SENDER@.len() != FILTER_KEYWORD@.len());
    assert forall|i: int| 0 <= i < p3.len() implies is_message_filter(#[trigger] p3[i], chat, sender, keyword) by {
    }
}

pub const SUMMARY_SELECT: &'static str = "SELECT chat_name, sender, content, is_self, detected_at, image_path\n             FROM messages\n             WHERE chat_name = ?\n               AND date(detected_at) >= date(?)\n               AND date(detected_at) <= date(?)";

pub const FILTER_SELF: &'static str = " AND is_self = 1";

pub const FILTER_OTHER_SENDER: &'static str = " AND is_self = 0 AND sender = ?";

pub const SUMMARY_ORDER: &'static str = " ORDER BY detected_at ASC, id ASC";

/// The filter a participant adds: the user's own messages for the self
/// entry, another member's messages by sender otherwise.
pub open spec fn summary_filter_spec(participant: Option<Seq<char>>, self_id: Seq<char>) -> Seq<char> {
    match participant {
        None => Seq::empty(),
        Some(p) => if p == self_id {
            FILTER_SELF@
        } else {
            FILTER_OTHER_SENDER@
        },
    }
}

/// The text of the summary query for a participant choice.
pub open spec fn summary_sql_spec(participant: Option<Seq<char>>, self_id: Seq<char>) -> Seq<char> {
    SUMMARY_SELECT@ + summary_filter_spec(participant, self_id) + SUMMARY_ORDER@
}

/// The values bound to the summary query: chat, first and last day, then
/// the member's sender when another member is chosen.
pub open spec fn summary_params_spec(
    chat: Seq<char>,
    start: Seq<char>,
    end: Seq<char>,
    participant: Option<Seq<char>>,
    self_id: Seq<char>,
) -> Seq<ParamView> {
    seq![ParamView::Text(chat), ParamView::Text(start), ParamView::Text(end)] + match participant {
        Some(p) => if p == self_id {
            Seq::<ParamView>::empty()
        } else {
            seq![ParamView::Text(p)]
        },
        None => Seq::empty(),
    }
}

/// The values bound to the summary query line up with its placeholders:
/// the base selection's three (`chat_name = ?`, then the first and the last
/// day) take the chat name, the first day and the last day; the user's own
/// entry adds a placeholder-free filter; another member adds the filter on
/// `sender = ?`, which takes that member's id; without a member nothing is
/// added.
pub proof fn law_summary_params_line_up(
    chat: Seq<char>,
    start: Seq<char>,
    end: Seq<char>,
    participant: Option<Seq<char>>,
    self_id: Seq<char>,
)
    ensures
        summary_params_spec(chat, start, end, participant, self_id).take(3) == seq![
            ParamView::Text(chat),
            ParamView::Text(start),
            ParamView::Text(end),
        ],
        participant is None ==> summary_sql_spec(participant, self_id) == SUMMARY_SELECT@ + SUMMARY_ORDER@
            && summary_params_spec(chat, start, end, participant, self_id).len() == 3,
        participant == Some(self_id) ==> summary_sql_spec(participant, self_id) == SUMMARY_SELECT@ + FILTER_SELF@
            + SUMMARY_ORDER@ && summary_params_spec(chat, start, end, participant, self_id).len() == 3,
        forall|p: Seq<char>|
            participant == Some(p) && p != self_id ==> {
                &&& summary_sql_spec(participant, self_id) == SUMMARY_SELECT@ + FILTER_OTHER_SENDER@ + SUMMARY_ORDER@
                &&& #[trigger] summary_params_spec(chat, start, end, Some(p), self_id) == seq![
                    ParamView::Text(chat),
                    ParamView::Text(start),
                    ParamView::Text(end),
                    ParamView::Text(p),
                ]
            },
{
    let ps = summary_params_spec(chat, start, end, participant, self_id);
    assert(ps.take(3) =~= seq![ParamView::Text(chat), ParamView::Text(start), ParamView::Text(end)]);
    assert(SUMMARY_SELECT@ + Seq::<char>::empty() =~= SUMMARY_SELECT@);
    if let Some(p) = participant {
        if p != self_id {
            assert(ps =~= seq![ParamView::Text(chat), ParamView::Text(start), ParamView::Text(end), ParamView::Text(p)]);
        }
    }
}

/// The query and its bound values for the messages of one chat within a
/// date range, oldest first, optionally of one participant.
pub fn summary_messages_query(
    chat_name: &str,
    start_date: &str,
    end_date: &str,
    participant_id: Option<&str>,
    self_id: &str,
) -> (r: (String, Vec<QueryParam>))
    ensures
        r.0@ == summary_sql_spec(opt_str(participant_id), self_id@),
        param_views(r.1@) == summary_params_spec(chat_name@, start_date@, end_date@, opt_str(participant_id), self_id@),
{
    let mut sql = String::from_str(SUMMARY_SELECT);
    let mut params: Vec<QueryParam> = Vec::new();
    params.push(QueryParam::Text(String::from_str(chat_name)));
    params.push(QueryParam::Text(String::from_str(start_date)));
    params.push(QueryParam::Text(String::from_str(end_date)));
    let ghost p0 = params@;
    match participant_id {
        Some(p) => {
            if chars_eq(&chars_of(p), &chars_of(self_id)) {
                sql.append(FILTER_SELF);
            } else {
                sql.append(FILTER_OTHER_SENDER);
                params.push(QueryParam::Text(String::from_str(p)));
            }
        },
        None => {},
    }
    sql.append(SUMMARY_ORDER);
    proof {
        assert(param_views(p0) =~= seq![ParamView::Text(chat_name@), ParamView::Text(start_date@), ParamView::Text(end_date@)]);
        assert(param_views(params@) =~= summary_params_spec(
            chat_name@,
            start_date@,
            end_date@,
            opt_str(participant_id),
            self_id@,
        ));
    }
    (sql, params)
}

// ---------------------------------------------------------------------------
// Bags of recent hashes
// ---------------------------------------------------------------------------

/// How often `k` occurs in `s`.
pub open spec fn count_of(s: Seq<Seq<char>>, k: Seq<char>) -> nat
    decreases s.len(),
{
    if s.len() == 0 {
        0
    } else {
        count_of(s.drop_last(), k) + if s.last() == k {
            1nat
        } else {
            0nat
        }
    }
}

proof fn lemma_count_of_bound(s: Seq<Seq<char>>, k: Seq<char>)
    ensures
        count_of(s, k) <= s.len(),
    decreases s.len(),
{
    if s.len() > 0 {
        lemma_count_of_bound(s.drop_last(), k);
    }
}

/// The map from each text of `s` to the number of its occurrences.
pub open spec fn counts(s: Seq<Seq<char>>) -> Map<Seq<char>, usize> {
    Map::new(|k: Seq<char>| count_of(s, k) > 0, |k: Seq<char>| count_of(s, k) as usize)
}

/// A multiset of hashes: how many recent rows carry each one.
pub struct HashBag {
    entries: Vec<(String, usize)>,
}

impl View for HashBag {
    type V = Map<Seq<char>, usize>;

    closed spec fn view(&self) -> Map<Seq<char>, usize> {
        keyed_map(self.entries@)
    }
}

impl HashBag {
    pub closed spec fn wf(&self) -> bool {
        keys_unique(self.entries@)
    }

    /// The bag of the texts of `items`.
    pub fn from_items(items: &Vec<String>) -> (r: Self)
        ensures
            r.wf(),
            r@ == counts(items@.map_values(|s: String| s@)),
    {
        let ghost all = items@.map_values(|s: String| s@);
        let mut bag = HashBag { entries: Vec::new() };
        let mut i: usize = 0;
        assert(bag@ =~= counts(all.take(0)));
        while i < items.len()
            invariant
                i <= items@.len(),
                all == items@.map_values(|s: String| s@),
                bag.wf(),
                bag@ == counts(all.take(i as int)),
            decreases items@.len() - i,
        {
            let ghost prefix = all.take(i as int);
            assert(all.take(i + 1).drop_last() =~= prefix);
            assert(all.take(i + 1).last() == items@[i as int]@);
            proof {
                lemma_count_of_bound(prefix, items@[i as int]@);
            }
            bag.add(items[i].as_str());
            proof {
                assert(bag@ =~= counts(all.take(i + 1)));
            }
            i += 1;
        }
        assert(all.take(items@.len() as int) =~= all);
        bag
    }

    /// Counts one more occurrence of `key`.
    fn add(&mut self, key: &str)
        requires
            old(self).wf(),
            old(self)@.contains_key(key@) ==> old(self)@[key@] < usize::MAX,
        ensures
            final(self).wf(),
            final(self)@ == old(self)@.insert(
                key@,
                if old(self)@.contains_key(key@) {
                    (old(self)@[key@] + 1) as usize
                } else {
                    1usize
                },
            ),
    {
        let c = match find_key(&self.entries, key) {
            Some(i) => self.entries[i].1 + 1,
            None => 1,
        };
        insert_entry(&mut self.entries, String::from_str(key), c);
    }

    /// Number of occurrences of `key` (0 when absent).
    pub fn get(&self, key: &str) -> (r: usize)
        requires
            self.wf(),
        ensures
            r == if self@.contains_key(key@) {
                self@[key@]
            } else {
                0
            },
    {
        match find_key(&self.entries, key) {
            Some(i) => self.entries[i].1,
            None => 0,
        }
    }
}

/// The two bags of a chat's recent rows (content hash, content): the stored
/// sender-and-content hashes, and the content-only hashes used when the
/// sender of a new message is not known yet.
pub fn recent_hash_bags(rows: &Vec<(String, String)>) -> (r: (HashBag, HashBag))
    ensures
        r.0.wf(),
        r.1.wf(),
        r.0@ == counts(rows@.map_values(|row: (String, String)| row.0@)),
        r.1@ == counts(rows@.map_values(|row: (String, String)| content_hash_spec(Seq::empty(), row.1@))),
{
    let mut full: Vec<String> = Vec::new();
    let mut content: Vec<String> = Vec::new();
    let mut i: usize = 0;
    while i < rows.len()
        invariant
            i <= rows@.len(),
            full@.map_values(|s: String| s@) == rows@.take(i as int).map_values(|row: (String, String)| row.0@),
            content@.map_values(|s: String| s@) == rows@.take(i as int).map_values(
                |row: (String, String)| content_hash_spec(Seq::empty(), row.1@),
            ),
        decreases rows@.len() - i,
    {
        let ghost f0 = full@;
        let ghost c0 = content@;
        full.push(rows[i].0.clone());
        content.push(content_only_hash(rows[i].1.as_str()));
        proof {
            let fa = full@.map_values(|s: String| s@);
            let fb = rows@.take(i + 1).map_values(|row: (String, String)| row.0@);
            let fo = f0.map_values(|s: String| s@);
            let fp = rows@.take(i as int).map_values(|row: (String, String)| row.0@);
            assert(fo.len() == fp.len());
            assert(fa.len() == i + 1);
            assert(fb.len() == i + 1);
            assert forall|j: int| 0 <= j < fa.len() implies fa[j] == fb[j] by {
                if j < i {
                    assert(fo[j] == fp[j]);
                    assert(full@[j] == f0[j]);
                } else {
                    assert(full@[j] == rows@[i as int].0);
                }
            }
            assert(fa =~= fb);
            let ca = content@.map_values(|s: String| s@);
            let cb = rows@.take(i + 1).map_values(|row: (String, String)| content_hash_spec(Seq::empty(), row.1@));
            let co = c0.map_values(|s: String| s@);
            let cp = rows@.take(i as int).map_values(|row: (String, String)| content_hash_spec(Seq::empty(), row.1@));
            assert(co.len() == cp.len());
            assert(ca.len() == i + 1);
            assert(cb.len() == i + 1);
            assert forall|j: int| 0 <= j < ca.len() implies ca[j] == cb[j] by {
                if j < i {
                    assert(co[j] == cp[j]);
                    assert(content@[j] == c0[j]);
                }
            }
            assert(ca =~= cb);
        }
        i += 1;
    }
    assert(rows@.take(rows@.len() as int) =~= rows@);
    (HashBag::from_items(&full), HashBag::from_items(&content))
}

} // verus!
