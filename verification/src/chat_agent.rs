//! The chat assistant's bookkeeping: per-conversation history with a bounded
//! length, the sessions by id, the read-only SQL guard of its tools and the
//! texts and choices around a chat request.  The model call itself runs
//! outside this crate.
use vstd::prelude::*;

use crate::bindings::{new_uuid_v4, to_uppercase, uppercase_of};
use crate::keyed::{
    find_key, insert_entry, key_count, keyed_map, keys_unique, lemma_update_same_key, lookup,
};
use crate::text::{
    chars_of, contains_chars, contains_spec, starts_with_chars, string_of, trim_chars, trim_spec,
};

verus! {

/// Most messages one conversation keeps.
pub const MAX_HISTORY_TURNS: usize = 40;

/// One turn of a conversation; `role` is "user" or "assistant".
pub struct HistoryMessage {
    pub role: String,
    pub content: String,
}

impl View for HistoryMessage {
    type V = (Seq<char>, Seq<char>);

    open spec fn view(&self) -> (Seq<char>, Seq<char>) {
        (self.role@, self.content@)
    }
}

impl HistoryMessage {
    /// A turn written by the user.
    pub fn user(content: String) -> (r: Self)
        ensures
            r@ == ("user"@, content@),
    {
        HistoryMessage { role: String::from_str("user"), content }
    }

    /// A turn written by the assistant.
    pub fn assistant(content: String) -> (r: Self)
        ensures
            r@ == ("assistant"@, content@),
    {
        HistoryMessage { role: String::from_str("assistant"), content }
    }
}

/// The turns of a history, as plain values.
pub open spec fn turns(s: Seq<HistoryMessage>) -> Seq<(Seq<char>, Seq<char>)> {
    s.map_values(|m: HistoryMessage| m@)
}

/// The last `n` elements of `s` (all of them when it is shorter).
pub open spec fn keep_last<T>(s: Seq<T>, n: nat) -> Seq<T> {
    if s.len() > n {
        s.skip(s.len() - n)
    } else {
        s
    }
}

/// The history of one conversation.
pub struct ChatSession {
    pub messages: Vec<HistoryMessage>,
}

impl View for ChatSession {
    type V = Seq<(Seq<char>, Seq<char>)>;

    open spec fn view(&self) -> Seq<(Seq<char>, Seq<char>)> {
        turns(self.messages@)
    }
}

impl ChatSession {
    /// An empty conversation.
    pub fn new() -> (r: Self)
        ensures
            r@ == Seq::<(Seq<char>, Seq<char>)>::empty(),
    {
        ChatSession { messages: Vec::new() }
    }

    /// Adds a user turn, keeping only the most recent turns.
    pub fn push_user(&mut self, content: String)
        ensures
            final(self)@ == keep_last(old(self)@.push(("user"@, content@)), MAX_HISTORY_TURNS as nat),
    {
        let m = HistoryMessage::user(content);
        self.messages.push(m);
        proof {
            assert(turns(self.messages@) =~= turns(old(self).messages@).push(("user"@, content@)));
        }
        self.trim();
    }

    /// Adds an assistant turn, keeping only the most recent turns.
    pub fn push_assistant(&mut self, content: String)
        ensures
            final(self)@ == keep_last(old(self)@.push(("assistant"@, content@)), MAX_HISTORY_TURNS as nat),
    {
        let m = HistoryMessage::assistant(content);
        self.messages.push(m);
        proof {
            assert(turns(self.messages@) =~= turns(old(self).messages@).push(("assistant"@, content@)));
        }
        self.trim();
    }

    /// Drops the oldest turns beyond the limit.
    pub fn trim(&mut self)
        ensures
            final(self)@ == keep_last(old(self)@, MAX_HISTORY_TURNS as nat),
    {
        if self.messages.len() > MAX_HISTORY_TURNS {
            let drain = self.messages.len() - MAX_HISTORY_TURNS;
            let kept = self.messages.split_off(drain);
            self.messages = kept;
            proof {
                assert(turns(self.messages@) =~= turns(old(self).messages@).skip(drain as int));
            }
        }
    }

    /// Copies of the turns, oldest first.
    pub fn history(&self) -> (r: Vec<HistoryMessage>)
        ensures
            turns(r@) == self@,
    {
        let mut out: Vec<HistoryMessage> = Vec::new();
        let mut i: usize = 0;
        while i < self.messages.len()
            invariant
                i <= self.messages@.len(),
                turns(out@) == turns(self.messages@).take(i as int),
            decreases self.messages@.len() - i,
        {
            let m = HistoryMessage { role: self.messages[i].role.clone(), content: self.messages[i].content.clone() };
            assert(m@ == self.messages@[i as int]@);
            let ghost before = out@;
            out.push(m);
            proof {
                assert(turns(out@) =~= turns(before).push(m@));
                assert(turns(self.messages@).take(i + 1) =~= turns(self.messages@).take(i as int).push(
                    self.messages@[i as int]@,
                ));
            }
            i += 1;
        }
        assert(turns(self.messages@).take(self.messages@.len() as int) =~= turns(self.messages@));
        out
    }
}

/// The conversations, by id.
pub struct SessionStore {
    sessions: Vec<(String, ChatSession)>,
}

impl View for SessionStore {
    type V = Map<Seq<char>, Seq<(Seq<char>, Seq<char>)>>;

    closed spec fn view(&self) -> Map<Seq<char>, Seq<(Seq<char>, Seq<char>)>> {
        keyed_map(self.sessions@)
    }
}

/// `m` with the history of `id` changed to `h`, when `id` is known;
/// unchanged otherwise.
pub open spec fn update_known(
    m: Map<Seq<char>, Seq<(Seq<char>, Seq<char>)>>,
    id: Seq<char>,
    h: Seq<(Seq<char>, Seq<char>)>,
) -> Map<Seq<char>, Seq<(Seq<char>, Seq<char>)>> {
    if m.contains_key(id) {
        m.insert(id, h)
    } else {
        m
    }
}

impl SessionStore {
    /// Every id occurs once.
    pub closed spec fn wf(&self) -> bool {
        keys_unique(self.sessions@)
    }

    /// No conversation yet.
    pub fn new() -> (r: Self)
        ensures
            r.wf(),
            r@ == Map::<Seq<char>, Seq<(Seq<char>, Seq<char>)>>::empty(),
    {
        let r = SessionStore { sessions: Vec::new() };
        assert(r@ =~= Map::<Seq<char>, Seq<(Seq<char>, Seq<char>)>>::empty());
        r
    }

    /// Starts an empty conversation under a fresh random id and returns the id.
    pub fn create(&mut self) -> (id: String)
        requires
            old(self).wf(),
        ensures
            final(self).wf(),
            id@.len() == 36,
            final(self)@ == old(self)@.insert(id@, Seq::<(Seq<char>, Seq<char>)>::empty()),
    {
        let id = new_uuid_v4();
        let session = ChatSession::new();
        insert_entry(&mut self.sessions, id.clone(), session);
        id
    }

    /// The turns of conversation `id`, oldest first; none for an unknown id.
    pub fn history(&self, id: &str) -> (r: Vec<HistoryMessage>)
        requires
            self.wf(),
        ensures
            turns(r@) == if self@.contains_key(id@) {
                self@[id@]
            } else {
                Seq::empty()
            },
    {
        match find_key(&self.sessions, id) {
            Some(i) => self.sessions[i].1.history(),
            None => {
                let r: Vec<HistoryMessage> = Vec::new();
                assert(turns(r@) =~= Seq::<(Seq<char>, Seq<char>)>::empty());
                r
            },
        }
    }

    fn replace_at(&mut self, i: usize, session: ChatSession)
        requires
            old(self).wf(),
            i < old(self).sessions@.len(),
        ensures
            final(self).wf(),
            final(self)@ == old(self)@.insert(old(self).sessions@[i as int].0@, session@),
    {
        let ghost e = self.sessions@;
        let name = self.sessions[i].0.clone();
        let ghost x = (name, session);
        proof {
            assert(key_count(e, e[i as int].0@) <= 1);
            assert forall|q: Seq<char>| #[trigger] key_count(e.update(i as int, x), q) <= 1 by {
                lemma_update_same_key(e, i as int, x, q);
            }
            assert forall|q: Seq<char>| #[trigger]
                lookup(e.update(i as int, x), q) == (if q == e[i as int].0@ {
                    Some(session@)
                } else {
                    lookup(e, q)
                }) by {
                lemma_update_same_key(e, i as int, x, q);
            }
        }
        self.sessions.set(i, (name, session));
        proof {
            assert(self.sessions@ == e.update(i as int, x));
            assert(self@ =~= old(self)@.insert(e[i as int].0@, session@));
        }
    }

    fn take_session(&self, i: usize) -> (r: ChatSession)
        requires
            i < self.sessions@.len(),
        ensures
            r@ == self.sessions@[i as int].1@,
    {
        let h = self.sessions[i].1.history();
        ChatSession { messages: h }
    }

    /// Adds a user turn to conversation `id`; nothing happens for an unknown id.
    pub fn push_user(&mut self, id: &str, content: String)
        requires
            old(self).wf(),
        ensures
            final(self).wf(),
            final(self)@ == update_known(
                old(self)@,
                id@,
                keep_last(old(self)@[id@].push(("user"@, content@)), MAX_HISTORY_TURNS as nat),
            ),
    {
        match find_key(&self.sessions, id) {
            Some(i) => {
                let mut s = self.take_session(i);
                s.push_user(content);
                self.replace_at(i, s);
            },
            None => {},
        }
    }

    /// Adds an assistant turn to conversation `id`; nothing happens for an unknown id.
    pub fn push_assistant(&mut self, id: &str, content: String)
        requires
            old(self).wf(),
        ensures
            final(self).wf(),
            final(self)@ == update_known(
                old(self)@,
                id@,
                keep_last(old(self)@[id@].push(("assistant"@, content@)), MAX_HISTORY_TURNS as nat),
            ),
    {
        match find_key(&self.sessions, id) {
            Some(i) => {
                let mut s = self.take_session(i);
                s.push_assistant(content);
                self.replace_at(i, s);
            },
            None => {},
        }
    }

    /// Forgets the turns of conversation `id`, which stays known.
    pub fn clear(&mut self, id: &str)
        requires
            old(self).wf(),
        ensures
            final(self).wf(),
            final(self)@ == update_known(old(self)@, id@, Seq::empty()),
    {
        match find_key(&self.sessions, id) {
            Some(i) => {
                self.replace_at(i, ChatSession::new());
            },
            None => {},
        }
    }
}

/// A history never exceeds the turn limit after a push.
pub proof fn law_history_is_bounded(s: Seq<(Seq<char>, Seq<char>)>, turn: (Seq<char>, Seq<char>))
    ensures
        keep_last(s.push(turn), MAX_HISTORY_TURNS as nat).len() <= MAX_HISTORY_TURNS,
{
}

/// A pushed turn is always kept, as the newest, and the turns before it
/// are the most recent earlier turns in their order.
pub proof fn law_push_keeps_newest_in_order(s: Seq<(Seq<char>, Seq<char>)>, turn: (Seq<char>, Seq<char>))
    ensures
        keep_last(s.push(turn), MAX_HISTORY_TURNS as nat).last() == turn,
        keep_last(s.push(turn), MAX_HISTORY_TURNS as nat).drop_last() == keep_last(
            s,
            (MAX_HISTORY_TURNS - 1) as nat,
        ),
{
    let t = s.push(turn);
    let n = MAX_HISTORY_TURNS as nat;
    if t.len() > n {
        assert(t.skip(t.len() - n).drop_last() =~= s.skip(s.len() - (n - 1)));
    } else {
        assert(t.drop_last() =~= s);
    }
}

/// Turns sent to an unknown conversation change nothing.
pub proof fn law_unknown_conversation_unchanged(
    m: Map<Seq<char>, Seq<(Seq<char>, Seq<char>)>>,
    id: Seq<char>,
    h: Seq<(Seq<char>, Seq<char>)>,
)
    requires
        !m.contains_key(id),
    ensures
        update_known(m, id, h) == m,
{
}

// ---------------------------------------------------------------------------
// Tools of the assistant
// ---------------------------------------------------------------------------

/// The error a tool reports, as text.
pub struct ToolError(pub String);

impl From<String> for ToolError {
    fn from(s: String) -> (r: ToolError)
        ensures
            r.0 == s,
    {
        ToolError(s)
    }
}

impl vstd::std_specs::convert::FromSpecImpl<String> for ToolError {
    open spec fn obeys_from_spec() -> bool {
        true
    }

    open spec fn from_spec(s: String) -> ToolError {
        ToolError(s)
    }
}

impl<'a> From<&'a str> for ToolError {
    fn from(s: &'a str) -> (r: ToolError)
        ensures
            r.0@ == s@,
    {
        ToolError(String::from_str(s))
    }
}

impl<'a> vstd::std_specs::convert::FromSpecImpl<&'a str> for ToolError {
    open spec fn obeys_from_spec() -> bool {
        false
    }

    open spec fn from_spec(s: &'a str) -> ToolError {
        vstd::pervasive::arbitrary()
    }
}

/// Input of the schema tool: an optional table name.
pub struct SchemaInput {
    pub table_name: Option<String>,
}

/// Output of the schema tool.
pub struct SchemaOutput {
    pub schema: String,
}

pub const MESSAGES_SCHEMA: &'static str = "\nTable: messages\n  id           INTEGER PRIMARY KEY AUTOINCREMENT\n  chat_name    TEXT NOT NULL                     -- 群聊或私聊名称\n  sender       TEXT NOT NULL DEFAULT ''          -- 发送者名称\n  content      TEXT NOT NULL                     -- 原始消息内容（中文/源语言）\n  content_en   TEXT NOT NULL DEFAULT ''          -- 英文翻译内容（可能为空）\n  content_hash TEXT NOT NULL                     -- 内容 MD5 哈希，用于去重\n  detected_at  TEXT NOT NULL                     -- 检测时间，ISO8601 格式，如 '2024-01-15T14:30:00'\n  is_self      INTEGER NOT NULL DEFAULT 0        -- 是否自己发送：1=自己，0=他人\n  image_path   TEXT DEFAULT NULL                 -- 图片消息的本地路径（可为空）\n  source       TEXT NOT NULL DEFAULT 'chat'      -- 来源：'chat' | 'summary'\n  quality      TEXT NOT NULL DEFAULT 'high'      -- 质量：'high' | 'low'\n  chat_type    TEXT DEFAULT NULL                 -- 聊天类型（可为空）\n\nIndexes: idx_chat_time(chat_name, detected_at), idx_sender(sender)\n";

pub const TRANSLATIONS_SCHEMA: &'static str = "\nTable: message_translations\n  id              INTEGER PRIMARY KEY AUTOINCREMENT\n  content_hash    TEXT NOT NULL                  -- 关联 messages.content_hash\n  source_lang     TEXT NOT NULL                  -- 源语言代码，如 'zh', 'ja', 'en'\n  target_lang     TEXT NOT NULL                  -- 目标语言代码，如 'en', 'zh'\n  translated_text TEXT NOT NULL                  -- 翻译结果\n  updated_at      TEXT NOT NULL                  -- 更新时间，ISO8601 格式\n\nIndexes: idx_message_translations_lookup(content_hash, source_lang, target_lang)\n";

/// The schema text for a table: "messages" or "message_translations" give
/// that table, anything else both.
pub open spec fn schema_spec(table: Option<Seq<char>>) -> Seq<char> {
    match table {
        Some(t) => if t == "messages"@ {
            MESSAGES_SCHEMA@
        } else if t == "message_translations"@ {
            TRANSLATIONS_SCHEMA@
        } else {
            MESSAGES_SCHEMA@ + TRANSLATIONS_SCHEMA@
        },
        None => MESSAGES_SCHEMA@ + TRANSLATIONS_SCHEMA@,
    }
}

/// What the schema tool answers.
pub fn schema_for_table(input: &SchemaInput) -> (r: SchemaOutput)
    ensures
        r.schema@ == schema_spec(
            match input.table_name {
                Some(t) => Some(t@),
                None => None,
            },
        ),
{
    let both = String::from_str(MESSAGES_SCHEMA).concat(TRANSLATIONS_SCHEMA);
    let schema = match &input.table_name {
        Some(t) => {
            let v = chars_of(t.as_str());
            if crate::adapter::ax_reader::eq_literal(&v, "messages") {
                String::from_str(MESSAGES_SCHEMA)
            } else if crate::adapter::ax_reader::eq_literal(&v, "message_translations") {
                String::from_str(TRANSLATIONS_SCHEMA)
            } else {
                both
            }
        },
        None => both,
    };
    SchemaOutput { schema }
}

/// Input of the SQL tool.
pub struct SqlInput {
    pub sql: String,
}

/// Most rows the SQL tool returns.
pub const MAX_ROWS: usize = 200;

/// Refusal of a query that is not read-only.
pub const UNSAFE_SQL_ERROR: &'static str = "安全限制：只允许执行 SELECT 或 WITH 开头的只读查询，禁止任何写操作。";

/// The words whose presence makes a query a write.
pub open spec fn has_write_word(upper: Seq<char>) -> bool {
    contains_spec(upper, "INSERT"@) || contains_spec(upper, "UPDATE"@) || contains_spec(upper, "DELETE"@)
        || contains_spec(upper, "DROP"@) || contains_spec(upper, "ALTER"@) || contains_spec(upper, "CREATE"@)
        || contains_spec(upper, "TRUNCATE"@) || contains_spec(upper, "REPLACE"@) || contains_spec(
        upper,
        "ATTACH"@,
    )
}

/// An uppercased query is read-only: it starts with SELECT or WITH and
/// names no writing statement anywhere.
pub open spec fn safe_upper_sql_spec(upper: Seq<char>) -> bool {
    (upper.take(6) == "SELECT"@ && upper.len() >= 6 || upper.take(4) == "WITH"@ && upper.len() >= 4)
        && !has_write_word(upper)
}

fn contains_lit(hay: &Vec<char>, lit: &str) -> (r: bool)
    ensures
        r == contains_spec(hay@, lit@),
{
    contains_chars(hay, &chars_of(lit))
}

fn starts_with_lit(hay: &Vec<char>, lit: &str) -> (r: bool)
    ensures
        r == (lit@.len() <= hay@.len() && hay@.take(lit@.len() as int) == lit@),
{
    starts_with_chars(hay, &chars_of(lit))
}

/// Whether an already trimmed and uppercased query is read-only.
pub fn is_safe_upper_sql(upper: &str) -> (r: bool)
    ensures
        r == safe_upper_sql_spec(upper@),
{
    proof {
        reveal_strlit("SELECT");
        reveal_strlit("WITH");
    }
    let u = chars_of(upper);
    let starts_ok = starts_with_lit(&u, "SELECT") || starts_with_lit(&u, "WITH");
    let no_write = !contains_lit(&u, "INSERT") && !contains_lit(&u, "UPDATE") && !contains_lit(&u, "DELETE")
        && !contains_lit(&u, "DROP") && !contains_lit(&u, "ALTER") && !contains_lit(&u, "CREATE")
        && !contains_lit(&u, "TRUNCATE") && !contains_lit(&u, "REPLACE") && !contains_lit(&u, "ATTACH");
    starts_ok && no_write
}

/// Whether the assistant may run `sql`: the trimmed, uppercased query must
/// be read-only.
pub fn is_safe_sql(sql: &str) -> (r: bool)
    ensures
        r == safe_upper_sql_spec(uppercase_of(trim_spec(sql@))),
{
    let trimmed = string_of(&trim_chars(&chars_of(sql)));
    let upper = to_uppercase(trimmed.as_str());
    is_safe_upper_sql(upper.as_str())
}

/// Whether a result of `row_count` rows was cut at the limit.
pub fn rows_truncated(row_count: usize) -> (r: bool)
    ensures
        r == (row_count >= MAX_ROWS),
{
    row_count >= MAX_ROWS
}

/// Input of the context tool (none).
pub struct ContextInput {}

/// A chat with its message count, as the context tool lists it.
pub struct ChatSummary {
    pub chat_name: String,
    pub message_count: i64,
}

/// What the context tool answers.
pub struct ContextOutput {
    pub total_messages: i64,
    pub chat_count: i64,
    pub earliest_date: Option<String>,
    pub latest_date: Option<String>,
    pub top_chats: Vec<ChatSummary>,
}

/// The context tool's answer from the store's summary.
pub fn context_output(
    total_messages: i64,
    chat_count: i64,
    earliest_date: Option<String>,
    latest_date: Option<String>,
    raw_top: Vec<(String, i64)>,
) -> (r: ContextOutput)
    ensures
        r.total_messages == total_messages,
        r.chat_count == chat_count,
        r.earliest_date == earliest_date,
        r.latest_date == latest_date,
        r.top_chats@.len() == raw_top@.len(),
        forall|i: int|
            0 <= i < raw_top@.len() ==> (#[trigger] r.top_chats@[i]).chat_name == raw_top@[i].0
                && r.top_chats@[i].message_count == raw_top@[i].1,
{
    let mut top: Vec<ChatSummary> = Vec::new();
    let mut i: usize = 0;
    while i < raw_top.len()
        invariant
            i <= raw_top@.len(),
            top@.len() == i,
            forall|k: int|
                0 <= k < i ==> (#[trigger] top@[k]).chat_name == raw_top@[k].0 && top@[k].message_count
                    == raw_top@[k].1,
        decreases raw_top@.len() - i,
    {
        top.push(ChatSummary { chat_name: raw_top[i].0.clone(), message_count: raw_top[i].1 });
        i += 1;
    }
    ContextOutput { total_messages, chat_count, earliest_date, latest_date, top_chats: top }
}

// ---------------------------------------------------------------------------
// A chat request
// ---------------------------------------------------------------------------

/// Model used when none is configured.
pub const DEFAULT_MODEL_ID: &'static str = "gpt-4o";

/// Refusal when no API key is configured.
pub const MISSING_KEY_ERROR: &'static str = "AI API Key 未配置，请在设置中填写";

/// Refusal of a chat request without an API key.
pub fn check_api_key(ai_api_key: &str) -> (r: Result<(), String>)
    ensures
        r is Ok <==> trim_spec(ai_api_key@).len() > 0,
        r matches Err(e) ==> e@ == MISSING_KEY_ERROR@,
{
    if trim_chars(&chars_of(ai_api_key)).len() == 0 {
        return Err(String::from_str(MISSING_KEY_ERROR));
    }
    Ok(())
}

/// The model of a chat request: the configured id, trimmed, or the default.
pub fn chat_model_id(ai_model_id: &str) -> (r: String)
    ensures
        r@ == if trim_spec(ai_model_id@).len() == 0 {
            DEFAULT_MODEL_ID@
        } else {
            trim_spec(ai_model_id@)
        },
{
    let t = trim_chars(&chars_of(ai_model_id));
    if t.len() == 0 {
        String::from_str(DEFAULT_MODEL_ID)
    } else {
        string_of(&t)
    }
}

/// The endpoint override of a chat request: the trimmed base URL, if any.
pub fn chat_base_url(ai_base_url: &str) -> (r: Option<String>)
    ensures
        match r {
            Some(u) => trim_spec(ai_base_url@).len() > 0 && u@ == trim_spec(ai_base_url@),
            None => trim_spec(ai_base_url@).len() == 0,
        },
{
    let t = trim_chars(&chars_of(ai_base_url));
    if t.len() == 0 {
        None
    } else {
        Some(string_of(&t))
    }
}

/// Explanation prefixed to errors of models without tool calling.
pub const NO_TOOL_CALLING_NOTE: &'static str = "当前模型不支持 Function Calling（工具调用）。\nAgent 功能依赖工具调用能力，请在设置中切换到支持该功能的模型，例如 gpt-4o、gpt-4-turbo、gpt-3.5-turbo 等 OpenAI 兼容模型。\n原始错误：";

/// The error text says the model cannot call tools.
pub open spec fn lacks_tool_calling(raw: Seq<char>) -> bool {
    contains_spec(raw, "Function call is not supported"@) || contains_spec(raw, "function_call"@)
        || contains_spec(raw, "tool_use"@) || contains_spec(raw, "tools is not supported"@)
}

/// The error shown for a failed chat: models without tool calling get an
/// explanation before the raw error.
pub fn describe_chat_error(raw: &str) -> (r: String)
    ensures
        r@ == if lacks_tool_calling(raw@) {
            NO_TOOL_CALLING_NOTE@ + raw@
        } else {
            raw@
        },
{
    let v = chars_of(raw);
    if contains_lit(&v, "Function call is not supported") || contains_lit(&v, "function_call")
        || contains_lit(&v, "tool_use") || contains_lit(&v, "tools is not supported") {
        String::from_str(NO_TOOL_CALLING_NOTE).concat(raw)
    } else {
        String::from_str(raw)
    }
}

pub const PREAMBLE: &'static str = "你是微信消息数据分析助手，帮助用户用自然语言查询他们本地存储的微信消息记录。\n\n数据库 Schema（SQLite）：\n  messages(id, chat_name, sender, content, content_en, detected_at,\n           is_self, image_path, source, quality, chat_type)\n  message_translations(id, content_hash, source_lang, target_lang,\n                       translated_text, updated_at)\n\n说明：\n  - detected_at 是 ISO8601 字符串，如 '2024-01-15T14:30:00'，可直接用字符串比较\n  - is_self=1 表示自己发送的消息，0 表示他人发送\n  - chat_name 是群聊或私聊的名称\n  - content 是原文，content_en 是英文翻译（可能为空）\n  - source 字段值为 'chat'（正常消息）或 'summary'（系统摘要）\n\n使用步骤：\n1. 先用 get_context 了解数据库整体规模和活跃群聊\n2. 用 get_schema 确认字段细节\n3. 用 execute_sql 执行 SELECT 查询\n4. 基于结果用中文给出简洁清晰的分析\n\n约束：只能执行只读查询，execute_sql 禁止写操作。";

/// The system prompt of the assistant.
pub fn build_preamble() -> (r: String)
    ensures
        r@ == PREAMBLE@,
{
    String::from_str(PREAMBLE)
}

} // verus!
