//! Verified rules of a WeChat desktop listener: reading chats and session
//! previews from the accessibility tree, telling which messages of a poll
//! are new and who sent them, deduplicating and correcting stored messages,
//! the chat assistant's bookkeeping, and the runtime counters shared with
//! the front end.  Talking to the operating system, SQLite and the network is
//! left to the host.
use vstd::prelude::*;

pub mod adapter;
pub mod audio;
pub mod avatar;
pub mod bindings;
pub mod chat_agent;
pub mod debug_text;
pub mod history;
pub mod keyed;
pub mod monitor_ingest;
pub mod preflight;
pub mod runtime;
pub mod settings;
pub mod store;
pub mod text;

verus! {

} // verus!
