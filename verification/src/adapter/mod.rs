//! The WeChat desktop adapter: what is read from the app's accessibility
//! tree, and the scripts that drive its window.
use vstd::prelude::*;

pub mod applescript;
pub mod ax_reader;

use self::ax_reader::{
    active_chat_name_spec, ascii_digits_of, bubble_texts, current_sessions_spec,
    fallback_sessions_spec, last_message_index, opt_view, parse_u32_spec, popup_spec,
    preview_for_chat_spec, snapshots_spec, hinted_side, probed_side, ChatMessage, HitProbe, SessionItemSnapshot, SessionListItem,
    WindowInfo,
};

verus! {

/// Why the adapter cannot work on this machine.
pub open spec fn unsupported_reason() -> Seq<char> {
    "当前不是 macOS 环境"@
}

/// The adapter's answer when the platform is not supported.
pub open spec fn refusal<T>(supported: bool, r: Result<T, String>) -> bool {
    !supported ==> (r matches Err(e) && e@ == unsupported_reason())
}

/// The latest message: from the message bubbles, else from every static
/// text of the window, else empty.
pub open spec fn latest_message_spec(bubbles: Seq<Seq<char>>, statics: Seq<Seq<char>>) -> Seq<char> {
    match last_message_index(bubbles, bubbles.len() as int) {
        Some(j) => bubbles[j],
        None => match last_message_index(statics, statics.len() as int) {
            Some(j) => statics[j],
            None => Seq::empty(),
        },
    }
}

proof fn lemma_last_message_index_bound(texts: Seq<Seq<char>>, n: int)
    ensures
        last_message_index(texts, n) matches Some(j) ==> 0 <= j < n && j < texts.len(),
    decreases n,
{
    if n > 0 && n <= texts.len() {
        lemma_last_message_index_bound(texts, n - 1);
    }
}

/// Reads WeChat's state on macOS; every reading is refused elsewhere.
pub struct MacOSAdapter {
    ui_paused: bool,
    supported: bool,
}

impl MacOSAdapter {
    /// Whether the platform is macOS.
    pub closed spec fn platform_supported(&self) -> bool {
        self.supported
    }

    /// Whether reading the UI is paused.
    pub closed spec fn paused(&self) -> bool {
        self.ui_paused
    }

    /// Nothing ever pauses the reading of the UI.
    #[verifier::type_invariant]
    spec fn never_paused(&self) -> bool {
        !self.ui_paused
    }

    /// An adapter that is not paused; `supported` says whether this is macOS.
    pub fn new(supported: bool) -> (r: Self)
        ensures
            r.platform_supported() == supported,
            !r.paused(),
    {
        MacOSAdapter { ui_paused: false, supported }
    }

    /// Whether reading the UI is paused: never.
    pub fn is_ui_paused(&self) -> (r: bool)
        ensures
            r == self.paused(),
            !r,
    {
        proof {
            use_type_invariant(self);
        }
        self.ui_paused
    }

    pub fn is_supported(&self) -> (r: bool)
        ensures
            r == self.platform_supported(),
    {
        self.supported
    }

    /// "ok" on macOS, the reason of refusal elsewhere.
    pub fn support_reason(&self) -> (r: String)
        ensures
            r@ == if self.platform_supported() {
                "ok"@
            } else {
                unsupported_reason()
            },
    {
        if self.is_supported() {
            String::from_str("ok")
        } else {
            String::from_str("当前不是 macOS 环境")
        }
    }

    /// `Ok` on macOS, the reason of refusal elsewhere.
    pub fn ensure_supported(&self) -> (r: Result<(), String>)
        ensures
            r is Ok <==> self.platform_supported(),
            refusal(self.platform_supported(), r),
    {
        if !self.is_supported() {
            return Err(self.support_reason());
        }
        Ok(())
    }

    /// The chats of the session list: from the identifiers of its entries
    /// when the list was found, else from every static text of the window.
    pub fn get_current_sessions(&self, session_ids: &Option<Vec<String>>, static_texts: &Vec<String>) -> (r:
        Result<Vec<String>, String>)
        ensures
            refusal(self.platform_supported(), r),
            r matches Ok(v) ==> self.platform_supported() && v@.map_values(|s: String| s@) == match session_ids {
                Some(ids) => current_sessions_spec(ids@.map_values(|s: String| s@)),
                None => fallback_sessions_spec(
                    static_texts@.map_values(|s: String| s@),
                    static_texts@.len() as int,
                ),
            },
            self.platform_supported() ==> r is Ok,
    {
        self.ensure_supported()?;
        match session_ids {
            Some(ids) => Ok(ax_reader::get_current_sessions(ids)),
            None => Ok(ax_reader::get_current_sessions_fallback(static_texts)),
        }
    }

    /// The latest message of the active chat, from the chat list's children
    /// (identifier, title), falling back on every static text of the window.
    pub fn read_latest_message(&self, children: &Vec<(String, Option<String>)>, static_texts: &Vec<String>) -> (r:
        Result<String, String>)
        ensures
            refusal(self.platform_supported(), r),
            r matches Ok(s) ==> self.platform_supported() && s@ == latest_message_spec(
                bubble_texts(children@),
                static_texts@.map_values(|s: String| s@),
            ),
            self.platform_supported() ==> r is Ok,
    {
        self.ensure_supported()?;
        let bubbles = ax_reader::read_chat_messages(children);
        let ghost bt = bubbles@.map_values(|s: String| s@);
        let ghost st = static_texts@.map_values(|s: String| s@);
        proof {
            lemma_last_message_index_bound(bt, bt.len() as int);
            lemma_last_message_index_bound(st, st.len() as int);
            if let Some(j) = last_message_index(bt, bt.len() as int) {
                assert(bt[j] == bubbles@[j]@);
            }
            if let Some(j) = last_message_index(st, st.len() as int) {
                assert(st[j] == static_texts@[j]@);
            }
        }
        match ax_reader::read_latest_message(&bubbles) {
            Some(t) => Ok(t),
            None => match ax_reader::read_latest_message(static_texts) {
                Some(t) => Ok(t),
                None => Ok(String::new()),
            },
        }
    }

    /// The active chat's name, from the header labels and the window title.
    pub fn read_active_chat_name(
        &self,
        name_label: &Option<String>,
        title_label: &Option<String>,
        window_title: &Option<String>,
    ) -> (r: Result<String, String>)
        ensures
            refusal(self.platform_supported(), r),
            r matches Ok(s) ==> self.platform_supported() && s@ == active_chat_name_spec(
                opt_view(*name_label),
                opt_view(*title_label),
                opt_view(*window_title),
            ),
            self.platform_supported() ==> r is Ok,
    {
        self.ensure_supported()?;
        Ok(ax_reader::read_active_chat_name(name_label, title_label, window_title))
    }

    /// The active chat's member count, from the count label.
    pub fn read_active_chat_member_count(&self, count_label: &Option<String>) -> (r: Result<Option<u32>, String>)
        ensures
            refusal(self.platform_supported(), r),
            r matches Ok(n) ==> self.platform_supported() && n == match opt_view(*count_label) {
                Some(v) => parse_u32_spec(ascii_digits_of(v)),
                None => None,
            },
            self.platform_supported() ==> r is Ok,
    {
        self.ensure_supported()?;
        Ok(ax_reader::read_active_chat_member_count(count_label))
    }

    /// The messages of the active chat, from the chat list's children
    /// (identifier, title): one per bubble with a non-empty cleaned title,
    /// in list order, without sender and not marked as the user's own; then
    /// `side_hints[i]` (the side of message `i` by its geometry, given only
    /// when a reference centre was found) sets each side hint, and the hit
    /// probes `probes[i]` decide the side of the messages still without one.
    pub fn read_chat_messages_rich(
        &self,
        children: &Vec<(String, Option<String>)>,
        side_hints: &Vec<Option<bool>>,
        probes: &Vec<Option<(HitProbe, HitProbe)>>,
    ) -> (r: Result<Vec<ChatMessage>, String>)
        ensures
            refusal(self.platform_supported(), r),
            self.platform_supported() ==> r is Ok,
            r matches Ok(v) ==> {
                &&& self.platform_supported()
                &&& v@.len() == bubble_texts(children@).len()
                &&& forall|i: int|
                    0 <= i < v@.len() ==> {
                        &&& (#[trigger] v@[i]).content@ == bubble_texts(children@)[i]
                        &&& v@[i].sender@.len() == 0
                        &&& !v@[i].is_self
                        &&& v@[i].side_hint == probed_side(
                            hinted_side(side_hints@, i),
                            bubble_texts(children@)[i],
                            probes@,
                            i,
                        )
                    }
            },
    {
        self.ensure_supported()?;
        let mut messages = ax_reader::chat_messages_from_bubbles(children);
        ax_reader::apply_side_hints(&mut messages, side_hints);
        ax_reader::fill_side_hints_from_probes(&mut messages, probes);
        Ok(messages)
    }

    /// One snapshot per session of the list.
    pub fn read_session_snapshots(&self, items: &Vec<SessionListItem>) -> (r: Result<Vec<SessionItemSnapshot>, String>)
        ensures
            refusal(self.platform_supported(), r),
            r matches Ok(v) ==> self.platform_supported() && v@.map_values(|x: SessionItemSnapshot| x@)
                == snapshots_spec(items@, items@.len() as int),
            self.platform_supported() ==> r is Ok,
    {
        self.ensure_supported()?;
        Ok(ax_reader::read_session_snapshots(items))
    }

    /// The preview of `chat_name`'s entry in the session list.
    pub fn read_session_preview_for_chat(&self, chat_name: &str, items: &Vec<SessionListItem>) -> (r: Result<
        Option<String>,
        String,
    >)
        ensures
            refusal(self.platform_supported(), r),
            r matches Ok(p) ==> self.platform_supported() && opt_view(p) == preview_for_chat_spec(chat_name@, items@),
            self.platform_supported() ==> r is Ok,
    {
        self.ensure_supported()?;
        Ok(ax_reader::read_session_preview_for_chat(chat_name, items))
    }

    /// A popup or menu is showing; never on an unsupported platform.
    pub fn has_popup_or_menu(&self, windows: &Vec<WindowInfo>, child_roles: &Vec<Option<String>>) -> (r: bool)
        ensures
            r == (self.platform_supported() && popup_spec(windows@, child_roles@)),
    {
        self.is_supported() && ax_reader::has_popup_or_menu(windows, child_roles)
    }
}

} // verus!
