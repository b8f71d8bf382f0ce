//! Runtime counters and projections shared by the monitor, the sidebar and
//! the front end: snapshot versions, the sidebar's current chat and refresh
//! version, and the generation that guards translator write-backs.
use vstd::prelude::*;

use crate::monitor_ingest::{short_error_spec, short_error_text};
use crate::text::{chars_of, string_of, trim_chars, trim_spec};

verus! {

/// Version numbers of the settings and runtime snapshots sent to the front
/// end; both start at 1 and only grow.
pub struct SnapshotVersionState {
    settings_version: u64,
    runtime_version: u64,
}

impl SnapshotVersionState {
    pub closed spec fn settings(&self) -> u64 {
        self.settings_version
    }

    pub closed spec fn runtime(&self) -> u64 {
        self.runtime_version
    }

    /// Both versions at 1.
    pub fn new() -> (r: Self)
        ensures
            r.settings() == 1,
            r.runtime() == 1,
    {
        SnapshotVersionState { settings_version: 1, runtime_version: 1 }
    }

    pub fn current_settings(&self) -> (r: u64)
        ensures
            r == self.settings(),
    {
        self.settings_version
    }

    pub fn current_runtime(&self) -> (r: u64)
        ensures
            r == self.runtime(),
    {
        self.runtime_version
    }

    /// Advances the settings version and returns the new one.
    pub fn next_settings(&mut self) -> (r: u64)
        requires
            old(self).settings() < u64::MAX,
        ensures
            r == old(self).settings() + 1,
            final(self).settings() == r,
            final(self).runtime() == old(self).runtime(),
    {
        self.settings_version = self.settings_version + 1;
        self.settings_version
    }

    /// Advances the runtime version and returns the new one.
    pub fn next_runtime(&mut self) -> (r: u64)
        requires
            old(self).runtime() < u64::MAX,
        ensures
            r == old(self).runtime() + 1,
            final(self).runtime() == r,
            final(self).settings() == old(self).settings(),
    {
        self.runtime_version = self.runtime_version + 1;
        self.runtime_version
    }
}

impl Default for SnapshotVersionState {
    fn default() -> (r: Self)
        ensures
            r.settings() == 1,
            r.runtime() == 1,
    {
        SnapshotVersionState::new()
    }
}

/// Which background tasks run.
pub struct TaskState {
    pub monitoring: bool,
    pub sidebar: bool,
}

/// The runtime snapshot sent to the front end: its version, the tasks that
/// run, the translator's status (`T`) and whether closing the window hides
/// it in the tray.
pub struct AppRuntimeState<T> {
    pub version: u64,
    pub tasks: TaskState,
    pub translator: T,
    pub close_to_tray: bool,
}

/// The runtime snapshot at the current runtime version.
pub fn runtime_snapshot<T>(versions: &SnapshotVersionState, tasks: TaskState, translator: T, close_to_tray: bool) -> (r:
    AppRuntimeState<T>)
    ensures
        r.version == versions.runtime(),
        r.tasks == tasks,
        r.translator == translator,
        r.close_to_tray == close_to_tray,
{
    AppRuntimeState { version: versions.current_runtime(), tasks, translator, close_to_tray }
}

/// The sidebar's read model: the chat it shows and a refresh version that
/// grows with every change, so the front end can drop stale snapshots.
pub struct SidebarRuntime {
    current_chat: String,
    refresh_version: u64,
}

impl SidebarRuntime {
    pub closed spec fn chat(&self) -> Seq<char> {
        self.current_chat@
    }

    pub closed spec fn version(&self) -> u64 {
        self.refresh_version
    }

    /// No chat, version 0.
    pub fn new() -> (r: Self)
        ensures
            r.chat() == Seq::<char>::empty(),
            r.version() == 0,
    {
        SidebarRuntime { current_chat: String::new(), refresh_version: 0 }
    }

    pub fn get_current_chat(&self) -> (r: String)
        ensures
            r@ == self.chat(),
    {
        self.current_chat.clone()
    }

    pub fn set_current_chat(&mut self, chat_name: &str)
        ensures
            final(self).chat() == chat_name@,
            final(self).version() == old(self).version(),
    {
        self.current_chat = String::from_str(chat_name);
    }

    pub fn get_refresh_version(&self) -> (r: u64)
        ensures
            r == self.version(),
    {
        self.refresh_version
    }

    /// Marks the read model changed and returns the new version.
    pub fn increment_refresh_version(&mut self) -> (r: u64)
        requires
            old(self).version() < u64::MAX,
        ensures
            r == old(self).version() + 1,
            final(self).version() == r,
            final(self).chat() == old(self).chat(),
    {
        self.refresh_version = self.refresh_version + 1;
        self.refresh_version
    }

    /// Switches to `chat_name` and marks the read model changed.
    pub fn update_chat_and_version(&mut self, chat_name: &str) -> (r: u64)
        requires
            old(self).version() < u64::MAX,
        ensures
            final(self).chat() == chat_name@,
            r == old(self).version() + 1,
            final(self).version() == r,
    {
        self.set_current_chat(chat_name);
        self.increment_refresh_version()
    }

    /// Back to no chat and version 0.
    pub fn clear(&mut self)
        ensures
            final(self).chat() == Seq::<char>::empty(),
            final(self).version() == 0,
    {
        self.current_chat = String::new();
        self.refresh_version = 0;
    }
}

/// The generation of the translator configuration: every reconfiguration
/// starts a new one, and late results of an older generation are dropped.
pub struct TranslatorGeneration {
    value: u64,
}

impl TranslatorGeneration {
    pub closed spec fn current(&self) -> u64 {
        self.value
    }

    /// Generation 0.
    pub fn new() -> (r: Self)
        ensures
            r.current() == 0,
    {
        TranslatorGeneration { value: 0 }
    }
}

/// Starts a new generation and returns it.
pub fn next_translator_generation(generation: &mut TranslatorGeneration) -> (r: u64)
    requires
        old(generation).current() < u64::MAX,
    ensures
        r == old(generation).current() + 1,
        final(generation).current() == r,
{
    generation.value = generation.value + 1;
    generation.value
}

/// The generation now in force.
pub fn current_translator_generation(generation: &TranslatorGeneration) -> (r: u64)
    ensures
        r == generation.current(),
{
    generation.value
}

/// Whether a result computed under `expected` may still be applied.
pub fn is_current_generation(generation: &TranslatorGeneration, expected: u64) -> (r: bool)
    ensures
        r == (generation.current() == expected),
{
    generation.value == expected
}

/// Once a new generation has started (one step of
/// `next_translator_generation`, from `before` to `after`), no result of a
/// generation handed out up to `before` is current any more.
pub proof fn law_stale_generation_refused(before: TranslatorGeneration, after: TranslatorGeneration, expected: u64)
    requires
        expected <= before.current(),
        after.current() == before.current() + 1,
    ensures
        after.current() != expected,
{
}

/// Two successive `next_settings` (or `next_runtime`) calls hand out
/// strictly growing versions, each above the one current before.
pub proof fn law_versions_grow(s0: SnapshotVersionState, s1: SnapshotVersionState, s2: SnapshotVersionState)
    requires
        s1.settings() == s0.settings() + 1,
        s2.settings() == s1.settings() + 1,
    ensures
        s0.settings() < s1.settings() < s2.settings(),
{
}

/// `after` is what one `increment_refresh_version` call on `before` leaves,
/// and `returned` what it hands back.
pub open spec fn refresh_step(before: SidebarRuntime, after: SidebarRuntime, returned: u64) -> bool {
    &&& returned == before.version() + 1
    &&& after.version() == returned
    &&& after.chat() == before.chat()
}

proof fn lemma_refresh_prefix(states: Seq<SidebarRuntime>, returned: Seq<u64>, k: int)
    requires
        states.len() == returned.len() + 1,
        states[0].version() == 0,
        forall|j: int| 0 <= j < returned.len() ==> refresh_step(states[j], states[j + 1], #[trigger] returned[j]),
        0 <= k < states.len(),
    ensures
        states[k].version() == k,
        states[k].chat() == states[0].chat(),
    decreases k,
{
    if k > 0 {
        lemma_refresh_prefix(states, returned, k - 1);
        assert(refresh_step(states[k - 1], states[k], returned[k - 1]));
    }
}

/// From a sidebar at version 0 (as `SidebarRuntime::new` makes it), `n`
/// successive calls of `increment_refresh_version` (`states[k]` before call
/// `k + 1`, `returned[k]` its result) return 1, 2, ..., n, leave the version
/// at n and the chat as it was.
pub proof fn law_refresh_versions_count(states: Seq<SidebarRuntime>, returned: Seq<u64>)
    requires
        states.len() == returned.len() + 1,
        states[0].version() == 0,
        forall|j: int| 0 <= j < returned.len() ==> refresh_step(states[j], states[j + 1], #[trigger] returned[j]),
    ensures
        forall|k: int| 0 <= k < returned.len() ==> #[trigger] returned[k] == k + 1,
        states.last().version() == returned.len(),
        states.last().chat() == states[0].chat(),
{
    assert forall|k: int| 0 <= k < returned.len() implies #[trigger] returned[k] == k + 1 by {
        lemma_refresh_prefix(states, returned, k);
        assert(refresh_step(states[k], states[k + 1], returned[k]));
    }
    lemma_refresh_prefix(states, returned, states.len() - 1);
}

/// The chat the sidebar shows: the chat of the runtime projection, else the
/// trimmed chat the front end asked for; `None` leaves the choice to the
/// chat of the latest stored message.
pub fn resolve_selected_chat(runtime_chat: &str, chat_name: &Option<String>) -> (r: Option<String>)
    ensures
        runtime_chat@.len() > 0 ==> (r matches Some(c) && c@ == runtime_chat@),
        runtime_chat@.len() == 0 ==> match chat_name {
            Some(n) => if trim_spec(n@).len() > 0 {
                r matches Some(c) && c@ == trim_spec(n@)
            } else {
                r is None
            },
            None => r is None,
        },
{
    if !runtime_chat.is_empty() {
        return Some(String::from_str(runtime_chat));
    }
    match chat_name {
        Some(n) => {
            let t = trim_chars(&chars_of(n.as_str()));
            if t.len() > 0 {
                Some(string_of(&t))
            } else {
                None
            }
        },
        None => None,
    }
}

// ---------------------------------------------------------------------------
// Writing a sidebar translation back
// ---------------------------------------------------------------------------

/// What the translation of a sidebar message came to.
pub enum TranslationOutcome {
    /// A translation of the same text and language pair was cached.
    Cached(String),
    /// Nothing cached: the translator has to be asked.
    Missing,
    /// The translator answered.
    Translated(String),
    /// The translator failed with this error.
    Failed(String),
}

/// What to do once the translation of a sidebar message is known.
pub struct TranslationWriteBack {
    /// The English text to show (empty on failure).
    pub text_en: String,
    /// The error to show (empty on success).
    pub translate_error: String,
    /// Store the translation in the translation cache.
    pub store_in_cache: bool,
    /// Write the translation into the stored message.
    pub update_message: bool,
    /// Bump the sidebar's refresh version and invalidate its snapshot.
    pub refresh_sidebar: bool,
    /// Report the provider healthy (`Some(true)`) or failing (`Some(false)`),
    /// if the translator generation is still current.
    pub provider_healthy: Option<bool>,
}

/// The write-back of a sidebar translation: a cached translation is written
/// to the message and shown; a fresh one is also cached and marks the
/// provider healthy; a failure shows the shortened error, marks the
/// provider failing and leaves the message untouched.  `None` when the
/// translator still has to be asked.
pub fn plan_translation_write_back(outcome: TranslationOutcome) -> (r: Option<TranslationWriteBack>)
    ensures
        match outcome {
            TranslationOutcome::Missing => r is None,
            TranslationOutcome::Cached(t) => r matches Some(w) && w.text_en == t && w.translate_error@.len() == 0
                && !w.store_in_cache && w.update_message && w.refresh_sidebar && w.provider_healthy is None,
            TranslationOutcome::Translated(t) => r matches Some(w) && w.text_en == t && w.translate_error@.len() == 0
                && w.store_in_cache && w.update_message && w.refresh_sidebar && w.provider_healthy == Some(true),
            TranslationOutcome::Failed(e) => r matches Some(w) && w.text_en@.len() == 0 && w.translate_error@
                == short_error_spec(e@) && !w.store_in_cache && !w.update_message && !w.refresh_sidebar
                && w.provider_healthy == Some(false),
        },
{
    match outcome {
        TranslationOutcome::Missing => None,
        TranslationOutcome::Cached(t) => Some(
            TranslationWriteBack {
                text_en: t,
                translate_error: String::new(),
                store_in_cache: false,
                update_message: true,
                refresh_sidebar: true,
                provider_healthy: None,
            },
        ),
        TranslationOutcome::Translated(t) => Some(
            TranslationWriteBack {
                text_en: t,
                translate_error: String::new(),
                store_in_cache: true,
                update_message: true,
                refresh_sidebar: true,
                provider_healthy: Some(true),
            },
        ),
        TranslationOutcome::Failed(e) => {
            let shown = short_error_text(e.as_str());
            Some(
                TranslationWriteBack {
                    text_en: String::new(),
                    translate_error: shown,
                    store_in_cache: false,
                    update_message: false,
                    refresh_sidebar: false,
                    provider_healthy: Some(false),
                },
            )
        },
    }
}

} // verus!
