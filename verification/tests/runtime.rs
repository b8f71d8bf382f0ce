use wechat_pc_auto::runtime::{
    current_translator_generation, is_current_generation, next_translator_generation,
    plan_translation_write_back, resolve_selected_chat, runtime_snapshot, AppRuntimeState, SidebarRuntime,
    SnapshotVersionState,
    TaskState, TranslationOutcome, TranslatorGeneration,
};

#[test]
fn snapshot_versions_start_at_one_and_grow() {
    let mut v = SnapshotVersionState::default();
    assert_eq!(v.current_settings(), 1);
    assert_eq!(v.current_runtime(), 1);
    assert_eq!(v.next_settings(), 2);
    assert_eq!(v.next_settings(), 3);
    assert_eq!(v.current_settings(), 3);
    assert_eq!(v.current_runtime(), 1);
    assert_eq!(v.next_runtime(), 2);
}

#[test]
fn sidebar_runtime_tracks_chat_and_version() {
    let mut s = SidebarRuntime::new();
    assert_eq!(s.get_current_chat(), "");
    assert_eq!(s.get_refresh_version(), 0);
    assert_eq!(s.update_chat_and_version("群"), 1);
    assert_eq!(s.get_current_chat(), "群");
    assert_eq!(s.increment_refresh_version(), 2);
    s.set_current_chat("私聊");
    assert_eq!(s.get_refresh_version(), 2);
    s.clear();
    assert_eq!(s.get_current_chat(), "");
    assert_eq!(s.get_refresh_version(), 0);
}

#[test]
fn stale_translator_generations_are_refused() {
    let mut g = TranslatorGeneration::new();
    let first = next_translator_generation(&mut g);
    assert!(is_current_generation(&g, first));
    let second = next_translator_generation(&mut g);
    assert_eq!(current_translator_generation(&g), second);
    assert!(!is_current_generation(&g, first));
}

#[test]
fn task_state_is_plain() {
    let t = TaskState { monitoring: true, sidebar: false };
    assert!(t.monitoring && !t.sidebar);
}

#[test]
fn selected_chat_prefers_runtime_then_request() {
    assert_eq!(resolve_selected_chat("群", &Some("别的".to_string())), Some("群".to_string()));
    assert_eq!(resolve_selected_chat("", &Some(" 别的 ".to_string())), Some("别的".to_string()));
    assert_eq!(resolve_selected_chat("", &Some("  ".to_string())), None);
    assert_eq!(resolve_selected_chat("", &None), None);
}

#[test]
fn translation_write_back_plans() {
    assert!(plan_translation_write_back(TranslationOutcome::Missing).is_none());
    let cached = plan_translation_write_back(TranslationOutcome::Cached("Hello".to_string())).unwrap();
    assert_eq!(cached.text_en, "Hello");
    assert!(!cached.store_in_cache && cached.update_message && cached.refresh_sidebar);
    assert_eq!(cached.provider_healthy, None);
    let fresh = plan_translation_write_back(TranslationOutcome::Translated("Hi".to_string())).unwrap();
    assert!(fresh.store_in_cache && fresh.update_message && fresh.refresh_sidebar);
    assert_eq!(fresh.provider_healthy, Some(true));
    let failed = plan_translation_write_back(TranslationOutcome::Failed("e".repeat(130))).unwrap();
    assert_eq!(failed.text_en, "");
    assert_eq!(failed.translate_error, format!("{}...", "e".repeat(120)));
    assert!(!failed.update_message && !failed.refresh_sidebar);
    assert_eq!(failed.provider_healthy, Some(false));
}

#[test]
fn refresh_versions_count_the_increments() {
    let mut r = SidebarRuntime::new();
    r.set_current_chat("群");
    for k in 1..=5u64 {
        assert_eq!(r.increment_refresh_version(), k);
    }
    assert_eq!(r.get_refresh_version(), 5);
    assert_eq!(r.get_current_chat(), "群");
}

#[test]
fn runtime_snapshot_takes_the_current_runtime_version() {
    let mut versions = SnapshotVersionState::new();
    versions.next_runtime();
    let snap: AppRuntimeState<&str> =
        runtime_snapshot(&versions, TaskState { monitoring: true, sidebar: false }, "disabled", true);
    assert_eq!(snap.version, 2);
    assert!(snap.tasks.monitoring);
    assert!(!snap.tasks.sidebar);
    assert_eq!(snap.translator, "disabled");
    assert!(snap.close_to_tray);
}
