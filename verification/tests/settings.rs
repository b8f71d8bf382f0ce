use wechat_pc_auto::settings::{
    build_provider_config, default_deeplx_url, default_dict_provider, default_log_file,
    default_max_concurrency, default_max_requests_per_second, default_mode,
    default_on_translate_fail, default_provider, default_side, default_source_lang,
    default_target_lang, default_true, default_width, normalize_legacy_endpoint,
    validate_limits_and_display, validate_listen_mode, DictConfig, DisplayConfig, LoggingConfig,
    TranslateProviderConfig,
};

#[test]
fn defaults_match_the_shipped_settings() {
    assert_eq!(default_mode(), "session");
    assert!(default_true());
    assert_eq!(default_provider(), "deeplx");
    assert_eq!(default_deeplx_url(), "");
    assert_eq!(default_source_lang(), "auto");
    assert_eq!(default_target_lang(), "EN");
    assert_eq!(default_max_concurrency(), 3);
    assert_eq!(default_max_requests_per_second(), 3);
    assert_eq!(default_on_translate_fail(), "show_cn_with_reason");
    assert_eq!(default_width(), 420);
    assert_eq!(default_side(), "right");
    assert_eq!(default_log_file(), "logs/sidebar_listener.log");
    assert_eq!(default_dict_provider(), "cambridge");
    let d = DisplayConfig::default();
    assert!(d.english_only);
    assert_eq!(d.width, 420);
    assert_eq!(LoggingConfig::default().file, "logs/sidebar_listener.log");
    assert_eq!(DictConfig::default().provider, "cambridge");
}

#[test]
fn legacy_endpoint_fields_are_folded_in() {
    assert_eq!(normalize_legacy_endpoint("", " https://api.deeplx.org/// ", " tok "), "https://api.deeplx.org/tok/translate");
    assert_eq!(normalize_legacy_endpoint("  ", "https://h", ""), "https://h/translate");
    assert_eq!(normalize_legacy_endpoint("https://kept", "https://h", "t"), "https://kept");
    assert_eq!(normalize_legacy_endpoint(" ", "", "t"), " ");
}

#[test]
fn listen_mode_must_be_session() {
    assert_eq!(validate_listen_mode("session"), None);
    assert_eq!(
        validate_listen_mode("chat"),
        Some("listen.mode 只允许 \"session\"，当前值: \"chat\"".to_string())
    );
}

#[test]
fn limits_and_display_are_checked_in_order() {
    let ok = DisplayConfig::default();
    assert!(validate_limits_and_display(3, 3, &ok).is_empty());
    let bad = DisplayConfig {
        english_only: true,
        on_translate_fail: "show".to_string(),
        width: 100,
        side: "top".to_string(),
    };
    assert_eq!(
        validate_limits_and_display(0, 0, &bad),
        vec![
            "translate.max_concurrency 必须大于 0".to_string(),
            "translate.max_requests_per_second 必须大于 0".to_string(),
            "display.width 须在 200–1200 之间，当前值: 100".to_string(),
            "display.side 只允许 \"left\" 或 \"right\"，当前值: \"top\"".to_string(),
            "display.on_translate_fail 只允许 \"show_cn_with_reason\" 或 \"hide\"，当前值: \"show\"".to_string(),
        ]
    );
    let wide = DisplayConfig { width: 1201, ..DisplayConfig::default() };
    assert_eq!(
        validate_limits_and_display(1, 1, &wide),
        vec!["display.width 须在 200–1200 之间，当前值: 1201".to_string()]
    );
    let edge = DisplayConfig { width: 1200, side: "left".to_string(), on_translate_fail: "hide".to_string(), ..DisplayConfig::default() };
    assert!(validate_limits_and_display(1, 1, &edge).is_empty());
}

#[test]
fn provider_is_chosen_by_name() {
    match build_provider_config("ai", "u".into(), "p".into(), "m".into(), "k".into(), "".into()) {
        TranslateProviderConfig::Ai { provider_id, model_id, api_key, base_url } => {
            assert_eq!((provider_id.as_str(), model_id.as_str(), api_key.as_str()), ("p", "m", "k"));
            assert_eq!(base_url, None);
        }
        _ => panic!("expected the AI provider"),
    }
    match build_provider_config("ai", "u".into(), "p".into(), "m".into(), "k".into(), "https://b".into()) {
        TranslateProviderConfig::Ai { base_url, .. } => assert_eq!(base_url.as_deref(), Some("https://b")),
        _ => panic!("expected the AI provider"),
    }
    match build_provider_config("deeplx", "u".into(), "p".into(), "m".into(), "k".into(), "".into()) {
        TranslateProviderConfig::Deeplx { url } => assert_eq!(url, "u"),
        _ => panic!("expected DeepLX"),
    }
}
