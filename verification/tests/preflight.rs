use wechat_pc_auto::preflight::build_accessibility_request_result;

#[test]
fn request_result_should_skip_prompt_if_already_trusted() {
    let result = build_accessibility_request_result(true, || false, || false);
    assert!(result.trusted_before);
    assert!(!result.prompt_attempted);
    assert!(result.trusted_after_check);
    assert!(!result.settings_opened);
}

#[test]
fn request_result_should_attempt_prompt_when_untrusted() {
    let result = build_accessibility_request_result(false, || false, || false);
    assert!(!result.trusted_before);
    assert!(result.prompt_attempted);
    assert!(!result.trusted_after_check);
    assert!(!result.settings_opened);
}

#[test]
fn request_result_reports_the_check_after_the_prompt() {
    let mut prompted = false;
    let result = build_accessibility_request_result(
        false,
        || {
            prompted = true;
            false
        },
        || true,
    );
    assert!(prompted);
    assert!(result.trusted_after_check);
}
