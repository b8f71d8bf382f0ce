//! The accessibility-permission request: whether the app was trusted
//! already, and whether asking the user was attempted and succeeded.
use vstd::prelude::*;

verus! {

/// Outcome of asking for the accessibility permission.
pub struct AccessibilityRequestResult {
    pub trusted_before: bool,
    pub prompt_attempted: bool,
    pub trusted_after_check: bool,
    pub settings_opened: bool,
}

/// Asks for the permission only when the app is not trusted yet: an
/// already trusted app is reported trusted without prompting; otherwise the
/// prompt is shown and the answer of the check that follows is reported.
/// The settings pane is never opened here.
pub fn build_accessibility_request_result<F, G>(
    trusted_before: bool,
    request_with_prompt: F,
    check_after: G,
) -> (r: AccessibilityRequestResult) where F: FnOnce() -> bool, G: FnOnce() -> bool
    requires
        !trusted_before ==> call_requires(request_with_prompt, ()),
        !trusted_before ==> call_requires(check_after, ()),
    ensures
        r.trusted_before == trusted_before,
        r.prompt_attempted == !trusted_before,
        trusted_before ==> r.trusted_after_check,
        !trusted_before ==> call_ensures(check_after, (), r.trusted_after_check),
        !r.settings_opened,
{
    if trusted_before {
        return AccessibilityRequestResult {
            trusted_before: true,
            prompt_attempted: false,
            trusted_after_check: true,
            settings_opened: false,
        };
    }
    let _ = request_with_prompt();
    let trusted_after_check = check_after();
    AccessibilityRequestResult {
        trusted_before: false,
        prompt_attempted: true,
        trusted_after_check,
        settings_opened: false,
    }
}

} // verus!
