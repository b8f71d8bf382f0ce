//! The settings rules that do not involve fractional seconds: the default
//! display, logging and dictionary sections, the repair of the old DeepLX
//! endpoint fields, the checks of the textual and integral settings, and the
//! translation provider chosen from them.
use vstd::prelude::*;

use crate::adapter::ax_reader::eq_literal;
use crate::text::{chars_of, string_of, trim_chars, trim_spec};

verus! {

#[verifier::external_type_specification]
#[verifier::external_body]
pub struct ExPathBuf(std::path::PathBuf);

/// The directory under which the settings file lives.
pub struct ConfigDir(pub std::path::PathBuf);

// ---------------------------------------------------------------------------
// Defaults
// ---------------------------------------------------------------------------

pub fn default_mode() -> (r: String)
    ensures
        r@ == "session"@,
{
    String::from_str("session")
}

pub fn default_true() -> (r: bool)
    ensures
        r,
{
    true
}

pub fn default_provider() -> (r: String)
    ensures
        r@ == "deeplx"@,
{
    String::from_str("deeplx")
}

pub fn default_deeplx_url() -> (r: String)
    ensures
        r@ == ""@,
{
    String::from_str("")
}

pub fn default_source_lang() -> (r: String)
    ensures
        r@ == "auto"@,
{
    String::from_str("auto")
}

pub fn default_target_lang() -> (r: String)
    ensures
        r@ == "EN"@,
{
    String::from_str("EN")
}

pub fn default_max_concurrency() -> (r: usize)
    ensures
        r == 3,
{
    3
}

pub fn default_max_requests_per_second() -> (r: usize)
    ensures
        r == 3,
{
    3
}

pub fn default_on_translate_fail() -> (r: String)
    ensures
        r@ == "show_cn_with_reason"@,
{
    String::from_str("show_cn_with_reason")
}

pub fn default_width() -> (r: u32)
    ensures
        r == 420,
{
    420
}

pub fn default_side() -> (r: String)
    ensures
        r@ == "right"@,
{
    String::from_str("right")
}

pub fn default_log_file() -> (r: String)
    ensures
        r@ == "logs/sidebar_listener.log"@,
{
    String::from_str("logs/sidebar_listener.log")
}

pub fn default_dict_provider() -> (r: String)
    ensures
        r@ == "cambridge"@,
{
    String::from_str("cambridge")
}

/// How the sidebar shows messages.
pub struct DisplayConfig {
    pub english_only: bool,
    pub on_translate_fail: String,
    pub width: u32,
    pub side: String,
}

impl Default for DisplayConfig {
    fn default() -> (r: Self)
        ensures
            r.english_only,
            r.on_translate_fail@ == "show_cn_with_reason"@,
            r.width == 420,
            r.side@ == "right"@,
    {
        DisplayConfig {
            english_only: default_true(),
            on_translate_fail: default_on_translate_fail(),
            width: default_width(),
            side: default_side(),
        }
    }
}

/// Where the log goes.
pub struct LoggingConfig {
    pub file: String,
}

impl Default for LoggingConfig {
    fn default() -> (r: Self)
        ensures
            r.file@ == "logs/sidebar_listener.log"@,
    {
        LoggingConfig { file: default_log_file() }
    }
}

/// Which dictionary answers word lookups ("cambridge" or "free_dictionary").
pub struct DictConfig {
    pub provider: String,
}

impl Default for DictConfig {
    fn default() -> (r: Self)
        ensures
            r.provider@ == "cambridge"@,
    {
        DictConfig { provider: default_dict_provider() }
    }
}

// ---------------------------------------------------------------------------
// The old DeepLX endpoint fields
// ---------------------------------------------------------------------------

/// `s` without trailing '/' characters.
pub open spec fn strip_trailing_slashes(s: Seq<char>) -> Seq<char>
    decreases s.len(),
{
    if s.len() > 0 && s.last() == '/' {
        strip_trailing_slashes(s.drop_last())
    } else {
        s
    }
}

/// The endpoint once the old base-URL and token fields are folded in: a
/// blank endpoint becomes "base/translate", or "base/token/translate" with a
/// token, when a base is given; otherwise the endpoint stays as it was.
pub open spec fn legacy_endpoint_spec(url: Seq<char>, base_url: Seq<char>, token: Seq<char>) -> Seq<char> {
    let base = strip_trailing_slashes(trim_spec(base_url));
    let t = trim_spec(token);
    if trim_spec(url).len() == 0 && base.len() > 0 {
        if t.len() == 0 {
            base + "/translate"@
        } else {
            base + "/"@ + t + "/translate"@
        }
    } else {
        url
    }
}

/// The DeepLX endpoint after folding in the old base-URL and token fields
/// (which are then dropped from the settings).
pub fn normalize_legacy_endpoint(deeplx_url: &str, deeplx_base_url: &str, deeplx_access_token: &str) -> (r:
    String)
    ensures
        r@ == legacy_endpoint_spec(deeplx_url@, deeplx_base_url@, deeplx_access_token@),
{
    if trim_chars(&chars_of(deeplx_url)).len() == 0 {
        let mut base = trim_chars(&chars_of(deeplx_base_url));
        let ghost b0 = base@;
        while base.len() > 0 && base[base.len() - 1] == '/'
            invariant
                strip_trailing_slashes(base@) == strip_trailing_slashes(b0),
            decreases base@.len(),
        {
            let ghost before = base@;
            base.pop();
            assert(base@ == before.drop_last());
        }
        let token = trim_chars(&chars_of(deeplx_access_token));
        if base.len() > 0 {
            let b = string_of(&base);
            if token.len() == 0 {
                return b.concat("/translate");
            } else {
                let t = string_of(&token);
                return b.concat("/").concat(t.as_str()).concat("/translate");
            }
        }
    }
    String::from_str(deeplx_url)
}

// ---------------------------------------------------------------------------
// Checks
// ---------------------------------------------------------------------------

/// The decimal digits of `n`.
pub open spec fn decimal_of(n: nat) -> Seq<char>
    decreases n,
{
    if n < 10 {
        seq![(48 + n) as char]
    } else {
        decimal_of(n / 10).push((48 + n % 10) as char)
    }
}

fn push_decimal(out: &mut Vec<char>, n: u32)
    ensures
        final(out)@ == old(out)@ + decimal_of(n as nat),
    decreases n,
{
    if n >= 10 {
        push_decimal(out, n / 10);
    }
    let d: u8 = (n % 10) as u8;
    out.push((48u8 + d) as char);
    proof {
        assert(final(out)@ =~= old(out)@ + decimal_of(n as nat)) by {
            if n >= 10 {
                assert(decimal_of(n as nat) == decimal_of((n / 10) as nat).push((48 + n % 10) as char));
            }
        }
    }
}

pub const MODE_ERROR_HEAD: &'static str = "listen.mode 只允许 \"session\"，当前值: \"";

pub const QUOTE_END: &'static str = "\"";

pub const CONCURRENCY_ERROR: &'static str = "translate.max_concurrency 必须大于 0";

pub const RATE_ERROR: &'static str = "translate.max_requests_per_second 必须大于 0";

pub const WIDTH_ERROR_HEAD: &'static str = "display.width 须在 200–1200 之间，当前值: ";

pub const SIDE_ERROR_HEAD: &'static str = "display.side 只允许 \"left\" 或 \"right\"，当前值: \"";

pub const FAIL_MODE_ERROR_HEAD: &'static str = "display.on_translate_fail 只允许 \"show_cn_with_reason\" 或 \"hide\"，当前值: \"";

/// The complaint about the listening mode, which must be "session".
pub fn validate_listen_mode(mode: &str) -> (r: Option<String>)
    ensures
        match r {
            Some(e) => mode@ != "session"@ && e@ == MODE_ERROR_HEAD@ + mode@ + QUOTE_END@,
            None => mode@ == "session"@,
        },
{
    if eq_literal(&chars_of(mode), "session") {
        None
    } else {
        Some(String::from_str(MODE_ERROR_HEAD).concat(mode).concat(QUOTE_END))
    }
}

/// The complaints about the translation limits and the display section, in
/// this order: zero concurrency, zero rate, width outside 200–1200, a side
/// other than "left" or "right", a failure mode other than
/// "show_cn_with_reason" or "hide".
pub open spec fn limits_errors_spec(
    max_concurrency: usize,
    max_requests_per_second: usize,
    width: u32,
    side: Seq<char>,
    on_fail: Seq<char>,
) -> Seq<Seq<char>> {
    (if max_concurrency == 0 {
        seq![CONCURRENCY_ERROR@]
    } else {
        Seq::empty()
    }) + (if max_requests_per_second == 0 {
        seq![RATE_ERROR@]
    } else {
        Seq::empty()
    }) + (if !(200 <= width <= 1200) {
        seq![WIDTH_ERROR_HEAD@ + decimal_of(width as nat)]
    } else {
        Seq::empty()
    }) + (if side != "left"@ && side != "right"@ {
        seq![SIDE_ERROR_HEAD@ + side + QUOTE_END@]
    } else {
        Seq::empty()
    }) + (if on_fail != "show_cn_with_reason"@ && on_fail != "hide"@ {
        seq![FAIL_MODE_ERROR_HEAD@ + on_fail + QUOTE_END@]
    } else {
        Seq::empty()
    })
}

/// Checks the translation limits and the display section.
pub fn validate_limits_and_display(
    max_concurrency: usize,
    max_requests_per_second: usize,
    display: &DisplayConfig,
) -> (r: Vec<String>)
    ensures
        r@.map_values(|s: String| s@) == limits_errors_spec(
            max_concurrency,
            max_requests_per_second,
            display.width,
            display.side@,
            display.on_translate_fail@,
        ),
{
    let mut errors: Vec<String> = Vec::new();
    let ghost e0 = errors@.map_values(|s: String| s@);
    if max_concurrency == 0 {
        errors.push(String::from_str(CONCURRENCY_ERROR));
    }
    let ghost e1 = errors@.map_values(|s: String| s@);
    if max_requests_per_second == 0 {
        errors.push(String::from_str(RATE_ERROR));
    }
    let ghost e2 = errors@.map_values(|s: String| s@);
    if !(200 <= display.width && display.width <= 1200) {
        let mut digits: Vec<char> = Vec::new();
        push_decimal(&mut digits, display.width);
        assert(digits@ =~= decimal_of(display.width as nat));
        let d = string_of(&digits);
        errors.push(String::from_str(WIDTH_ERROR_HEAD).concat(d.as_str()));
    }
    let ghost e3 = errors@.map_values(|s: String| s@);
    let side = chars_of(display.side.as_str());
    if !eq_literal(&side, "left") && !eq_literal(&side, "right") {
        errors.push(String::from_str(SIDE_ERROR_HEAD).concat(display.side.as_str()).concat(QUOTE_END));
    }
    let ghost e4 = errors@.map_values(|s: String| s@);
    let fail = chars_of(display.on_translate_fail.as_str());
    if !eq_literal(&fail, "show_cn_with_reason") && !eq_literal(&fail, "hide") {
        errors.push(
            String::from_str(FAIL_MODE_ERROR_HEAD).concat(display.on_translate_fail.as_str()).concat(QUOTE_END),
        );
    }
    proof {
        let w = display.width;
        let sd = display.side@;
        let of = display.on_translate_fail@;
        assert(e0 =~= Seq::<Seq<char>>::empty());
        assert(e1 =~= e0 + (if max_concurrency == 0 {
            seq![CONCURRENCY_ERROR@]
        } else {
            Seq::empty()
        }));
        assert(e2 =~= e1 + (if max_requests_per_second == 0 {
            seq![RATE_ERROR@]
        } else {
            Seq::empty()
        }));
        assert(e3 =~= e2 + (if !(200 <= w <= 1200) {
            seq![WIDTH_ERROR_HEAD@ + decimal_of(w as nat)]
        } else {
            Seq::empty()
        }));
        assert(e4 =~= e3 + (if sd != "left"@ && sd != "right"@ {
            seq![SIDE_ERROR_HEAD@ + sd + QUOTE_END@]
        } else {
            Seq::empty()
        }));
        assert(errors@.map_values(|s: String| s@) =~= e4 + (if of != "show_cn_with_reason"@ && of != "hide"@ {
            seq![FAIL_MODE_ERROR_HEAD@ + of + QUOTE_END@]
        } else {
            Seq::empty()
        }));
    }
    errors
}

// ---------------------------------------------------------------------------
// Translation provider
// ---------------------------------------------------------------------------

/// The translation backend and what it needs.
pub enum TranslateProviderConfig {
    Ai { provider_id: String, model_id: String, api_key: String, base_url: Option<String> },
    Deeplx { url: String },
}

/// The provider chosen by name: "ai" selects the AI backend (an empty base
/// URL meaning the provider's own), any other name DeepLX.
pub fn build_provider_config(
    provider: &str,
    deeplx_url: String,
    ai_provider_id: String,
    ai_model_id: String,
    ai_api_key: String,
    ai_base_url: String,
) -> (r: TranslateProviderConfig)
    ensures
        provider@ == "ai"@ ==> (r matches TranslateProviderConfig::Ai { provider_id, model_id, api_key, base_url }
            && provider_id == ai_provider_id && model_id == ai_model_id && api_key == ai_api_key && if ai_base_url@.len()
            == 0 {
            base_url is None
        } else {
            base_url == Some(ai_base_url)
        }),
        provider@ != "ai"@ ==> (r matches TranslateProviderConfig::Deeplx { url } && url == deeplx_url),
{
    if eq_literal(&chars_of(provider), "ai") {
        let base_url = if ai_base_url.as_str().is_empty() {
            None
        } else {
            Some(ai_base_url)
        };
        TranslateProviderConfig::Ai {
            provider_id: ai_provider_id,
            model_id: ai_model_id,
            api_key: ai_api_key,
            base_url,
        }
    } else {
        TranslateProviderConfig::Deeplx { url: deeplx_url }
    }
}

} // verus!
