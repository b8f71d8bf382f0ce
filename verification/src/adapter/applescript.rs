//! The AppleScript programs that drive WeChat's window: activating it,
//! searching a chat, pasting and sending, and the queries about its state.
//! Running them is left to the caller; here they are built and their
//! answers read.
use vstd::prelude::*;

use crate::adapter::ax_reader::{eq_literal, WECHAT_BUNDLE_ID};
use crate::text::{chars_of, string_of, trim_chars, trim_spec};

verus! {

/// What a character becomes inside an AppleScript string literal: a
/// backslash or a double quote gets a backslash in front.
pub open spec fn escape_char(c: char) -> Seq<char> {
    if c == '\\' {
        seq!['\\', '\\']
    } else if c == '"' {
        seq!['\\', '"']
    } else {
        seq![c]
    }
}

/// `s` made safe to stand between double quotes in AppleScript.
pub open spec fn escape_spec(s: Seq<char>) -> Seq<char>
    decreases s.len(),
{
    if s.len() == 0 {
        Seq::empty()
    } else {
        escape_spec(s.drop_last()) + escape_char(s.last())
    }
}

/// Escapes backslashes and double quotes for an AppleScript string literal.
pub fn escape_applescript_text(text: &str) -> (r: String)
    ensures
        r@ == escape_spec(text@),
{
    let v = chars_of(text);
    let mut out: Vec<char> = Vec::new();
    let mut i: usize = 0;
    assert(v@.take(0) =~= Seq::<char>::empty());
    while i < v.len()
        invariant
            i <= v@.len(),
            out@ == escape_spec(v@.take(i as int)),
        decreases v@.len() - i,
    {
        assert(v@.take(i + 1).drop_last() =~= v@.take(i as int));
        let c = v[i];
        if c == '\\' {
            out.push('\\');
            out.push('\\');
        } else if c == '"' {
            out.push('\\');
            out.push('"');
        } else {
            out.push(c);
        }
        proof {
            assert(out@ =~= escape_spec(v@.take(i as int)) + escape_char(c));
        }
        i += 1;
    }
    assert(v@.take(v@.len() as int) =~= v@);
    string_of(&out)
}

pub const ACTIVATE_HEAD: &'static str = "tell application id \"";

pub const ACTIVATE_TAIL: &'static str = "\" to activate";

/// The script that brings WeChat to the front.
pub fn activate_wechat() -> (r: String)
    ensures
        r@ == ACTIVATE_HEAD@ + WECHAT_BUNDLE_ID@ + ACTIVATE_TAIL@,
{
    String::from_str(ACTIVATE_HEAD).concat(WECHAT_BUNDLE_ID).concat(ACTIVATE_TAIL)
}

pub const SEARCH_HEAD: &'static str = "\n        tell application id \"";

pub const SEARCH_MIDDLE: &'static str = "\" to activate\n        delay 0.2\n        tell application \"System Events\"\n            keystroke \"f\" using {command down}\n            delay 0.3\n            keystroke \"a\" using {command down}\n            delay 0.05\n            keystroke \"";

pub const SEARCH_TAIL: &'static str = "\"\n            delay 0.5\n            key code 36\n            delay 0.4\n        end tell\n        ";

/// The script that opens the chat named `who` through WeChat's search box
/// (Cmd-F, select all, type the name, Enter); nothing to run for an empty name.
pub fn open_chat_by_search(who: &str) -> (r: Option<String>)
    ensures
        who@.len() == 0 ==> r is None,
        who@.len() > 0 ==> (r matches Some(s) && s@ == SEARCH_HEAD@ + WECHAT_BUNDLE_ID@ + SEARCH_MIDDLE@
            + escape_spec(who@) + SEARCH_TAIL@),
{
    if who.is_empty() {
        return None;
    }
    let target = escape_applescript_text(who);
    Some(
        String::from_str(SEARCH_HEAD).concat(WECHAT_BUNDLE_ID).concat(SEARCH_MIDDLE).concat(
            target.as_str(),
        ).concat(SEARCH_TAIL),
    )
}

pub const COPY_FILE_HEAD: &'static str = "\n        set targetFile to POSIX file \"";

pub const COPY_FILE_TAIL: &'static str = "\"\n        set the clipboard to targetFile\n        ";

/// The script that puts the file at `file_path` on the clipboard.
pub fn copy_file(file_path: &str) -> (r: String)
    ensures
        r@ == COPY_FILE_HEAD@ + escape_spec(file_path@) + COPY_FILE_TAIL@,
{
    let escaped = escape_applescript_text(file_path);
    String::from_str(COPY_FILE_HEAD).concat(escaped.as_str()).concat(COPY_FILE_TAIL)
}

pub const PASTE_HEAD: &'static str = "\n        tell application \"System Events\"\n            keystroke \"v\" using {command down}\n            delay 0.05\n            ";

pub const PASTE_TAIL: &'static str = "\n        end tell\n        ";

pub const ENTER_KEY: &'static str = "key code 36";

/// The script that pastes the clipboard and, when asked, presses Enter.
pub fn paste_and_send(with_enter: bool) -> (r: String)
    ensures
        r@ == PASTE_HEAD@ + (if with_enter {
            ENTER_KEY@
        } else {
            ""@
        }) + PASTE_TAIL@,
{
    let send_stmt = if with_enter {
        ENTER_KEY
    } else {
        ""
    };
    String::from_str(PASTE_HEAD).concat(send_stmt).concat(PASTE_TAIL)
}

pub const PRESS_ENTER_SCRIPT: &'static str = "\n        tell application \"System Events\"\n            key code 36\n        end tell\n    ";

/// The script that presses Enter.
pub fn press_enter() -> (r: String)
    ensures
        r@ == PRESS_ENTER_SCRIPT@,
{
    String::from_str(PRESS_ENTER_SCRIPT)
}

pub const FRONTMOST_QUERY: &'static str = "tell application \"System Events\" to get bundle identifier of first process whose frontmost is true";

/// The script whose answer is the bundle identifier of the frontmost app.
pub fn frontmost_query_script() -> (r: String)
    ensures
        r@ == FRONTMOST_QUERY@,
{
    String::from_str(FRONTMOST_QUERY)
}

/// Whether WeChat is the frontmost app, given the answer of the frontmost
/// query (`None` when the script failed, which counts as "no").
pub fn is_wechat_frontmost(answer: Option<&str>) -> (r: bool)
    ensures
        r == match answer {
            Some(a) => trim_spec(a@) == WECHAT_BUNDLE_ID@,
            None => false,
        },
{
    match answer {
        Some(a) => {
            let t = trim_chars(&chars_of(a));
            eq_literal(&t, WECHAT_BUNDLE_ID)
        },
        None => false,
    }
}

pub const VISIBILITY_HEAD: &'static str = "tell application \"System Events\"\n            set wProc to first process whose bundle identifier is \"";

pub const VISIBILITY_TAIL: &'static str = "\"\n            if not (visible of wProc) then return \"hidden\"\n            return \"visible\"\n        end tell";

/// The script that answers "hidden" or "visible" for WeChat's process.
pub fn window_visibility_script() -> (r: String)
    ensures
        r@ == VISIBILITY_HEAD@ + WECHAT_BUNDLE_ID@ + VISIBILITY_TAIL@,
{
    String::from_str(VISIBILITY_HEAD).concat(WECHAT_BUNDLE_ID).concat(VISIBILITY_TAIL)
}

/// Whether the visibility script answered that WeChat is hidden.
pub fn window_reported_hidden(answer: &str) -> (r: bool)
    ensures
        r == (trim_spec(answer@) == "hidden"@),
{
    let t = trim_chars(&chars_of(answer));
    eq_literal(&t, "hidden")
}

} // verus!
