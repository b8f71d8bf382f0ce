//! Text rules for what the WeChat accessibility tree exposes: message
//! bubbles, session-list previews and their noise lines.
use vstd::prelude::*;

use crate::bindings::{
    captures_view, group_views, lowercase_of, regex_captures, regex_captures_result, regex_is_match,
    regex_is_match_result, regex_replace, regex_replace_result, to_lowercase,
};
use crate::text::{
    chars_eq, chars_of, clean_spec, collapse_chars, contains_chars, contains_spec, drop_chars,
    drop_zero_width, drop_zwsp, is_zero_width, normalize_spec, occurs_at, prefix8_spec,
    starts_with_chars, string_of, take_chars, trim_chars, trim_spec, trimmed, lemma_trim_shape, lacks, law_clean_shape, spaced, is_ws, utf8_len,
    utf8_len_at_most,
};

verus! {

/// Bundle identifier of the WeChat macOS app.
pub const WECHAT_BUNDLE_ID: &'static str = "com.tencent.xinWeChat";

/// A bare time stamp line of the session list ("21:34", "昨天 9:05", ...).
pub const TIME_HINT_PATTERN: &'static str = "^(?:昨天|今天|星期[一二三四五六日天])?\\s*\\d{1,2}:\\d{2}$";

/// The "[N条]" unread marker that prefixes a preview body.
pub const SESSION_UNREAD_PREFIX_PATTERN: &'static str = "^\\[\\d+条\\]\\s*";

/// The "[N条]" unread marker with the count captured.
pub const SESSION_UNREAD_COUNT_PATTERN: &'static str = "^\\[(\\d+)条\\]\\s*";

/// The "N条新消息" suffix some session names carry.
pub const SESSION_NEWMSG_SUFFIX_PATTERN: &'static str = "\\s*\\d+[+]?\\s*条新消息$";

/// "sender: body" (ASCII or full-width colon), sender at most 40 characters.
pub const SENDER_PREFIX_PATTERN: &'static str = "^\\s*([^:：]{1,40})[:：]\\s*(.+?)\\s*$";

/// One chat bubble read from the message list.
pub struct ChatMessage {
    pub sender: String,
    pub content: String,
    pub is_self: bool,
    /// Self/other hint from the bubble's horizontal side:
    /// `Some(true)` = self/right, `Some(false)` = other/left, `None` = unknown.
    pub side_hint: Option<bool>,
}

/// One entry of the session list with its parsed preview.
pub struct SessionItemSnapshot {
    pub chat_name: String,
    pub raw_preview: String,
    pub preview_body: String,
    pub unread_count: u32,
    pub sender_hint: Option<String>,
    pub has_sender_prefix: bool,
    /// Inferred from the sender prefix of the preview:
    /// `true` = likely a group chat, `false` = likely a private chat.
    pub is_group: bool,
}

/// The view of an optional string.
pub open spec fn opt_view(o: Option<String>) -> Option<Seq<char>> {
    match o {
        Some(s) => Some(s@),
        None => None,
    }
}

// ---------------------------------------------------------------------------
// Normalisation
// ---------------------------------------------------------------------------

/// Removes U+200B, then collapses whitespace runs to single spaces and trims.
pub fn clean_text(raw: &str) -> (r: String)
    ensures
        r@ == clean_spec(raw@),
{
    let v = chars_of(raw);
    let d = drop_zwsp(&v);
    let c = collapse_chars(&d);
    string_of(&c)
}

/// Removes the zero-width characters U+200B, U+200C, U+200D and U+FEFF.
pub fn remove_zero_width(raw: &str) -> (r: String)
    ensures
        r@ == drop_chars(raw@, |c: char| is_zero_width(c)),
{
    let v = chars_of(raw);
    let d = drop_zero_width(&v);
    string_of(&d)
}

pub(crate) fn normalize_chars(raw: &Vec<char>) -> (r: Vec<char>)
    ensures
        r@ == normalize_spec(raw@),
{
    let d = drop_zero_width(raw);
    collapse_chars(&d)
}

/// Zero-width characters removed, whitespace runs collapsed to single
/// spaces, leading and trailing whitespace dropped.
pub fn normalize_for_match(raw: &str) -> (r: String)
    ensures
        r@ == normalize_spec(raw@),
{
    let v = chars_of(raw);
    let n = normalize_chars(&v);
    string_of(&n)
}

pub(crate) fn prefix8_chars(raw: &Vec<char>) -> (r: Vec<char>)
    ensures
        r@ == prefix8_spec(raw@),
{
    let n = normalize_chars(raw);
    take_chars(&n, 8)
}

/// The first eight characters of the normalised text.
pub fn prefix8_key(raw: &str) -> (r: String)
    ensures
        r@ == prefix8_spec(raw@),
{
    let v = chars_of(raw);
    let k = prefix8_chars(&v);
    string_of(&k)
}

/// Two texts count as the same message when their non-empty prefix keys agree.
pub fn is_same_message_prefix8(left: &str, right: &str) -> (r: bool)
    ensures
        r == (prefix8_spec(left@).len() > 0 && prefix8_spec(left@) == prefix8_spec(right@)),
{
    let l = prefix8_chars(&chars_of(left));
    let rk = prefix8_chars(&chars_of(right));
    l.len() > 0 && chars_eq(&l, &rk)
}

/// Matching by prefix key is symmetric, and never matches an empty text.
pub proof fn law_prefix8_match_symmetric(left: Seq<char>, right: Seq<char>)
    ensures
        (prefix8_spec(left).len() > 0 && prefix8_spec(left) == prefix8_spec(right)) == (prefix8_spec(right).len() > 0
            && prefix8_spec(right) == prefix8_spec(left)),
        normalize_spec(left).len() == 0 ==> !(prefix8_spec(left).len() > 0),
{
}

// ---------------------------------------------------------------------------
// Lines of a session preview
// ---------------------------------------------------------------------------

/// The pieces of `s` between line feeds (a text without line feed is one piece).
pub open spec fn split_lines(s: Seq<char>) -> Seq<Seq<char>>
    decreases s.len(),
{
    if s.len() == 0 {
        seq![Seq::<char>::empty()]
    } else {
        let p = split_lines(s.drop_last());
        if s.last() == '\n' {
            p.push(Seq::<char>::empty())
        } else {
            p.update(p.len() - 1, p.last().push(s.last()))
        }
    }
}

/// The trimmed pieces that are not empty, in order.
pub open spec fn kept_lines(pieces: Seq<Seq<char>>) -> Seq<Seq<char>>
    decreases pieces.len(),
{
    if pieces.len() == 0 {
        Seq::empty()
    } else {
        let p = kept_lines(pieces.drop_last());
        let t = trim_spec(pieces.last());
        if t.len() > 0 {
            p.push(t)
        } else {
            p
        }
    }
}

/// The trimmed, non-empty lines of a preview text
/// (`text.lines().map(str::trim).filter(|l| !l.is_empty())`).
pub open spec fn preview_lines(text: Seq<char>) -> Seq<Seq<char>> {
    kept_lines(split_lines(text))
}

/// The texts of a vector of character vectors.
pub open spec fn views(v: Seq<Vec<char>>) -> Seq<Seq<char>> {
    v.map_values(|x: Vec<char>| x@)
}

proof fn lemma_split_lines_nonempty(s: Seq<char>)
    ensures
        split_lines(s).len() >= 1,
    decreases s.len(),
{
    if s.len() > 0 {
        lemma_split_lines_nonempty(s.drop_last());
    }
}

pub(crate) fn preview_lines_exec(text: &Vec<char>) -> (r: Vec<Vec<char>>)
    ensures
        views(r@) == preview_lines(text@),
{
    let mut done: Vec<Vec<char>> = Vec::new();
    let mut cur: Vec<char> = Vec::new();
    let mut i: usize = 0;
    while i < text.len()
        invariant
            i <= text.len(),
            views(done@).push(cur@) == split_lines(text@.take(i as int)),
        decreases text.len() - i,
    {
        let c = text[i];
        proof {
            assert(text@.take(i + 1).drop_last() =~= text@.take(i as int));
            lemma_split_lines_nonempty(text@.take(i as int));
        }
        if c == '\n' {
            let ghost before = views(done@);
            done.push(cur);
            cur = Vec::new();
            proof {
                assert(views(done@) =~= before.push(split_lines(text@.take(i as int)).last()));
                assert(views(done@).push(cur@) =~= split_lines(text@.take(i + 1)));
            }
        } else {
            cur.push(c);
            proof {
                assert(views(done@).push(cur@) =~= split_lines(text@.take(i + 1)));
            }
        }
        i += 1;
    }
    let ghost before = views(done@);
    done.push(cur);
    assert(views(done@) =~= before.push(cur@));
    assert(text@.take(text@.len() as int) =~= text@);
    let ghost pieces = views(done@);
    let mut kept: Vec<Vec<char>> = Vec::new();
    let mut j: usize = 0;
    while j < done.len()
        invariant
            j <= done.len(),
            pieces == views(done@),
            pieces == split_lines(text@),
            views(kept@) == kept_lines(pieces.take(j as int)),
        decreases done.len() - j,
    {
        let t = trim_chars(&done[j]);
        proof {
            assert(pieces.take(j + 1).drop_last() =~= pieces.take(j as int));
            assert(pieces.take(j + 1).last() == done[j as int]@);
        }
        if t.len() > 0 {
            let ghost before = views(kept@);
            kept.push(t);
            assert(views(kept@) =~= before.push(t@));
        }
        j += 1;
    }
    assert(pieces.take(pieces.len() as int) =~= pieces);
    kept
}

// ---------------------------------------------------------------------------
// Noise lines and unread counts
// ---------------------------------------------------------------------------

/// Whether a trimmed line is noise, given what the time pattern said of it
/// (`None`: the pattern did not compile).
pub open spec fn noise_given(t: Seq<char>, time_match: Option<bool>) -> bool {
    t.len() == 0 || t == "已置顶"@ || t == "消息免打扰"@ || time_match == Some(true)
}

/// A time stamp, "已置顶" (pinned) or "消息免打扰" (muted), or empty after trimming.
pub open spec fn is_noise_spec(line: Seq<char>) -> bool {
    let t = trim_spec(line);
    noise_given(t, regex_is_match_result(TIME_HINT_PATTERN@, t))
}

pub(crate) fn eq_literal(a: &Vec<char>, lit: &str) -> (r: bool)
    ensures
        r == (a@ == lit@),
{
    let l = chars_of(lit);
    chars_eq(a, &l)
}

/// Whether an already trimmed session-list line is noise: empty, pinned or
/// muted, or a time stamp by `time_match`, what the time pattern said of it.
pub fn is_noise_given(trimmed: &str, time_match: Option<bool>) -> (r: bool)
    ensures
        r == noise_given(trimmed@, time_match),
{
    let t = chars_of(trimmed);
    if t.len() == 0 || eq_literal(&t, "已置顶") || eq_literal(&t, "消息免打扰") {
        return true;
    }
    match time_match {
        Some(b) => b,
        None => false,
    }
}

fn is_noise_chars(line: &Vec<char>) -> (r: bool)
    ensures
        r == is_noise_spec(line@),
{
    let t = string_of(&trim_chars(line));
    let time_match = regex_is_match(TIME_HINT_PATTERN, t.as_str());
    is_noise_given(t.as_str(), time_match)
}

/// Whether a session-list line carries no message text.
pub fn is_session_noise_line(line: &str) -> (r: bool)
    ensures
        r == is_noise_spec(line@),
{
    is_noise_chars(&chars_of(line))
}

/// Value of an ASCII decimal digit sequence.
pub open spec fn decimal_value(d: Seq<char>) -> nat
    decreases d.len(),
{
    if d.len() == 0 {
        0
    } else {
        decimal_value(d.drop_last()) * 10 + ((d.last() as u32) - ('0' as u32)) as nat
    }
}

pub open spec fn is_ascii_digit(c: char) -> bool {
    '0' <= c && c <= '9'
}

pub open spec fn all_ascii_digits(d: Seq<char>) -> bool {
    forall|i: int| 0 <= i < d.len() ==> is_ascii_digit(#[trigger] d[i])
}

/// What `str::parse::<u32>` accepts: an optional `+`, then one or more ASCII
/// digits whose value fits in 32 bits.
pub open spec fn parse_u32_spec(s: Seq<char>) -> Option<u32> {
    let d = if s.len() > 0 && s[0] == '+' {
        s.skip(1)
    } else {
        s
    };
    if d.len() > 0 && all_ascii_digits(d) && decimal_value(d) <= u32::MAX {
        Some(decimal_value(d) as u32)
    } else {
        None
    }
}

/// `str::parse::<u32>` on a character sequence.
pub fn parse_u32(s: &Vec<char>) -> (r: Option<u32>)
    ensures
        r == parse_u32_spec(s@),
{
    let start: usize = if s.len() > 0 && s[0] == '+' {
        1
    } else {
        0
    };
    let ghost d = if s@.len() > 0 && s@[0] == '+' {
        s@.skip(1)
    } else {
        s@
    };
    assert(d =~= s@.skip(start as int));
    assert(parse_u32_spec(s@) == if d.len() > 0 && all_ascii_digits(d) && decimal_value(d) <= u32::MAX {
        Some(decimal_value(d) as u32)
    } else {
        None
    });
    if start >= s.len() {
        return None;
    }
    let mut value: u64 = 0;
    let mut i: usize = start;
    while i < s.len()
        invariant
            start <= i <= s.len(),
            d == s@.skip(start as int),
            start < s.len(),
            all_ascii_digits(s@.subrange(start as int, i as int)),
            value == decimal_value(s@.subrange(start as int, i as int)),
            parse_u32_spec(s@) == if d.len() > 0 && all_ascii_digits(d) && decimal_value(d) <= u32::MAX {
                Some(decimal_value(d) as u32)
            } else {
                None
            },
            value <= u32::MAX,
        decreases s.len() - i,
    {
        let c = s[i];
        proof {
            assert(s@.subrange(start as int, i + 1).drop_last() =~= s@.subrange(start as int, i as int));
        }
        if !('0' <= c && c <= '9') {
            assert(!all_ascii_digits(d)) by {
                assert(d[i - start] == c);
            }
            assert(parse_u32_spec(s@) is None);
            return None;
        }
        let digit = (c as u32 - '0' as u32) as u64;
        let next = value * 10 + digit;
        if next > 0xffff_ffff {
            proof {
                let k = (i + 1 - start) as int;
                assert(d.take(k) =~= s@.subrange(start as int, i + 1));
                assert(all_ascii_digits(d.take(k))) by {
                    assert forall|j: int| 0 <= j < d.take(k).len() implies is_ascii_digit(#[trigger] d.take(k)[j]) by {
                        if j < k - 1 {
                            assert(d.take(k)[j] == s@.subrange(start as int, i as int)[j]);
                        }
                    }
                }
                assert(decimal_value(d.take(k)) == next);
                lemma_decimal_value_grows(d, k);
            }
            assert(parse_u32_spec(s@) is None);
            return None;
        }
        value = next;
        i += 1;
    }
    assert(s@.subrange(start as int, s@.len() as int) =~= d);
    Some(value as u32)
}

proof fn lemma_decimal_value_grows(d: Seq<char>, k: int)
    requires
        0 <= k <= d.len(),
        all_ascii_digits(d.take(k)),
    ensures
        all_ascii_digits(d) ==> decimal_value(d.take(k)) <= decimal_value(d),
    decreases d.len() - k,
{
    if k < d.len() && all_ascii_digits(d) {
        assert(d.take(k + 1).drop_last() =~= d.take(k));
        assert(all_ascii_digits(d.take(k + 1)));
        lemma_decimal_value_grows(d, k + 1);
    } else if k == d.len() {
        assert(d.take(k) =~= d);
    }
}

/// The count that the captures of the unread-marker pattern give: group 1
/// read as a `u32`, 0 when there is none or it does not parse.
pub open spec fn unread_given(caps: Option<Option<Seq<Option<Seq<char>>>>>) -> u32 {
    match caps {
        Some(Some(g)) => if g.len() > 1 {
            match g[1] {
                Some(d) => match parse_u32_spec(d) {
                    Some(n) => n,
                    None => 0,
                },
                None => 0,
            }
        } else {
            0
        },
        _ => 0,
    }
}

/// The count of a "[N条]" marker at the start of `line`, or 0.
pub open spec fn unread_of_line(line: Seq<char>) -> u32 {
    unread_given(regex_captures_result(SESSION_UNREAD_COUNT_PATTERN@, line))
}

/// Index of the first non-noise line at or after `i`.
pub open spec fn first_non_noise(lines: Seq<Seq<char>>, i: int) -> Option<int>
    decreases lines.len() - i,
{
    if i < 0 || i >= lines.len() {
        None
    } else if is_noise_spec(lines[i]) {
        first_non_noise(lines, i + 1)
    } else {
        Some(i)
    }
}

/// The unread count a session preview shows: the "[N条]" marker of its first
/// message line (lines after the name line that are not noise), or 0.
pub open spec fn unread_count_spec(text: Seq<char>) -> u32 {
    let lines = preview_lines(text);
    if lines.len() <= 1 {
        0
    } else {
        match first_non_noise(lines, 1) {
            Some(j) => unread_of_line(lines[j]),
            None => 0,
        }
    }
}

/// The unread count from what the unread-marker pattern captured on a line
/// (`None`: the pattern did not compile; `Some(None)`: no match).
pub fn unread_from_captures(caps: &Option<Option<Vec<Option<String>>>>) -> (r: u32)
    ensures
        r == unread_given(captures_view(*caps)),
{
    match caps {
        Some(Some(groups)) => {
            if groups.len() > 1 {
                match &groups[1] {
                    Some(d) => {
                        let dv = chars_of(d.as_str());
                        match parse_u32(&dv) {
                            Some(n) => n,
                            None => 0,
                        }
                    },
                    None => 0,
                }
            } else {
                0
            }
        },
        _ => 0,
    }
}

fn unread_of_line_exec(line: &Vec<char>) -> (r: u32)
    ensures
        r == unread_of_line(line@),
{
    let ls = string_of(line);
    let caps = regex_captures(SESSION_UNREAD_COUNT_PATTERN, ls.as_str());
    unread_from_captures(&caps)
}

/// Unread count from a session preview's "[N条]" marker.
pub fn parse_session_unread_count(preview_text: &str) -> (r: u32)
    ensures
        r == unread_count_spec(preview_text@),
{
    let lines = preview_lines_exec(&chars_of(preview_text));
    if lines.len() <= 1 {
        return 0;
    }
    let ghost ls = views(lines@);
    let mut i: usize = 1;
    while i < lines.len()
        invariant
            1 <= i <= lines.len(),
            ls == views(lines@),
            ls == preview_lines(preview_text@),
            ls.len() > 1,
            first_non_noise(ls, 1) == first_non_noise(ls, i as int),
        decreases lines.len() - i,
    {
        assert(ls[i as int] == lines[i as int]@);
        if is_noise_chars(&lines[i]) {
            i += 1;
        } else {
            assert(first_non_noise(ls, i as int) == Some(i as int));
            return unread_of_line_exec(&lines[i]);
        }
    }
    0
}

// ---------------------------------------------------------------------------
// Sender and body of a session preview
// ---------------------------------------------------------------------------

/// `s` after a replacement that yielded `replaced`; `s` itself when there
/// was none (the pattern did not compile).
pub open spec fn replaced_or(s: Seq<char>, replaced: Option<Seq<char>>) -> Seq<char> {
    match replaced {
        Some(t) => t,
        None => s,
    }
}

/// The text a replacement on `s` yielded, or `s` when it yielded nothing.
pub fn replaced_or_original(s: &str, replaced: Option<String>) -> (r: String)
    ensures
        r@ == replaced_or(s@, opt_view(replaced)),
{
    match replaced {
        Some(t) => t,
        None => string_of(&chars_of(s)),
    }
}

/// `s` with the first match of `pattern` removed (unchanged if it does not compile).
pub open spec fn strip_pattern(pattern: Seq<char>, s: Seq<char>) -> Seq<char> {
    replaced_or(s, regex_replace_result(pattern, s, ""@))
}

/// `line` without its "[N条]" marker.
pub open spec fn strip_unread_prefix(line: Seq<char>) -> Seq<char> {
    strip_pattern(SESSION_UNREAD_PREFIX_PATTERN@, line)
}

/// The candidate body of a preview line: marker removed, then trimmed.
pub open spec fn candidate_of(line: Seq<char>) -> Seq<char> {
    trim_spec(strip_unread_prefix(line))
}

/// The trimmed text of capture group `i`, empty when it did not take part.
pub open spec fn group_text(g: Seq<Option<Seq<char>>>, i: int) -> Seq<char> {
    if 0 <= i < g.len() {
        match g[i] {
            Some(t) => trim_spec(t),
            None => Seq::empty(),
        }
    } else {
        Seq::empty()
    }
}

/// "http", "https" or "ftp": words that look like a sender but start a URL.
pub open spec fn is_protocol_word_spec(lowered: Seq<char>) -> bool {
    lowered == "http"@ || lowered == "https"@ || lowered == "ftp"@
}

/// Whether an already lowercased word is "http", "https" or "ftp".
pub fn is_protocol_word(lowered: &str) -> (r: bool)
    ensures
        r == is_protocol_word_spec(lowered@),
{
    let v = chars_of(lowered);
    eq_literal(&v, "http") || eq_literal(&v, "https") || eq_literal(&v, "ftp")
}

/// A sender prefix is believed when it is not empty, not all digits and not
/// a URL scheme.
pub open spec fn accepted_sender(sender: Seq<char>) -> bool {
    sender.len() > 0 && !all_ascii_digits(sender) && !is_protocol_word_spec(lowercase_of(sender))
}

/// What a candidate line yields given the captures of the sender-prefix
/// pattern on it: (sender, body) when both groups hold a believable sender
/// and a non-empty body, otherwise the whole candidate as the body.
pub open spec fn sender_outcome(cand: Seq<char>, caps: Option<Option<Seq<Option<Seq<char>>>>>) -> (
    Option<Seq<char>>,
    Seq<char>,
) {
    match caps {
        Some(Some(g)) => {
            let sender = group_text(g, 1);
            let body = group_text(g, 2);
            if body.len() > 0 && accepted_sender(sender) {
                (Some(sender), body)
            } else {
                (None, cand)
            }
        },
        _ => (None, cand),
    }
}

/// What one preview line contributes: `None` to skip it, otherwise the
/// sender (if the line is "sender: body") and the body.
pub open spec fn line_outcome(line: Seq<char>) -> Option<(Option<Seq<char>>, Seq<char>)> {
    if is_noise_spec(line) {
        None
    } else {
        let cand = candidate_of(line);
        if cand.len() == 0 {
            None
        } else if contains_spec(cand, "://"@) {
            Some((None, cand))
        } else {
            Some(sender_outcome(cand, regex_captures_result(SENDER_PREFIX_PATTERN@, cand)))
        }
    }
}

/// The first line from `i` on that contributes, as (sender, body).
pub open spec fn first_outcome(lines: Seq<Seq<char>>, i: int) -> (Option<Seq<char>>, Option<Seq<char>>)
    decreases lines.len() - i,
{
    if i < 0 || i >= lines.len() {
        (None, None)
    } else {
        match line_outcome(lines[i]) {
            Some((s, b)) => (s, Some(b)),
            None => first_outcome(lines, i + 1),
        }
    }
}

/// Sender and body of a session preview: line 0 is the chat name, the first
/// later line that is neither noise nor empty carries "sender: body" or "body".
pub open spec fn preview_spec(text: Seq<char>) -> (Option<Seq<char>>, Option<Seq<char>>) {
    let lines = preview_lines(text);
    if lines.len() <= 1 {
        (None, None)
    } else {
        first_outcome(lines, 1)
    }
}

proof fn lemma_line_outcome_bounds(line: Seq<char>)
    ensures
        line_outcome(line) matches Some((s, b)) ==> {
            &&& b.len() > 0
            &&& trimmed(b)
            &&& s matches Some(n) ==> accepted_sender(n) && trimmed(n)
        },
{
    if !is_noise_spec(line) {
        let cand = candidate_of(line);
        lemma_trim_shape(strip_unread_prefix(line));
        if cand.len() > 0 && !contains_spec(cand, "://"@) {
            if let Some(Some(g)) = regex_captures_result(SENDER_PREFIX_PATTERN@, cand) {
                if 0 <= 1 < g.len() && g[1] is Some {
                    lemma_trim_shape(g[1]->0);
                }
                if 0 <= 2 < g.len() && g[2] is Some {
                    lemma_trim_shape(g[2]->0);
                }
            }
        }
    }
}

proof fn lemma_first_outcome_bounds(lines: Seq<Seq<char>>, i: int)
    ensures
        first_outcome(lines, i).0 matches Some(s) ==> accepted_sender(s) && trimmed(s) && first_outcome(
            lines,
            i,
        ).1 is Some,
        first_outcome(lines, i).1 matches Some(b) ==> b.len() > 0 && trimmed(b),
    decreases lines.len() - i,
{
    if 0 <= i < lines.len() {
        lemma_line_outcome_bounds(lines[i]);
        if line_outcome(lines[i]) is None {
            lemma_first_outcome_bounds(lines, i + 1);
        }
    }
}

/// A sender read off a session preview is believable (not empty, not all
/// ASCII digits, not "http", "https" or "ftp" once lowercased) and has no
/// whitespace at either end, and it always comes with a body; a body read
/// off a preview is never empty and has no whitespace at either end.
pub proof fn law_preview_sender_bounds(text: Seq<char>)
    ensures
        preview_spec(text).0 matches Some(s) ==> {
            &&& s.len() > 0
            &&& !all_ascii_digits(s)
            &&& !is_protocol_word_spec(lowercase_of(s))
            &&& trimmed(s)
            &&& preview_spec(text).1 is Some
        },
        preview_spec(text).1 matches Some(b) ==> b.len() > 0 && trimmed(b),
{
    lemma_first_outcome_bounds(preview_lines(text), 1);
}

fn group_text_exec(groups: &Vec<Option<String>>, i: usize) -> (r: Vec<char>)
    ensures
        r@ == group_text(group_views(groups@), i as int),
{
    let ghost g = group_views(groups@);
    if i < groups.len() {
        match &groups[i] {
            Some(t) => {
                assert(g[i as int] == Some(t@));
                trim_chars(&chars_of(t.as_str()))
            },
            None => {
                assert(g[i as int] is None);
                Vec::new()
            },
        }
    } else {
        Vec::new()
    }
}

fn all_ascii_digits_exec(s: &Vec<char>) -> (r: bool)
    ensures
        r == all_ascii_digits(s@),
{
    let mut i: usize = 0;
    while i < s.len()
        invariant
            i <= s.len(),
            forall|k: int| 0 <= k < i ==> is_ascii_digit(#[trigger] s@[k]),
        decreases s.len() - i,
    {
        if !('0' <= s[i] && s[i] <= '9') {
            return false;
        }
        i += 1;
    }
    true
}

/// Sender and body of a preview line's candidate text, given what the
/// sender-prefix pattern captured on it (`None`: the pattern did not
/// compile; `Some(None)`: no match).
pub fn sender_and_body_from_captures(candidate: &str, caps: &Option<Option<Vec<Option<String>>>>) -> (r: (
    Option<String>,
    String,
))
    ensures
        (opt_view(r.0), r.1@) == sender_outcome(candidate@, captures_view(*caps)),
{
    let whole = string_of(&chars_of(candidate));
    match caps {
        Some(Some(groups)) => {
            let sender = group_text_exec(groups, 1);
            let body = group_text_exec(groups, 2);
            if body.len() > 0 && sender.len() > 0 && !all_ascii_digits_exec(&sender) {
                let ss = string_of(&sender);
                let lowered = to_lowercase(ss.as_str());
                if !is_protocol_word(lowered.as_str()) {
                    return (Some(ss), string_of(&body));
                }
            }
            (None, whole)
        },
        _ => (None, whole),
    }
}

fn line_outcome_exec(line: &Vec<char>) -> (r: Option<(Option<String>, String)>)
    ensures
        match r {
            None => line_outcome(line@) is None,
            Some((s, b)) => line_outcome(line@) == Some((opt_view(s), b@)),
        },
{
    if is_noise_chars(line) {
        return None;
    }
    let cand = trim_chars(&strip_pattern_exec(SESSION_UNREAD_PREFIX_PATTERN, line));
    if cand.len() == 0 {
        return None;
    }
    let cs = string_of(&cand);
    if contains_chars(&cand, &chars_of("://")) {
        return Some((None, cs));
    }
    let caps = regex_captures(SENDER_PREFIX_PATTERN, cs.as_str());
    Some(sender_and_body_from_captures(cs.as_str(), &caps))
}

/// Splits a session preview into (sender, body).
/// The preview is generally: line 0 the chat name, line 1 "sender: body" or
/// "body", further lines time / mute / pinned hints.
pub fn parse_session_preview_line(preview_text: &str) -> (r: (Option<String>, Option<String>))
    ensures
        (opt_view(r.0), opt_view(r.1)) == preview_spec(preview_text@),
{
    let lines = preview_lines_exec(&chars_of(preview_text));
    if lines.len() <= 1 {
        return (None, None);
    }
    let ghost ls = views(lines@);
    let mut i: usize = 1;
    while i < lines.len()
        invariant
            1 <= i <= lines.len(),
            ls == views(lines@),
            ls == preview_lines(preview_text@),
            ls.len() > 1,
            first_outcome(ls, 1) == first_outcome(ls, i as int),
        decreases lines.len() - i,
    {
        assert(ls[i as int] == lines[i as int]@);
        match line_outcome_exec(&lines[i]) {
            Some((s, b)) => {
                return (s, Some(b));
            },
            None => {
                i += 1;
            },
        }
    }
    (None, None)
}


// ---------------------------------------------------------------------------
// Session names
// ---------------------------------------------------------------------------

/// Comparison key of a session name: normalised, "[N条]" marker and
/// "N条新消息" suffix removed, trimmed.
pub open spec fn session_name_key(raw: Seq<char>) -> Seq<char> {
    trim_spec(strip_pattern(SESSION_NEWMSG_SUFFIX_PATTERN@, strip_pattern(SESSION_UNREAD_PREFIX_PATTERN@, normalize_spec(raw))))
}

fn strip_pattern_exec(pattern: &str, s: &Vec<char>) -> (r: Vec<char>)
    ensures
        r@ == strip_pattern(pattern@, s@),
{
    let ss = string_of(s);
    let replaced = regex_replace(pattern, ss.as_str(), "");
    chars_of(replaced_or_original(ss.as_str(), replaced).as_str())
}

fn session_name_key_chars(raw: &Vec<char>) -> (r: Vec<char>)
    ensures
        r@ == session_name_key(raw@),
{
    let n = normalize_chars(raw);
    let a = strip_pattern_exec(SESSION_UNREAD_PREFIX_PATTERN, &n);
    let b = strip_pattern_exec(SESSION_NEWMSG_SUFFIX_PATTERN, &a);
    trim_chars(&b)
}

/// The key under which a session name is compared with the session list.
pub fn normalize_session_name_for_match(raw: &str) -> (r: String)
    ensures
        r@ == session_name_key(raw@),
{
    string_of(&session_name_key_chars(&chars_of(raw)))
}

/// Identifier prefix of the session-list entries.
pub const SESSION_ITEM_PREFIX: &'static str = "session_item_";

/// One entry of the session list as the accessibility tree shows it:
/// its identifier and its title (or value) text, if any.
pub struct SessionListItem {
    pub identifier: String,
    pub text: Option<String>,
}

/// The identifier names a session-list entry.
pub open spec fn is_session_item(id: Seq<char>) -> bool {
    SESSION_ITEM_PREFIX@.len() <= id.len() && id.take(SESSION_ITEM_PREFIX@.len() as int) == SESSION_ITEM_PREFIX@
}

/// The session name part of an entry identifier.
pub open spec fn session_suffix(id: Seq<char>) -> Seq<char> {
    id.skip(SESSION_ITEM_PREFIX@.len() as int)
}

proof fn lemma_session_prefix_len()
    ensures
        SESSION_ITEM_PREFIX@.len() == 13,
{
    reveal_strlit("session_item_");
}

fn session_suffix_exec(id: &Vec<char>) -> (r: Option<Vec<char>>)
    ensures
        match r {
            Some(v) => is_session_item(id@) && v@ == session_suffix(id@),
            None => !is_session_item(id@),
        },
{
    let prefix = chars_of(SESSION_ITEM_PREFIX);
    if !starts_with_chars(id, &prefix) {
        return None;
    }
    let mut v: Vec<char> = Vec::new();
    let mut i: usize = prefix.len();
    while i < id.len()
        invariant
            prefix@ == SESSION_ITEM_PREFIX@,
            prefix.len() <= i <= id.len(),
            v@ == id@.subrange(prefix@.len() as int, i as int),
        decreases id.len() - i,
    {
        v.push(id[i]);
        proof {
            assert(id@.subrange(prefix@.len() as int, i + 1) =~= id@.subrange(prefix@.len() as int, i as int).push(id@[i as int]));
        }
        i += 1;
    }
    assert(v@ =~= session_suffix(id@));
    Some(v)
}

/// Session names of the session-list entries, in list order (entries whose
/// identifier does not name a session, or names an empty one, are skipped).
pub open spec fn current_sessions_spec(ids: Seq<Seq<char>>) -> Seq<Seq<char>>
    decreases ids.len(),
{
    if ids.len() == 0 {
        Seq::empty()
    } else {
        let p = current_sessions_spec(ids.drop_last());
        let id = ids.last();
        if is_session_item(id) && session_suffix(id).len() > 0 {
            p.push(session_suffix(id))
        } else {
            p
        }
    }
}

/// The session names of the "session_item_*" identifiers of the session list.
pub fn get_current_sessions(identifiers: &Vec<String>) -> (r: Vec<String>)
    ensures
        r@.map_values(|s: String| s@) == current_sessions_spec(identifiers@.map_values(|s: String| s@)),
{
    let ghost ids = identifiers@.map_values(|s: String| s@);
    let mut r: Vec<String> = Vec::new();
    let mut i: usize = 0;
    while i < identifiers.len()
        invariant
            i <= identifiers.len(),
            ids == identifiers@.map_values(|s: String| s@),
            r@.map_values(|s: String| s@) == current_sessions_spec(ids.take(i as int)),
        decreases identifiers.len() - i,
    {
        proof {
            assert(ids.take(i + 1).drop_last() =~= ids.take(i as int));
            assert(ids.take(i + 1).last() == identifiers@[i as int]@);
        }
        let id = chars_of(identifiers[i].as_str());
        match session_suffix_exec(&id) {
            Some(name) => {
                if name.len() > 0 {
                    let ghost before = r@.map_values(|s: String| s@);
                    r.push(string_of(&name));
                    assert(r@.map_values(|s: String| s@) =~= before.push(name@));
                }
            },
            None => {},
        }
        i += 1;
    }
    assert(ids.take(ids.len() as int) =~= ids);
    r
}

/// Texts of the accessibility tree that are UI chrome, not chat content.
pub open spec fn is_ui_noise_text(t: Seq<char>) -> bool {
    t == "微信"@ || t == "搜索"@ || t == "通讯录"@ || t == "我"@ || t == "聊天"@ || t == "联系人"@ || t == "设置"@
}

fn is_ui_noise_exec(t: &Vec<char>) -> (r: bool)
    ensures
        r == is_ui_noise_text(t@),
{
    eq_literal(t, "微信") || eq_literal(t, "搜索") || eq_literal(t, "通讯录") || eq_literal(t, "我")
        || eq_literal(t, "聊天") || eq_literal(t, "联系人") || eq_literal(t, "设置")
}

/// A bare time stamp per the time-hint pattern.
pub open spec fn is_time_hint(t: Seq<char>) -> bool {
    regex_is_match_result(TIME_HINT_PATTERN@, t) == Some(true)
}

fn is_time_hint_exec(t: &String) -> (r: bool)
    ensures
        r == is_time_hint(t@),
{
    match regex_is_match(TIME_HINT_PATTERN, t.as_str()) {
        Some(b) => b,
        None => false,
    }
}

/// A text worth reporting as the latest message: not UI chrome, not a time
/// stamp, not empty and at most 500 bytes of UTF-8.
pub open spec fn is_message_text(t: Seq<char>) -> bool {
    !is_ui_noise_text(t) && !is_time_hint(t) && t.len() > 0 && utf8_len(t) <= 500
}

/// Index of the last message text among `texts[..n]`.
pub open spec fn last_message_index(texts: Seq<Seq<char>>, n: int) -> Option<int>
    decreases n,
{
    if n <= 0 || n > texts.len() {
        None
    } else if is_message_text(texts[n - 1]) {
        Some(n - 1)
    } else {
        last_message_index(texts, n - 1)
    }
}

/// The latest text of the chat list worth reporting, scanning from the end.
pub fn read_latest_message(texts: &Vec<String>) -> (r: Option<String>)
    ensures
        opt_view(r) == match last_message_index(texts@.map_values(|s: String| s@), texts@.len() as int) {
            Some(j) => Some(texts@[j]@),
            None => None::<Seq<char>>,
        },
{
    let ghost ts = texts@.map_values(|s: String| s@);
    let mut n: usize = texts.len();
    while n > 0
        invariant
            n <= texts.len(),
            ts == texts@.map_values(|s: String| s@),
            last_message_index(ts, texts@.len() as int) == last_message_index(ts, n as int),
        decreases n,
    {
        let t = &texts[n - 1];
        let tv = chars_of(t.as_str());
        assert(ts[n - 1] == t@);
        if !is_ui_noise_exec(&tv) && !is_time_hint_exec(t) && tv.len() > 0 && utf8_len_at_most(&tv, 500) {
            return Some(t.clone());
        }
        n -= 1;
    }
    None
}

/// Whether an earlier text of `texts[..j]` equals `texts[j]`.
pub open spec fn seen_before(texts: Seq<Seq<char>>, j: int) -> bool {
    exists|k: int| 0 <= k < j && texts[k] == texts[j]
}

/// A text kept by the fallback session scan: not chrome, not a time stamp,
/// at most 40 bytes, first of its kind.
pub open spec fn fallback_kept(texts: Seq<Seq<char>>, j: int) -> bool {
    !is_ui_noise_text(texts[j]) && !is_time_hint(texts[j]) && utf8_len(texts[j]) <= 40
        && !seen_before(texts, j)
}

/// The texts kept by the fallback session scan, in order.
pub open spec fn fallback_sessions_spec(texts: Seq<Seq<char>>, n: int) -> Seq<Seq<char>>
    decreases n,
{
    if n <= 0 || n > texts.len() {
        Seq::empty()
    } else {
        let p = fallback_sessions_spec(texts, n - 1);
        if fallback_kept(texts, n - 1) {
            p.push(texts[n - 1])
        } else {
            p
        }
    }
}

fn seen_before_exec(texts: &Vec<String>, j: usize) -> (r: bool)
    requires
        j < texts.len(),
    ensures
        r == seen_before(texts@.map_values(|s: String| s@), j as int),
{
    let ghost ts = texts@.map_values(|s: String| s@);
    let mut k: usize = 0;
    while k < j
        invariant
            j < texts.len(),
            k <= j,
            ts == texts@.map_values(|s: String| s@),
            forall|m: int| 0 <= m < k ==> ts[m] != ts[j as int],
        decreases j - k,
    {
        if texts[k] == texts[j] {
            assert(ts[k as int] == ts[j as int]);
            return true;
        }
        k += 1;
    }
    false
}

/// Candidate session names from a full scan of the window's static texts,
/// used when the session list itself cannot be found.
pub fn get_current_sessions_fallback(texts: &Vec<String>) -> (r: Vec<String>)
    ensures
        r@.map_values(|s: String| s@) == fallback_sessions_spec(texts@.map_values(|s: String| s@), texts@.len() as int),
{
    let ghost ts = texts@.map_values(|s: String| s@);
    let mut r: Vec<String> = Vec::new();
    let mut j: usize = 0;
    while j < texts.len()
        invariant
            j <= texts.len(),
            ts == texts@.map_values(|s: String| s@),
            r@.map_values(|s: String| s@) == fallback_sessions_spec(ts, j as int),
        decreases texts.len() - j,
    {
        let t = &texts[j];
        let tv = chars_of(t.as_str());
        assert(ts[j as int] == t@);
        if !is_ui_noise_exec(&tv) && !is_time_hint_exec(t) && utf8_len_at_most(&tv, 40) && !seen_before_exec(texts, j) {
            let ghost before = r@.map_values(|s: String| s@);
            r.push(t.clone());
            assert(r@.map_values(|s: String| s@) =~= before.push(t@));
        }
        j += 1;
    }
    r
}


// ---------------------------------------------------------------------------
// Session previews and snapshots
// ---------------------------------------------------------------------------

/// The text an entry shows: its title or value, else its session name.
pub open spec fn item_preview(item: SessionListItem) -> Seq<char> {
    match item.text {
        Some(t) => t@,
        None => session_suffix(item.identifier@),
    }
}

/// The first line of a text (`text.lines().next().unwrap_or("")`, up to the
/// whitespace that keys ignore).
pub open spec fn first_line(text: Seq<char>) -> Seq<char> {
    split_lines(text)[0]
}

/// A preview's first line names `target_key` loosely: equal, or one contains the other.
pub open spec fn fuzzy_name_match(first_key: Seq<char>, target_key: Seq<char>) -> bool {
    first_key.len() > 0 && (first_key == target_key || contains_spec(first_key, target_key)
        || contains_spec(target_key, first_key))
}

/// Preview of the last entry whose identifier is exactly `target_id`.
pub open spec fn exact_preview(items: Seq<SessionListItem>, target_id: Seq<char>) -> Option<Seq<char>>
    decreases items.len(),
{
    if items.len() == 0 {
        None
    } else {
        let it = items.last();
        if is_session_item(it.identifier@) && it.identifier@ == target_id {
            Some(item_preview(it))
        } else {
            exact_preview(items.drop_last(), target_id)
        }
    }
}

/// Preview of the first other entry whose first line loosely names the target.
pub open spec fn fuzzy_preview(items: Seq<SessionListItem>, target_id: Seq<char>, target_key: Seq<char>) -> Option<
    Seq<char>,
>
    decreases items.len(),
{
    if items.len() == 0 {
        None
    } else {
        let p = fuzzy_preview(items.drop_last(), target_id, target_key);
        let it = items.last();
        if p is Some {
            p
        } else if is_session_item(it.identifier@) && it.identifier@ != target_id && fuzzy_name_match(
            session_name_key(first_line(item_preview(it))),
            target_key,
        ) {
            Some(item_preview(it))
        } else {
            None
        }
    }
}

/// The preview to use for `chat_name`: the exact entry if there is one, else
/// the first entry whose first line loosely names the chat; nothing when the
/// name's key is empty.
pub open spec fn preview_for_chat_spec(chat_name: Seq<char>, items: Seq<SessionListItem>) -> Option<Seq<char>> {
    let key = session_name_key(chat_name);
    if key.len() == 0 {
        None
    } else {
        let target_id = SESSION_ITEM_PREFIX@ + trim_spec(chat_name);
        match exact_preview(items, target_id) {
            Some(p) => Some(p),
            None => fuzzy_preview(items, target_id, key),
        }
    }
}

fn first_line_exec(text: &Vec<char>) -> (r: Vec<char>)
    ensures
        r@ == first_line(text@),
{
    let mut r: Vec<char> = Vec::new();
    let mut i: usize = 0;
    while i < text.len() && text[i] != '\n'
        invariant
            i <= text.len(),
            r@ == text@.take(i as int),
            forall|k: int| 0 <= k < i ==> text@[k] != '\n',
        decreases text.len() - i,
    {
        r.push(text[i]);
        proof {
            assert(text@.take(i + 1) =~= text@.take(i as int).push(text@[i as int]));
        }
        i += 1;
    }
    proof {
        lemma_first_line(text@, i as int);
    }
    r
}

proof fn lemma_split_first_stable(s: Seq<char>)
    requires
        s.len() > 0,
        split_lines(s.drop_last()).len() >= 2,
    ensures
        split_lines(s)[0] == split_lines(s.drop_last())[0],
{
}

proof fn lemma_split_lines_len(s: Seq<char>)
    ensures
        split_lines(s).len() >= 1,
        (exists|k: int| 0 <= k < s.len() && s[k] == '\n') ==> split_lines(s).len() >= 2,
        (forall|k: int| 0 <= k < s.len() ==> s[k] != '\n') ==> split_lines(s) == seq![s],
    decreases s.len(),
{
    if s.len() > 0 {
        let t = s.drop_last();
        lemma_split_lines_len(t);
        if exists|k: int| 0 <= k < s.len() && s[k] == '\n' {
            let k = choose|k: int| 0 <= k < s.len() && s[k] == '\n';
            if k < s.len() - 1 {
                assert(t[k] == '\n');
            }
        }
        if forall|k: int| 0 <= k < s.len() ==> s[k] != '\n' {
            assert forall|k: int| 0 <= k < t.len() implies t[k] != '\n' by {
                assert(t[k] == s[k]);
            }
            assert(t.push(s.last()) =~= s);
            assert(split_lines(s) =~= seq![s]);
        }
    } else {
        assert(s =~= Seq::<char>::empty());
        assert(split_lines(s) =~= seq![s]);
    }
}

proof fn lemma_first_line(s: Seq<char>, i: int)
    requires
        0 <= i <= s.len(),
        forall|k: int| 0 <= k < i ==> s[k] != '\n',
        i == s.len() || s[i] == '\n',
    ensures
        first_line(s) == s.take(i),
    decreases s.len(),
{
    if i == s.len() {
        lemma_split_lines_len(s);
        assert(s.take(i) =~= s);
    } else {
        // the first piece is fixed once a line feed has been seen
        let t = s.drop_last();
        if i == s.len() - 1 {
            lemma_split_lines_len(t);
            assert forall|k: int| 0 <= k < t.len() implies t[k] != '\n' by {
                assert(t[k] == s[k]);
            }
            assert(t =~= s.take(i));
        } else {
            assert forall|k: int| 0 <= k < i implies t[k] != '\n' by {
                assert(t[k] == s[k]);
            }
            assert(t[i] == s[i]);
            lemma_first_line(t, i);
            lemma_split_lines_len(t);
            assert(t[i] == '\n');
            lemma_split_first_stable(s);
            assert(t.take(i) =~= s.take(i));
        }
    }
}

fn item_preview_exec(item: &SessionListItem, id: &Vec<char>) -> (r: Vec<char>)
    requires
        id@ == item.identifier@,
        is_session_item(id@),
    ensures
        r@ == item_preview(*item),
{
    match &item.text {
        Some(t) => chars_of(t.as_str()),
        None => match session_suffix_exec(id) {
            Some(v) => v,
            None => Vec::new(),
        },
    }
}

fn fuzzy_name_match_exec(first_key: &Vec<char>, target_key: &Vec<char>) -> (r: bool)
    ensures
        r == fuzzy_name_match(first_key@, target_key@),
{
    first_key.len() > 0 && (chars_eq(first_key, target_key) || contains_chars(first_key, target_key)
        || contains_chars(target_key, first_key))
}

/// The full preview of `chat_name`'s entry in the session list: the entry
/// whose identifier is exactly "session_item_" + name if present, else the
/// first entry whose first line loosely names the chat.
pub fn read_session_preview_for_chat(chat_name: &str, items: &Vec<SessionListItem>) -> (r: Option<String>)
    ensures
        opt_view(r) == preview_for_chat_spec(chat_name@, items@),
{
    let name = chars_of(chat_name);
    let key = session_name_key_chars(&name);
    if key.len() == 0 {
        return None;
    }
    let mut target_id = chars_of(SESSION_ITEM_PREFIX);
    let trimmed = trim_chars(&name);
    let ghost prefix_view = target_id@;
    let mut t: usize = 0;
    while t < trimmed.len()
        invariant
            t <= trimmed.len(),
            target_id@ == prefix_view + trimmed@.take(t as int),
        decreases trimmed.len() - t,
    {
        target_id.push(trimmed[t]);
        proof {
            assert(trimmed@.take(t + 1) =~= trimmed@.take(t as int).push(trimmed@[t as int]));
        }
        t += 1;
    }
    assert(trimmed@.take(trimmed@.len() as int) =~= trimmed@);
    let mut exact: Option<Vec<char>> = None;
    let mut fuzzy: Option<Vec<char>> = None;
    let mut i: usize = 0;
    while i < items.len()
        invariant
            i <= items.len(),
            target_id@ == SESSION_ITEM_PREFIX@ + trim_spec(chat_name@),
            key@ == session_name_key(chat_name@),
            match exact {
                Some(v) => exact_preview(items@.take(i as int), target_id@) == Some(v@),
                None => exact_preview(items@.take(i as int), target_id@) is None,
            },
            match fuzzy {
                Some(v) => fuzzy_preview(items@.take(i as int), target_id@, key@) == Some(v@),
                None => fuzzy_preview(items@.take(i as int), target_id@, key@) is None,
            },
        decreases items.len() - i,
    {
        let item = &items[i];
        let id = chars_of(item.identifier.as_str());
        proof {
            assert(items@.take(i + 1).drop_last() =~= items@.take(i as int));
            assert(items@.take(i + 1).last() == items@[i as int]);
        }
        match session_suffix_exec(&id) {
            None => {},
            Some(_) => {
                let preview = item_preview_exec(item, &id);
                if chars_eq(&id, &target_id) {
                    exact = Some(preview);
                } else if fuzzy.is_none() {
                    let first = first_line_exec(&preview);
                    let first_key = session_name_key_chars(&first);
                    if fuzzy_name_match_exec(&first_key, &key) {
                        fuzzy = Some(preview);
                    }
                }
            },
        }
        i += 1;
    }
    assert(items@.take(items@.len() as int) =~= items@);
    match exact {
        Some(v) => Some(string_of(&v)),
        None => match fuzzy {
            Some(v) => Some(string_of(&v)),
            None => None,
        },
    }
}

/// What a snapshot holds, as plain sequences.
pub struct SnapshotView {
    pub chat_name: Seq<char>,
    pub raw_preview: Seq<char>,
    pub preview_body: Seq<char>,
    pub unread_count: u32,
    pub sender_hint: Option<Seq<char>>,
    pub has_sender_prefix: bool,
    pub is_group: bool,
}

impl View for SessionItemSnapshot {
    type V = SnapshotView;

    open spec fn view(&self) -> SnapshotView {
        SnapshotView {
            chat_name: self.chat_name@,
            raw_preview: self.raw_preview@,
            preview_body: self.preview_body@,
            unread_count: self.unread_count,
            sender_hint: opt_view(self.sender_hint),
            has_sender_prefix: self.has_sender_prefix,
            is_group: self.is_group,
        }
    }
}

/// The snapshot of a session named `name` whose entry shows `raw`.
pub open spec fn snapshot_spec(name: Seq<char>, raw: Seq<char>) -> SnapshotView {
    let parsed = preview_spec(raw);
    let has_prefix = match parsed.0 {
        Some(s) => trim_spec(s).len() > 0,
        None => false,
    };
    SnapshotView {
        chat_name: name,
        raw_preview: raw,
        preview_body: match parsed.1 {
            Some(b) => b,
            None => Seq::empty(),
        },
        unread_count: unread_count_spec(raw),
        sender_hint: parsed.0,
        has_sender_prefix: has_prefix,
        is_group: has_prefix,
    }
}

/// The trimmed session name of an entry, if its identifier names a session.
pub open spec fn item_name(item: SessionListItem) -> Option<Seq<char>> {
    if is_session_item(item.identifier@) {
        Some(trim_spec(session_suffix(item.identifier@)))
    } else {
        None
    }
}

/// Entry `j` yields a snapshot: it names a non-empty session no earlier entry names.
pub open spec fn snapshot_kept(items: Seq<SessionListItem>, j: int) -> bool {
    &&& item_name(items[j]) matches Some(n) && n.len() > 0
    &&& forall|k: int| 0 <= k < j ==> #[trigger] item_name(items[k]) != item_name(items[j])
}

/// The snapshots of `items[..n]`, in list order.
pub open spec fn snapshots_spec(items: Seq<SessionListItem>, n: int) -> Seq<SnapshotView>
    decreases n,
{
    if n <= 0 || n > items.len() {
        Seq::empty()
    } else {
        let p = snapshots_spec(items, n - 1);
        let it = items[n - 1];
        if snapshot_kept(items, n - 1) {
            let name = item_name(it)->0;
            let raw = match it.text {
                Some(t) => t@,
                None => name,
            };
            p.push(snapshot_spec(name, raw))
        } else {
            p
        }
    }
}

fn item_name_exec(item: &SessionListItem) -> (r: Option<Vec<char>>)
    ensures
        match r {
            Some(v) => item_name(*item) == Some(v@),
            None => item_name(*item) is None,
        },
{
    let id = chars_of(item.identifier.as_str());
    match session_suffix_exec(&id) {
        Some(v) => Some(trim_chars(&v)),
        None => None,
    }
}

/// One snapshot per session of the list (first entry wins for repeated
/// names), each with its preview parsed into sender, body and unread count.
pub fn read_session_snapshots(items: &Vec<SessionListItem>) -> (r: Vec<SessionItemSnapshot>)
    ensures
        r@.map_values(|x: SessionItemSnapshot| x@) == snapshots_spec(items@, items@.len() as int),
{
    let mut names: Vec<Option<Vec<char>>> = Vec::new();
    let mut i: usize = 0;
    while i < items.len()
        invariant
            i <= items.len(),
            names.len() == i,
            forall|k: int| 0 <= k < i ==> match #[trigger] names@[k] {
                Some(v) => item_name(items@[k]) == Some(v@),
                None => item_name(items@[k]) is None,
            },
        decreases items.len() - i,
    {
        names.push(item_name_exec(&items[i]));
        i += 1;
    }
    let mut r: Vec<SessionItemSnapshot> = Vec::new();
    let mut j: usize = 0;
    while j < items.len()
        invariant
            j <= items.len(),
            names.len() == items.len(),
            forall|k: int| 0 <= k < items.len() ==> match #[trigger] names@[k] {
                Some(v) => item_name(items@[k]) == Some(v@),
                None => item_name(items@[k]) is None,
            },
            r@.map_values(|x: SessionItemSnapshot| x@) == snapshots_spec(items@, j as int),
        decreases items.len() - j,
    {
        match &names[j] {
            None => {},
            Some(name) => {
                let mut dup = false;
                let mut k: usize = 0;
                while k < j
                    invariant
                        k <= j < items.len(),
                        names.len() == items.len(),
                        forall|m: int| 0 <= m < items.len() ==> match #[trigger] names@[m] {
                            Some(v) => item_name(items@[m]) == Some(v@),
                            None => item_name(items@[m]) is None,
                        },
                        item_name(items@[j as int]) == Some(name@),
                        dup == exists|m: int| 0 <= m < k && #[trigger] item_name(items@[m]) == item_name(items@[j as int]),
                    decreases j - k,
                {
                    match &names[k] {
                        Some(other) => {
                            if chars_eq(other, name) {
                                dup = true;
                            }
                        },
                        None => {},
                    }
                    k += 1;
                }
                if name.len() > 0 && !dup {
                    let raw = match &items[j].text {
                        Some(t) => t.clone(),
                        None => string_of(name),
                    };
                    let parsed = parse_session_preview_line(raw.as_str());
                    let unread_count = parse_session_unread_count(raw.as_str());
                    let has_sender_prefix = match &parsed.0 {
                        Some(s) => trim_chars(&chars_of(s.as_str())).len() > 0,
                        None => false,
                    };
                    let preview_body = match parsed.1 {
                        Some(b) => b,
                        None => String::new(),
                    };
                    let snap = SessionItemSnapshot {
                        chat_name: string_of(name),
                        raw_preview: raw,
                        preview_body,
                        unread_count,
                        sender_hint: parsed.0,
                        has_sender_prefix,
                        is_group: has_sender_prefix,
                    };
                    let ghost before = r@.map_values(|x: SessionItemSnapshot| x@);
                    r.push(snap);
                    assert(r@.map_values(|x: SessionItemSnapshot| x@) =~= before.push(snap@));
                }
            },
        }
        j += 1;
    }
    r
}


// ---------------------------------------------------------------------------
// Active chat header
// ---------------------------------------------------------------------------

/// Position of the first occurrence of `needle` in `hay` at or after `i`.
pub open spec fn first_occurrence(hay: Seq<char>, needle: Seq<char>, i: int) -> Option<int>
    decreases hay.len() - i,
{
    if i < 0 || i >= hay.len() || i > hay.len() - needle.len() {
        None
    } else if occurs_at(hay, needle, i) {
        Some(i)
    } else {
        first_occurrence(hay, needle, i + 1)
    }
}

/// The part of `hay` before the first `sep` (`hay.split(sep).next()`).
pub open spec fn before_first(hay: Seq<char>, sep: Seq<char>) -> Seq<char> {
    match first_occurrence(hay, sep, 0) {
        Some(i) => hay.take(i),
        None => hay,
    }
}

fn before_first_exec(hay: &Vec<char>, sep: &Vec<char>) -> (r: Vec<char>)
    requires
        sep.len() > 0,
    ensures
        r@ == before_first(hay@, sep@),
{
    let mut i: usize = 0;
    if sep.len() > hay.len() {
        return take_chars(hay, hay.len());
    }
    while i <= hay.len() - sep.len()
        invariant
            1 <= sep.len() <= hay.len(),
            i <= hay.len() - sep.len() + 1,
            first_occurrence(hay@, sep@, 0) == first_occurrence(hay@, sep@, i as int),
        decreases hay.len() - sep.len() + 1 - i,
    {
        let mut k: usize = 0;
        let mut same = true;
        while k < sep.len()
            invariant
                i + sep.len() <= hay.len(),
                k <= sep.len(),
                same == forall|m: int| 0 <= m < k ==> hay@[i + m] == sep@[m],
            decreases sep.len() - k,
        {
            if hay[i + k] != sep[k] {
                same = false;
            }
            k += 1;
        }
        if same {
            assert(hay@.subrange(i as int, i + sep.len()) =~= sep@);
            return take_chars(hay, i);
        } else {
            assert(!occurs_at(hay@, sep@, i as int)) by {
                let m = choose|m: int| 0 <= m < sep.len() && hay@[i + m] != sep@[m];
                assert(hay@.subrange(i as int, i + sep.len())[m] == hay@[i + m]);
            }
        }
        i += 1;
    }
    take_chars(hay, hay.len())
}

/// The chat name the header shows: the name label, else the big title, else
/// the part of the window title before " - " (unless that is the app's own
/// name), else "当前会话".
pub open spec fn active_chat_name_spec(
    name_label: Option<Seq<char>>,
    title_label: Option<Seq<char>>,
    window_title: Option<Seq<char>>,
) -> Seq<char> {
    if name_label matches Some(v) && clean_spec(v).len() > 0 {
        clean_spec(name_label->0)
    } else if title_label matches Some(v) && clean_spec(v).len() > 0 {
        clean_spec(title_label->0)
    } else if window_title matches Some(t) && contains_spec(t, " - "@) && {
        let n = trim_spec(before_first(t, " - "@));
        n.len() > 0 && n != "微信"@ && n != "WeChat"@
    } {
        trim_spec(before_first(window_title->0, " - "@))
    } else {
        "当前会话"@
    }
}

/// Chooses the active chat's name from the header texts: the value of
/// `current_chat_name_label`, the value of `big_title_line_h_view`, and the
/// window title ("name - 微信").
pub fn read_active_chat_name(name_label: &Option<String>, title_label: &Option<String>, window_title: &Option<String>) -> (r: String)
    ensures
        r@ == active_chat_name_spec(opt_view(*name_label), opt_view(*title_label), opt_view(*window_title)),
{
    match name_label {
        Some(v) => {
            let name = clean_text(v.as_str());
            let nv = chars_of(name.as_str());
            if nv.len() > 0 {
                return name;
            }
        },
        None => {},
    }
    match title_label {
        Some(v) => {
            let name = clean_text(v.as_str());
            let nv = chars_of(name.as_str());
            if nv.len() > 0 {
                return name;
            }
        },
        None => {},
    }
    match window_title {
        Some(t) => {
            let tv = chars_of(t.as_str());
            let sep = chars_of(" - ");
            proof {
                reveal_strlit(" - ");
            }
            if contains_chars(&tv, &sep) {
                let n = trim_chars(&before_first_exec(&tv, &sep));
                if n.len() > 0 && !eq_literal(&n, "微信") && !eq_literal(&n, "WeChat") {
                    return string_of(&n);
                }
            }
        },
        None => {},
    }
    String::from_str("当前会话")
}

/// The ASCII digits of `s`, in order.
pub open spec fn ascii_digits_of(s: Seq<char>) -> Seq<char> {
    drop_chars(s, |c: char| !is_ascii_digit(c))
}

/// The member count shown by `current_chat_count_label` ("(433)" gives 433):
/// its ASCII digits read as a number; nothing when the label is absent or
/// holds no parsable number.
pub fn read_active_chat_member_count(count_label: &Option<String>) -> (r: Option<u32>)
    ensures
        r == match opt_view(*count_label) {
            Some(v) => parse_u32_spec(ascii_digits_of(v)),
            None => None,
        },
{
    match count_label {
        Some(v) => {
            let chars = chars_of(v.as_str());
            let mut digits: Vec<char> = Vec::new();
            let mut i: usize = 0;
            while i < chars.len()
                invariant
                    i <= chars.len(),
                    digits@ == ascii_digits_of(chars@.take(i as int)),
                decreases chars.len() - i,
            {
                let c = chars[i];
                proof {
                    assert(chars@.take(i + 1).drop_last() =~= chars@.take(i as int));
                }
                if '0' <= c && c <= '9' {
                    digits.push(c);
                }
                i += 1;
            }
            assert(chars@.take(chars@.len() as int) =~= chars@);
            parse_u32(&digits)
        },
        None => None,
    }
}

// ---------------------------------------------------------------------------
// Hit-test probes beside a bubble
// ---------------------------------------------------------------------------

/// What a hit test at a point beside a bubble found.
pub struct HitProbe {
    pub role: String,
    pub identifier: String,
    pub title: String,
}

/// ASCII letters lowered (`char::to_ascii_lowercase`).
pub open spec fn ascii_lower_char(c: char) -> char {
    if 'A' <= c && c <= 'Z' {
        ((c as u32) + 32) as char
    } else {
        c
    }
}

/// `str::to_ascii_lowercase`.
pub open spec fn ascii_lower(s: Seq<char>) -> Seq<char> {
    s.map_values(|c: char| ascii_lower_char(c))
}

/// Mentions "avatar", "head" or "profile", ignoring ASCII case.
pub open spec fn avatar_hint_spec(value: Seq<char>) -> bool {
    let v = ascii_lower(value);
    contains_spec(v, "avatar"@) || contains_spec(v, "head"@) || contains_spec(v, "profile"@)
}

fn ascii_lower_exec(s: &Vec<char>) -> (r: Vec<char>)
    ensures
        r@ == ascii_lower(s@),
{
    let mut r: Vec<char> = Vec::new();
    let mut i: usize = 0;
    while i < s.len()
        invariant
            i <= s.len(),
            r@ == ascii_lower(s@.take(i as int)),
        decreases s.len() - i,
    {
        let c = s[i];
        let l = if 'A' <= c && c <= 'Z' {
            let b = c as u8 + 32;
            b as char
        } else {
            c
        };
        r.push(l);
        proof {
            assert(ascii_lower(s@.take(i + 1)) =~= ascii_lower(s@.take(i as int)).push(ascii_lower_char(c)));
        }
        i += 1;
    }
    assert(s@.take(s@.len() as int) =~= s@);
    r
}

/// Whether an identifier or title hints at an avatar image.
pub fn contains_avatar_hint(value: &str) -> (r: bool)
    ensures
        r == avatar_hint_spec(value@),
{
    let v = ascii_lower_exec(&chars_of(value));
    contains_chars(&v, &chars_of("avatar")) || contains_chars(&v, &chars_of("head")) || contains_chars(
        &v,
        &chars_of("profile"),
    )
}

/// The probe hit an avatar: an image, or something named like one.
pub open spec fn is_avatar_probe_spec(p: HitProbe) -> bool {
    p.role@ == "AXImage"@ || avatar_hint_spec(p.identifier@) || avatar_hint_spec(p.title@)
}

/// Whether a probe hit an avatar.
pub fn is_avatar_probe(probe: &HitProbe) -> (r: bool)
    ensures
        r == is_avatar_probe_spec(*probe),
{
    eq_literal(&chars_of(probe.role.as_str()), "AXImage") || contains_avatar_hint(probe.identifier.as_str())
        || contains_avatar_hint(probe.title.as_str())
}

/// The probe's title is the message text (after normalisation).
pub open spec fn probe_text_match_spec(p: HitProbe, content: Seq<char>) -> bool {
    p.title@.len() > 0 && normalize_spec(p.title@) == normalize_spec(content)
}

/// Whether a probe hit the bubble of `message_content`.
pub fn is_probe_text_match(probe: &HitProbe, message_content: &str) -> (r: bool)
    ensures
        r == probe_text_match_spec(*probe, message_content@),
{
    let t = chars_of(probe.title.as_str());
    if t.len() == 0 {
        return false;
    }
    chars_eq(&normalize_chars(&t), &normalize_chars(&chars_of(message_content)))
}

/// Side of a bubble from probes left and right of it: the side whose probe
/// alone hit the text, else the side whose probe alone hit an avatar.
/// `Some(true)` = right (self), `Some(false)` = left (other).
pub open spec fn side_from_probes_spec(content: Seq<char>, left: HitProbe, right: HitProbe) -> Option<bool> {
    let lm = probe_text_match_spec(left, content);
    let rm = probe_text_match_spec(right, content);
    let la = is_avatar_probe_spec(left);
    let ra = is_avatar_probe_spec(right);
    if lm != rm {
        Some(rm)
    } else if la != ra {
        Some(ra)
    } else {
        None
    }
}

/// Self/other hint of a bubble from hit tests on both sides of the list.
pub fn side_hint_from_hit_probes(message_content: &str, left_probe: &HitProbe, right_probe: &HitProbe) -> (r: Option<bool>)
    ensures
        r == side_from_probes_spec(message_content@, *left_probe, *right_probe),
{
    let left_match = is_probe_text_match(left_probe, message_content);
    let right_match = is_probe_text_match(right_probe, message_content);
    if left_match ^ right_match {
        return Some(right_match);
    }
    let left_avatar = is_avatar_probe(left_probe);
    let right_avatar = is_avatar_probe(right_probe);
    if left_avatar ^ right_avatar {
        return Some(right_avatar);
    }
    None
}

// ---------------------------------------------------------------------------
// Windows of the app
// ---------------------------------------------------------------------------

/// What the accessibility tree says of one window of the app.
pub struct WindowInfo {
    pub role: Option<String>,
    pub subrole: Option<String>,
    pub title: Option<String>,
    /// The window contains the `chat_message_list` element.
    pub has_message_list: bool,
}

/// Roles of menus, popovers, sheets and dialogs.
pub open spec fn is_popup_role(r: Seq<char>) -> bool {
    r == "AXMenu"@ || r == "AXPopover"@ || r == "AXSheet"@ || r == "AXDialog"@
}

fn is_popup_role_exec(r: &Vec<char>) -> (b: bool)
    ensures
        b == is_popup_role(r@),
{
    eq_literal(r, "AXMenu") || eq_literal(r, "AXPopover") || eq_literal(r, "AXSheet") || eq_literal(r, "AXDialog")
}

/// Names the app itself ("微信" or "WeChat").
pub open spec fn names_app(t: Seq<char>) -> bool {
    contains_spec(t, "微信"@) || contains_spec(t, "WeChat"@)
}

fn names_app_exec(t: &Vec<char>) -> (b: bool)
    ensures
        b == names_app(t@),
{
    contains_chars(t, &chars_of("微信")) || contains_chars(t, &chars_of("WeChat"))
}

/// A window that is a popup: a popup role, or a dialog / floating subrole
/// whose title (if any) does not name the app.
pub open spec fn window_is_popup(w: WindowInfo) -> bool {
    (w.role matches Some(r) && is_popup_role(r@)) || (w.subrole matches Some(s) && (s@ == "AXDialog"@
        || s@ == "AXSystemDialog"@ || s@ == "AXFloatingWindow"@) && match w.title {
        Some(t) => !names_app(t@),
        None => true,
    })
}

fn window_is_popup_exec(w: &WindowInfo) -> (b: bool)
    ensures
        b == window_is_popup(*w),
{
    let by_role = match &w.role {
        Some(r) => is_popup_role_exec(&chars_of(r.as_str())),
        None => false,
    };
    if by_role {
        return true;
    }
    match &w.subrole {
        Some(s) => {
            let sv = chars_of(s.as_str());
            if eq_literal(&sv, "AXDialog") || eq_literal(&sv, "AXSystemDialog") || eq_literal(&sv, "AXFloatingWindow") {
                match &w.title {
                    Some(t) => !names_app_exec(&chars_of(t.as_str())),
                    None => true,
                }
            } else {
                false
            }
        },
        None => false,
    }
}

/// A popup, context menu, sheet or dialog is showing: some window is a popup,
/// or some child of the application element has the menu role.
pub open spec fn popup_spec(windows: Seq<WindowInfo>, child_roles: Seq<Option<String>>) -> bool {
    (exists|i: int| 0 <= i < windows.len() && window_is_popup(#[trigger] windows[i])) || (exists|i: int|
        0 <= i < child_roles.len() && #[trigger] opt_view(child_roles[i]) == Some("AXMenu"@))
}

/// Whether the app shows a popup or menu (then tree reads are unreliable).
pub fn has_popup_or_menu(windows: &Vec<WindowInfo>, child_roles: &Vec<Option<String>>) -> (r: bool)
    ensures
        r == popup_spec(windows@, child_roles@),
{
    let mut i: usize = 0;
    while i < windows.len()
        invariant
            i <= windows.len(),
            forall|k: int| 0 <= k < i ==> !window_is_popup(#[trigger] windows@[k]),
        decreases windows.len() - i,
    {
        if window_is_popup_exec(&windows[i]) {
            return true;
        }
        i += 1;
    }
    let mut j: usize = 0;
    while j < child_roles.len()
        invariant
            j <= child_roles.len(),
            forall|k: int| 0 <= k < windows.len() ==> !window_is_popup(#[trigger] windows@[k]),
            forall|k: int| 0 <= k < j ==> #[trigger] opt_view(child_roles@[k]) != Some("AXMenu"@),
        decreases child_roles.len() - j,
    {
        match &child_roles[j] {
            Some(r) => {
                if eq_literal(&chars_of(r.as_str()), "AXMenu") {
                    assert(opt_view(child_roles@[j as int]) == Some("AXMenu"@));
                    return true;
                }
            },
            None => {},
        }
        j += 1;
    }
    false
}

/// A window that can be the main window: not a popup role, not a dialog subrole.
pub open spec fn main_candidate(w: WindowInfo) -> bool {
    !(w.role matches Some(r) && is_popup_role(r@)) && !(w.subrole matches Some(s) && (s@ == "AXDialog"@
        || s@ == "AXSystemDialog"@))
}

/// The window can be main and contains the message list.
pub open spec fn main_with_list(w: WindowInfo) -> bool {
    main_candidate(w) && w.has_message_list
}

/// The window can be main and its title names the app.
pub open spec fn main_named(w: WindowInfo) -> bool {
    main_candidate(w) && (w.title matches Some(t) && names_app(t@))
}

/// First index `>= i` of a window holding the message list.
pub open spec fn first_with_list(ws: Seq<WindowInfo>, i: int) -> Option<int>
    decreases ws.len() - i,
{
    if i < 0 || i >= ws.len() {
        None
    } else if main_with_list(ws[i]) {
        Some(i)
    } else {
        first_with_list(ws, i + 1)
    }
}

/// First index `>= i` of a window whose title names the app.
pub open spec fn first_named(ws: Seq<WindowInfo>, i: int) -> Option<int>
    decreases ws.len() - i,
{
    if i < 0 || i >= ws.len() {
        None
    } else if main_named(ws[i]) {
        Some(i)
    } else {
        first_named(ws, i + 1)
    }
}

/// First index `>= i` of a window that can be main.
pub open spec fn first_candidate(ws: Seq<WindowInfo>, i: int) -> Option<int>
    decreases ws.len() - i,
{
    if i < 0 || i >= ws.len() {
        None
    } else if main_candidate(ws[i]) {
        Some(i)
    } else {
        first_candidate(ws, i + 1)
    }
}

/// Which window is the main chat window: the first candidate holding the
/// message list, else the first whose title names the app, else the first
/// candidate; an error when there is no window or no candidate.
pub open spec fn main_window_spec(ws: Seq<WindowInfo>) -> Result<int, Seq<char>> {
    if ws.len() == 0 {
        Err("微信没有打开的窗口"@)
    } else {
        match first_with_list(ws, 0) {
            Some(i) => Ok(i),
            None => match first_named(ws, 0) {
                Some(i) => Ok(i),
                None => match first_candidate(ws, 0) {
                    Some(i) => Ok(i),
                    None => Err("微信没有可用的主窗口（可能被弹窗遮挡）"@),
                },
            },
        }
    }
}

fn main_candidate_exec(w: &WindowInfo) -> (b: bool)
    ensures
        b == main_candidate(*w),
{
    let popup_role = match &w.role {
        Some(r) => is_popup_role_exec(&chars_of(r.as_str())),
        None => false,
    };
    let dialog = match &w.subrole {
        Some(s) => {
            let sv = chars_of(s.as_str());
            eq_literal(&sv, "AXDialog") || eq_literal(&sv, "AXSystemDialog")
        },
        None => false,
    };
    !popup_role && !dialog
}

/// Index of the main chat window among the app's windows.
pub fn choose_main_window(windows: &Vec<WindowInfo>) -> (r: Result<usize, String>)
    ensures
        match r {
            Ok(i) => main_window_spec(windows@) == Ok::<int, Seq<char>>(i as int),
            Err(e) => main_window_spec(windows@) == Err::<int, Seq<char>>(e@),
        },
{
    if windows.len() == 0 {
        return Err(String::from_str("微信没有打开的窗口"));
    }
    let ghost ws = windows@;
    let mut i: usize = 0;
    while i < windows.len()
        invariant
            i <= windows.len(),
            ws == windows@,
            first_with_list(ws, 0) == first_with_list(ws, i as int),
        decreases windows.len() - i,
    {
        if main_candidate_exec(&windows[i]) && windows[i].has_message_list {
            return Ok(i);
        }
        i += 1;
    }
    let mut j: usize = 0;
    while j < windows.len()
        invariant
            j <= windows.len(),
            ws == windows@,
            first_with_list(ws, 0) is None,
            first_named(ws, 0) == first_named(ws, j as int),
        decreases windows.len() - j,
    {
        if main_candidate_exec(&windows[j]) {
            let named = match &windows[j].title {
                Some(t) => names_app_exec(&chars_of(t.as_str())),
                None => false,
            };
            if named {
                return Ok(j);
            }
        }
        j += 1;
    }
    let mut k: usize = 0;
    while k < windows.len()
        invariant
            k <= windows.len(),
            ws == windows@,
            first_with_list(ws, 0) is None,
            first_named(ws, 0) is None,
            first_candidate(ws, 0) == first_candidate(ws, k as int),
        decreases windows.len() - k,
    {
        if main_candidate_exec(&windows[k]) {
            return Ok(k);
        }
        k += 1;
    }
    Err(String::from_str("微信没有可用的主窗口（可能被弹窗遮挡）"))
}

// ---------------------------------------------------------------------------
// Message bubbles
// ---------------------------------------------------------------------------

/// Identifier of a message bubble in the chat list.
pub const CHAT_BUBBLE_ID: &'static str = "chat_bubble_item_view";

/// The texts of the bubbles among the children of the chat list, in order:
/// each bubble's title cleaned, bubbles without a title or with an empty
/// cleaned title dropped.
pub open spec fn bubble_texts(children: Seq<(String, Option<String>)>) -> Seq<Seq<char>>
    decreases children.len(),
{
    if children.len() == 0 {
        Seq::empty()
    } else {
        let p = bubble_texts(children.drop_last());
        let c = children.last();
        if c.0@ == CHAT_BUBBLE_ID@ && c.1 is Some && clean_spec(c.1->0@).len() > 0 {
            p.push(clean_spec(c.1->0@))
        } else {
            p
        }
    }
}

/// Every message text of the chat list is non-empty, has no U+200B, no
/// whitespace at either end, and only single plain spaces between words.
pub proof fn law_bubble_texts_shape(children: Seq<(String, Option<String>)>)
    ensures
        forall|i: int|
            0 <= i < bubble_texts(children).len() ==> {
                let t = #[trigger] bubble_texts(children)[i];
                &&& t.len() > 0
                &&& lacks(t, '\u{200b}')
                &&& spaced(t)
                &&& !is_ws(t.last())
            },
    decreases children.len(),
{
    if children.len() > 0 {
        let p = bubble_texts(children.drop_last());
        law_bubble_texts_shape(children.drop_last());
        let c = children.last();
        if c.1 is Some {
            law_clean_shape(c.1->0@);
        }
        let r = bubble_texts(children);
        assert forall|i: int| 0 <= i < r.len() implies {
            let t = #[trigger] r[i];
            &&& t.len() > 0
            &&& lacks(t, '\u{200b}')
            &&& spaced(t)
            &&& !is_ws(t.last())
        } by {
            if i < p.len() {
                assert(r[i] == p[i]);
            }
        }
    }
}

/// The message texts of the chat list, from its children's (identifier, title) pairs.
pub fn read_chat_messages(children: &Vec<(String, Option<String>)>) -> (r: Vec<String>)
    ensures
        r@.map_values(|s: String| s@) == bubble_texts(children@),
{
    let mut out: Vec<String> = Vec::new();
    let mut i: usize = 0;
    assert(children@.take(0) =~= Seq::<(String, Option<String>)>::empty());
    while i < children.len()
        invariant
            i <= children@.len(),
            out@.map_values(|s: String| s@) == bubble_texts(children@.take(i as int)),
        decreases children@.len() - i,
    {
        assert(children@.take(i + 1).drop_last() =~= children@.take(i as int));
        let id = chars_of(children[i].0.as_str());
        if eq_literal(&id, CHAT_BUBBLE_ID) {
            match &children[i].1 {
                Some(title) => {
                    let text = clean_text(title.as_str());
                    if !text.as_str().is_empty() {
                        let ghost before = out@;
                        out.push(text);
                        assert(out@.map_values(|s: String| s@) =~= before.map_values(|s: String| s@).push(
                            text@,
                        ));
                    }
                },
                None => {},
            }
        }
        i += 1;
    }
    assert(children@.take(children@.len() as int) =~= children@);
    out
}

/// Positions (among the children) of the bubbles that become messages.
pub open spec fn bubble_positions(children: Seq<(String, Option<String>)>) -> Seq<int>
    decreases children.len(),
{
    if children.len() == 0 {
        Seq::empty()
    } else {
        let p = bubble_positions(children.drop_last());
        let c = children.last();
        if c.0@ == CHAT_BUBBLE_ID@ && c.1 is Some && clean_spec(c.1->0@).len() > 0 {
            p.push(children.len() - 1)
        } else {
            p
        }
    }
}

proof fn lemma_bubble_positions(children: Seq<(String, Option<String>)>)
    ensures
        bubble_positions(children).len() == bubble_texts(children).len(),
        forall|i: int|
            0 <= i < bubble_positions(children).len() ==> {
                let j = #[trigger] bubble_positions(children)[i];
                &&& 0 <= j < children.len()
                &&& children[j].1 is Some
                &&& bubble_texts(children)[i] == clean_spec(children[j].1->0@)
            },
        forall|i: int, k: int|
            0 <= i < k < bubble_positions(children).len() ==> bubble_positions(children)[i]
                < bubble_positions(children)[k],
    decreases children.len(),
{
    if children.len() > 0 {
        lemma_bubble_positions(children.drop_last());
    }
}

/// Positions among the children of the bubbles that `read_chat_messages`
/// turns into messages, in order: message `i` comes from child `r[i]`.
pub fn bubble_message_positions(children: &Vec<(String, Option<String>)>) -> (r: Vec<usize>)
    ensures
        r@.len() == bubble_positions(children@).len(),
        forall|i: int| 0 <= i < r@.len() ==> r@[i] as int == #[trigger] bubble_positions(children@)[i],
{
    let mut out: Vec<usize> = Vec::new();
    let mut i: usize = 0;
    assert(children@.take(0) =~= Seq::<(String, Option<String>)>::empty());
    while i < children.len()
        invariant
            i <= children@.len(),
            out@.len() == bubble_positions(children@.take(i as int)).len(),
            forall|k: int| 0 <= k < out@.len() ==> out@[k] as int == #[trigger] bubble_positions(children@.take(i as int))[k],
        decreases children@.len() - i,
    {
        let ghost before = children@.take(i as int);
        assert(children@.take(i + 1).drop_last() =~= before);
        let id = chars_of(children[i].0.as_str());
        if eq_literal(&id, CHAT_BUBBLE_ID) {
            match &children[i].1 {
                Some(title) => {
                    let text = clean_text(title.as_str());
                    if !text.as_str().is_empty() {
                        out.push(i);
                    }
                },
                None => {},
            }
        }
        i += 1;
    }
    assert(children@.take(children@.len() as int) =~= children@);
    out
}

/// The messages of the chat list before any side is known: one per bubble
/// with a non-empty cleaned title, in order, with no sender, not the user's
/// own, and no side hint.
pub fn chat_messages_from_bubbles(children: &Vec<(String, Option<String>)>) -> (r: Vec<ChatMessage>)
    ensures
        r@.len() == bubble_texts(children@).len(),
        forall|i: int|
            0 <= i < r@.len() ==> {
                &&& (#[trigger] r@[i]).content@ == bubble_texts(children@)[i]
                &&& r@[i].sender@.len() == 0
                &&& !r@[i].is_self
                &&& r@[i].side_hint is None
            },
{
    let texts = read_chat_messages(children);
    let ghost tv = texts@.map_values(|s: String| s@);
    let mut out: Vec<ChatMessage> = Vec::new();
    let mut i: usize = 0;
    while i < texts.len()
        invariant
            i <= texts@.len(),
            tv == texts@.map_values(|s: String| s@),
            tv == bubble_texts(children@),
            out@.len() == i,
            forall|k: int|
                0 <= k < i ==> {
                    &&& (#[trigger] out@[k]).content@ == tv[k]
                    &&& out@[k].sender@.len() == 0
                    &&& !out@[k].is_self
                    &&& out@[k].side_hint is None
                },
        decreases texts@.len() - i,
    {
        assert(tv[i as int] == texts@[i as int]@);
        out.push(ChatMessage { sender: String::new(), content: texts[i].clone(), is_self: false, side_hint: None });
        i += 1;
    }
    out
}

/// The side hint of message `i` once the geometric hints are applied:
/// `hints[i]` when given, none otherwise.
pub open spec fn hinted_side(hints: Seq<Option<bool>>, i: int) -> Option<bool> {
    if 0 <= i < hints.len() {
        hints[i]
    } else {
        None
    }
}

/// Sets the side hint of each message from its geometric hint (`hints[i]`
/// for message `i`; messages beyond the hints are left alone).
pub fn apply_side_hints(messages: &mut Vec<ChatMessage>, hints: &Vec<Option<bool>>)
    ensures
        final(messages)@.len() == old(messages)@.len(),
        forall|i: int|
            0 <= i < old(messages)@.len() ==> {
                &&& (#[trigger] final(messages)@[i]).sender == old(messages)@[i].sender
                &&& final(messages)@[i].content == old(messages)@[i].content
                &&& final(messages)@[i].is_self == old(messages)@[i].is_self
                &&& final(messages)@[i].side_hint == if i < hints@.len() {
                    hints@[i]
                } else {
                    old(messages)@[i].side_hint
                }
            },
{
    let ghost orig = messages@;
    let mut i: usize = 0;
    while i < messages.len() && i < hints.len()
        invariant
            messages@.len() == orig.len(),
            i <= orig.len(),
            i <= hints@.len(),
            forall|k: int|
                0 <= k < orig.len() ==> {
                    &&& (#[trigger] messages@[k]).sender == orig[k].sender
                    &&& messages@[k].content == orig[k].content
                    &&& messages@[k].is_self == orig[k].is_self
                    &&& messages@[k].side_hint == if k < i {
                        hints@[k]
                    } else {
                        orig[k].side_hint
                    }
                },
        decreases orig.len() - i,
    {
        let m = ChatMessage {
            sender: messages[i].sender.clone(),
            content: messages[i].content.clone(),
            is_self: messages[i].is_self,
            side_hint: hints[i],
        };
        messages.set(i, m);
        i += 1;
    }
}

/// The side hint of message `i` after the hit probes: a message without a
/// hint takes the side its probes (`probes[i]`, when given) decide.
pub open spec fn probed_side(hint: Option<bool>, content: Seq<char>, probes: Seq<Option<(HitProbe, HitProbe)>>, i: int) -> Option<bool> {
    if hint is None && 0 <= i < probes.len() && probes[i] is Some {
        let pair = probes[i]->0;
        side_from_probes_spec(content, pair.0, pair.1)
    } else {
        hint
    }
}

/// Decides the side of each message still without a hint from the hit
/// probes on both sides of its bubble (`probes[i]` for message `i`).
pub fn fill_side_hints_from_probes(messages: &mut Vec<ChatMessage>, probes: &Vec<Option<(HitProbe, HitProbe)>>)
    ensures
        final(messages)@.len() == old(messages)@.len(),
        forall|i: int|
            0 <= i < old(messages)@.len() ==> {
                &&& (#[trigger] final(messages)@[i]).sender == old(messages)@[i].sender
                &&& final(messages)@[i].content == old(messages)@[i].content
                &&& final(messages)@[i].is_self == old(messages)@[i].is_self
                &&& final(messages)@[i].side_hint == probed_side(
                    old(messages)@[i].side_hint,
                    old(messages)@[i].content@,
                    probes@,
                    i,
                )
            },
{
    let ghost orig = messages@;
    let mut i: usize = 0;
    while i < messages.len()
        invariant
            messages@.len() == orig.len(),
            i <= orig.len(),
            forall|k: int|
                0 <= k < orig.len() ==> {
                    &&& (#[trigger] messages@[k]).sender == orig[k].sender
                    &&& messages@[k].content == orig[k].content
                    &&& messages@[k].is_self == orig[k].is_self
                    &&& messages@[k].side_hint == if k < i {
                        probed_side(orig[k].side_hint, orig[k].content@, probes@, k)
                    } else {
                        orig[k].side_hint
                    }
                },
        decreases orig.len() - i,
    {
        if messages[i].side_hint.is_none() && i < probes.len() {
            match &probes[i] {
                Some(pair) => {
                    let side = side_hint_from_hit_probes(messages[i].content.as_str(), &pair.0, &pair.1);
                    let m = ChatMessage {
                        sender: messages[i].sender.clone(),
                        content: messages[i].content.clone(),
                        is_self: messages[i].is_self,
                        side_hint: side,
                    };
                    messages.set(i, m);
                },
                None => {},
            }
        }
        i += 1;
    }
}

} // verus!
