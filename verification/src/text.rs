//! Character-level text primitives shared by every parser in the crate:
//! whitespace collapsing, zero-width stripping, trimming and prefix keys.
use vstd::prelude::*;

verus! {

/// The characters that carry the Unicode `White_Space` property
/// (the set that `char::is_whitespace` and `str::split_whitespace` use).
pub open spec fn is_ws(c: char) -> bool {
    let u = c as u32;
    (0x9 <= u && u <= 0xd) || u == 0x20 || u == 0x85 || u == 0xa0 || u == 0x1680 || (0x2000 <= u
        && u <= 0x200a) || u == 0x2028 || u == 0x2029 || u == 0x202f || u == 0x205f || u == 0x3000
}

/// Zero-width characters that chat UIs sprinkle into visible text.
pub open spec fn is_zero_width(c: char) -> bool {
    c == '\u{200b}' || c == '\u{200c}' || c == '\u{200d}' || c == '\u{feff}'
}

/// `s` with every character for which `p` holds removed, order kept.
pub open spec fn drop_chars(s: Seq<char>, p: spec_fn(char) -> bool) -> Seq<char>
    decreases s.len(),
{
    if s.len() == 0 {
        Seq::empty()
    } else if p(s.last()) {
        drop_chars(s.drop_last(), p)
    } else {
        drop_chars(s.drop_last(), p).push(s.last())
    }
}

/// The words of `s` (maximal runs of non-whitespace) joined by single spaces:
/// what `s.split_whitespace().collect::<Vec<_>>().join(" ")` yields.
pub open spec fn collapse_ws(s: Seq<char>) -> Seq<char>
    decreases s.len(),
{
    if s.len() == 0 {
        Seq::empty()
    } else {
        let t = s.drop_last();
        let c = s.last();
        let prev = collapse_ws(t);
        if is_ws(c) {
            prev
        } else if t.len() > 0 && !is_ws(t.last()) {
            prev.push(c)
        } else if prev.len() == 0 {
            seq![c]
        } else {
            prev.push(' ').push(c)
        }
    }
}

/// Zero-width characters removed, then whitespace runs collapsed and trimmed.
pub open spec fn normalize_spec(s: Seq<char>) -> Seq<char> {
    collapse_ws(drop_chars(s, |c: char| is_zero_width(c)))
}

/// Only U+200B removed, then whitespace runs collapsed and trimmed.
pub open spec fn clean_spec(s: Seq<char>) -> Seq<char> {
    collapse_ws(drop_chars(s, |c: char| c == '\u{200b}'))
}

/// The first `n` characters of `s` (all of them when it is shorter).
pub open spec fn take_at_most(s: Seq<char>, n: nat) -> Seq<char> {
    if s.len() <= n {
        s
    } else {
        s.take(n as int)
    }
}

/// Whitespace-collapsed text keyed by its first eight characters.
pub open spec fn prefix8_spec(s: Seq<char>) -> Seq<char> {
    take_at_most(normalize_spec(s), 8)
}

/// Number of leading whitespace characters of `s`.
pub open spec fn leading_ws(s: Seq<char>) -> nat
    decreases s.len(),
{
    if s.len() == 0 {
        0
    } else if is_ws(s[0]) {
        1 + leading_ws(s.skip(1))
    } else {
        0
    }
}

/// Number of trailing whitespace characters of `s`.
pub open spec fn trailing_ws(s: Seq<char>) -> nat
    decreases s.len(),
{
    if s.len() == 0 {
        0
    } else if is_ws(s.last()) {
        1 + trailing_ws(s.drop_last())
    } else {
        0
    }
}

/// `s` without leading whitespace (`str::trim_start`).
pub open spec fn trim_start_spec(s: Seq<char>) -> Seq<char> {
    s.skip(leading_ws(s) as int)
}

/// `s` without trailing whitespace (`str::trim_end`).
pub open spec fn trim_end_spec(s: Seq<char>) -> Seq<char> {
    s.take(s.len() - trailing_ws(s))
}

/// `s` without leading or trailing whitespace (`str::trim`).
pub open spec fn trim_spec(s: Seq<char>) -> Seq<char> {
    trim_end_spec(trim_start_spec(s))
}

/// `needle` occurs in `hay` as a contiguous run (`str::contains`).
pub open spec fn contains_spec(hay: Seq<char>, needle: Seq<char>) -> bool {
    exists|i: int| 0 <= i <= hay.len() - needle.len() && #[trigger] hay.subrange(i, i + needle.len()) == needle
}

/// `needle` occurs in `hay` starting at position `i`.
pub open spec fn occurs_at(hay: Seq<char>, needle: Seq<char>, i: int) -> bool {
    0 <= i <= hay.len() - needle.len() && hay.subrange(i, i + needle.len()) == needle
}

pub proof fn lemma_leading_ws_bound(s: Seq<char>)
    ensures
        leading_ws(s) <= s.len(),
        forall|k: int| 0 <= k < leading_ws(s) ==> is_ws(#[trigger] s[k]),
        leading_ws(s) < s.len() ==> !is_ws(s[leading_ws(s) as int]),
    decreases s.len(),
{
    if s.len() > 0 && is_ws(s[0]) {
        lemma_leading_ws_bound(s.skip(1));
        assert forall|k: int| 0 <= k < leading_ws(s) implies is_ws(#[trigger] s[k]) by {
            if k > 0 {
                assert(s[k] == s.skip(1)[k - 1]);
            }
        }
    }
}

pub proof fn lemma_trailing_ws_bound(s: Seq<char>)
    ensures
        trailing_ws(s) <= s.len(),
        forall|k: int| s.len() - trailing_ws(s) <= k < s.len() ==> is_ws(#[trigger] s[k]),
        trailing_ws(s) < s.len() ==> !is_ws(s[s.len() - trailing_ws(s) - 1]),
    decreases s.len(),
{
    if s.len() > 0 && is_ws(s.last()) {
        lemma_trailing_ws_bound(s.drop_last());
        assert forall|k: int| s.len() - trailing_ws(s) <= k < s.len() implies is_ws(#[trigger] s[k]) by {
            if k < s.len() - 1 {
                assert(s[k] == s.drop_last()[k]);
            }
        }
    }
}

/// No whitespace at the start, every whitespace character a plain space,
/// and no two whitespace characters in a row.
pub open spec fn spaced(r: Seq<char>) -> bool {
    &&& r.len() > 0 ==> !is_ws(r[0])
    &&& forall|i: int| 0 <= i < r.len() && is_ws(#[trigger] r[i]) ==> r[i] == ' '
    &&& forall|i: int| 0 < i < r.len() && is_ws(#[trigger] r[i]) ==> !is_ws(r[i - 1])
}

/// No zero-width character.
pub open spec fn no_zero_width(r: Seq<char>) -> bool {
    forall|i: int| 0 <= i < r.len() ==> !is_zero_width(#[trigger] r[i])
}

proof fn lemma_collapse_shape(s: Seq<char>)
    ensures
        spaced(collapse_ws(s)),
        collapse_ws(s).len() > 0 ==> !is_ws(collapse_ws(s).last()),
        no_zero_width(s) ==> no_zero_width(collapse_ws(s)),
    decreases s.len(),
{
    if s.len() > 0 {
        let t = s.drop_last();
        let c = s.last();
        let prev = collapse_ws(t);
        lemma_collapse_shape(t);
        if no_zero_width(s) {
            assert(no_zero_width(t)) by {
                assert forall|i: int| 0 <= i < t.len() implies !is_zero_width(#[trigger] t[i]) by {
                    assert(t[i] == s[i]);
                }
            }
            assert(!is_zero_width(s[s.len() - 1]));
        }
        let r = collapse_ws(s);
        if is_ws(c) {
        } else if t.len() > 0 && !is_ws(t.last()) {
            assert(r == prev.push(c));
            assert forall|i: int| 0 <= i < r.len() && is_ws(#[trigger] r[i]) implies r[i] == ' ' by {
                if i < prev.len() {
                    assert(r[i] == prev[i]);
                }
            }
            assert forall|i: int| 0 < i < r.len() && is_ws(#[trigger] r[i]) implies !is_ws(r[i - 1]) by {
                assert(r[i] == prev[i]);
                assert(r[i - 1] == prev[i - 1]);
            }
            if no_zero_width(s) {
                assert forall|i: int| 0 <= i < r.len() implies !is_zero_width(#[trigger] r[i]) by {
                    if i < prev.len() {
                        assert(r[i] == prev[i]);
                    }
                }
            }
        } else if prev.len() == 0 {
        } else {
            assert(r == prev.push(' ').push(c));
            assert forall|i: int| 0 <= i < r.len() && is_ws(#[trigger] r[i]) implies r[i] == ' ' by {
                if i < prev.len() {
                    assert(r[i] == prev[i]);
                }
            }
            assert forall|i: int| 0 < i < r.len() && is_ws(#[trigger] r[i]) implies !is_ws(r[i - 1]) by {
                if i < prev.len() {
                    assert(r[i] == prev[i]);
                    assert(r[i - 1] == prev[i - 1]);
                } else if i == prev.len() {
                    assert(r[i - 1] == prev.last());
                }
            }
            if no_zero_width(s) {
                assert forall|i: int| 0 <= i < r.len() implies !is_zero_width(#[trigger] r[i]) by {
                    if i < prev.len() {
                        assert(r[i] == prev[i]);
                    }
                }
            }
        }
    }
}

proof fn lemma_collapse_of_spaced(r: Seq<char>)
    requires
        spaced(r),
    ensures
        collapse_ws(r) == if r.len() > 0 && is_ws(r.last()) {
            r.drop_last()
        } else {
            r
        },
    decreases r.len(),
{
    if r.len() > 0 {
        let t = r.drop_last();
        let c = r.last();
        assert(spaced(t)) by {
            assert forall|i: int| 0 <= i < t.len() && is_ws(#[trigger] t[i]) implies t[i] == ' ' by {
                assert(t[i] == r[i]);
            }
            assert forall|i: int| 0 < i < t.len() && is_ws(#[trigger] t[i]) implies !is_ws(t[i - 1]) by {
                assert(t[i] == r[i]);
                assert(t[i - 1] == r[i - 1]);
            }
        }
        lemma_collapse_of_spaced(t);
        if is_ws(c) {
            if t.len() > 0 {
                assert(!is_ws(r[r.len() - 2]));
            }
        } else if t.len() > 0 && !is_ws(t.last()) {
            assert(collapse_ws(t).push(c) =~= r);
        } else if t.len() == 0 {
            assert(seq![c] =~= r);
        } else {
            assert(is_ws(r[r.len() - 2]));
            assert(t.last() == ' ');
            if t.len() == 1 {
                assert(is_ws(r[0]));
            }
            assert(t.drop_last().push(' ').push(c) =~= r);
        }
    }
}

proof fn lemma_drop_zero_width_shape(s: Seq<char>)
    ensures
        no_zero_width(drop_chars(s, |c: char| is_zero_width(c))),
        no_zero_width(s) ==> drop_chars(s, |c: char| is_zero_width(c)) == s,
    decreases s.len(),
{
    if s.len() > 0 {
        let t = s.drop_last();
        lemma_drop_zero_width_shape(t);
        let d = drop_chars(t, |c: char| is_zero_width(c));
        if !is_zero_width(s.last()) {
            let r = d.push(s.last());
            assert forall|i: int| 0 <= i < r.len() implies !is_zero_width(#[trigger] r[i]) by {
                if i < d.len() {
                    assert(r[i] == d[i]);
                }
            }
        }
        if no_zero_width(s) {
            assert(no_zero_width(t)) by {
                assert forall|i: int| 0 <= i < t.len() implies !is_zero_width(#[trigger] t[i]) by {
                    assert(t[i] == s[i]);
                }
            }
            assert(!is_zero_width(s[s.len() - 1]));
            assert(t.push(s.last()) =~= s);
        }
    }
}

/// Normalising a text twice gives the same text as normalising it once.
pub proof fn law_normalize_idempotent(s: Seq<char>)
    ensures
        normalize_spec(normalize_spec(s)) == normalize_spec(s),
{
    let d = drop_chars(s, |c: char| is_zero_width(c));
    lemma_drop_zero_width_shape(s);
    lemma_collapse_shape(d);
    let n = collapse_ws(d);
    lemma_drop_zero_width_shape(n);
    lemma_collapse_of_spaced(n);
}

/// The prefix key of a text and of its normalised form are the same.
pub proof fn law_prefix8_of_normalized(s: Seq<char>)
    ensures
        prefix8_spec(normalize_spec(s)) == prefix8_spec(s),
{
    law_normalize_idempotent(s);
}

/// The words of `s`: its maximal runs of non-whitespace characters, in
/// order (what `str::split_whitespace` yields).
pub open spec fn words(s: Seq<char>) -> Seq<Seq<char>>
    decreases s.len(),
{
    if s.len() == 0 {
        Seq::empty()
    } else {
        let t = s.drop_last();
        let c = s.last();
        let w = words(t);
        if is_ws(c) {
            w
        } else if t.len() > 0 && !is_ws(t.last()) {
            w.drop_last().push(w.last().push(c))
        } else {
            w.push(seq![c])
        }
    }
}

proof fn lemma_collapse_nonempty(s: Seq<char>)
    requires
        s.len() > 0,
        !is_ws(s.last()),
    ensures
        collapse_ws(s).len() > 0,
        !is_ws(collapse_ws(s).last()),
{
    let t = s.drop_last();
    let prev = collapse_ws(t);
    if t.len() > 0 && !is_ws(t.last()) {
        assert(collapse_ws(s) == prev.push(s.last()));
    } else if prev.len() == 0 {
        assert(collapse_ws(s) == seq![s.last()]);
    } else {
        assert(collapse_ws(s) == prev.push(' ').push(s.last()));
    }
}

proof fn lemma_collapse_keeps_words(s: Seq<char>)
    ensures
        words(collapse_ws(s)) == words(s),
    decreases s.len(),
{
    if s.len() > 0 {
        let t = s.drop_last();
        let c = s.last();
        let prev = collapse_ws(t);
        lemma_collapse_keeps_words(t);
        lemma_collapse_shape(t);
        if is_ws(c) {
        } else if t.len() > 0 && !is_ws(t.last()) {
            lemma_collapse_nonempty(t);
            let r = prev.push(c);
            assert(r.drop_last() =~= prev);
            assert(words(r) == words(prev).drop_last().push(words(prev).last().push(c)));
        } else if prev.len() == 0 {
            let r = seq![c];
            assert(r.drop_last() =~= Seq::<char>::empty());
            assert(words(r) == words(Seq::<char>::empty()).push(seq![c]));
            assert(words(prev) == words(Seq::<char>::empty()));
        } else {
            let sp = prev.push(' ');
            let r = sp.push(c);
            assert(r.drop_last() =~= sp);
            assert(sp.drop_last() =~= prev);
            assert(is_ws(' '));
            assert(words(sp) == words(prev));
            assert(words(r) == words(sp).push(seq![c]));
        }
    }
}

/// The normalised text keeps the words of the text once its zero-width
/// characters are removed: the same words, in the same order.
pub proof fn law_normalize_keeps_words(s: Seq<char>)
    ensures
        words(normalize_spec(s)) == words(drop_chars(s, |c: char| is_zero_width(c))),
{
    lemma_collapse_keeps_words(drop_chars(s, |c: char| is_zero_width(c)));
}

/// A normalised text has no zero-width character, no whitespace at either
/// end, and its only whitespace are single plain spaces between words.
pub proof fn law_normalize_shape(s: Seq<char>)
    ensures
        no_zero_width(normalize_spec(s)),
        spaced(normalize_spec(s)),
        normalize_spec(s).len() > 0 ==> !is_ws(normalize_spec(s).last()),
{
    let d = drop_chars(s, |c: char| is_zero_width(c));
    lemma_drop_zero_width_shape(s);
    lemma_collapse_shape(d);
}

/// `x` does not occur in `r`.
pub open spec fn lacks(r: Seq<char>, x: char) -> bool {
    forall|i: int| 0 <= i < r.len() ==> #[trigger] r[i] != x
}

proof fn lemma_drop_chars_lacks(s: Seq<char>, x: char)
    ensures
        lacks(drop_chars(s, |c: char| c == x), x),
    decreases s.len(),
{
    if s.len() > 0 {
        lemma_drop_chars_lacks(s.drop_last(), x);
        let d = drop_chars(s.drop_last(), |c: char| c == x);
        if s.last() != x {
            let r = d.push(s.last());
            assert forall|i: int| 0 <= i < r.len() implies #[trigger] r[i] != x by {
                if i < d.len() {
                    assert(r[i] == d[i]);
                }
            }
        }
    }
}

proof fn lemma_collapse_lacks(s: Seq<char>, x: char)
    requires
        lacks(s, x),
        !is_ws(x),
    ensures
        lacks(collapse_ws(s), x),
    decreases s.len(),
{
    if s.len() > 0 {
        let t = s.drop_last();
        assert(lacks(t, x)) by {
            assert forall|i: int| 0 <= i < t.len() implies #[trigger] t[i] != x by {
                assert(t[i] == s[i]);
            }
        }
        assert(s.last() == s[s.len() - 1]);
        lemma_collapse_lacks(t, x);
        let prev = collapse_ws(t);
        let r = collapse_ws(s);
        assert forall|i: int| 0 <= i < r.len() implies #[trigger] r[i] != x by {
            if i < prev.len() && r.len() >= prev.len() && r.subrange(0, prev.len() as int) == prev {
                assert(r[i] == prev[i]);
            }
        }
        if is_ws(s.last()) {
        } else if t.len() > 0 && !is_ws(t.last()) {
            assert(r.subrange(0, prev.len() as int) =~= prev);
        } else if prev.len() == 0 {
        } else {
            assert(r.subrange(0, prev.len() as int) =~= prev);
            assert(is_ws(' '));
        }
    }
}

/// A cleaned text has no U+200B, no whitespace at either end, and its only
/// whitespace are single plain spaces between words.
pub proof fn law_clean_shape(s: Seq<char>)
    ensures
        lacks(clean_spec(s), '\u{200b}'),
        spaced(clean_spec(s)),
        clean_spec(s).len() > 0 ==> !is_ws(clean_spec(s).last()),
{
    let d = drop_chars(s, |c: char| c == '\u{200b}');
    lemma_drop_chars_lacks(s, '\u{200b}');
    assert(!is_ws('\u{200b}'));
    lemma_collapse_lacks(d, '\u{200b}');
    lemma_collapse_shape(d);
}

/// No whitespace at either end.
pub open spec fn trimmed(t: Seq<char>) -> bool {
    t.len() > 0 ==> !is_ws(t[0]) && !is_ws(t.last())
}

/// A trimmed text has no whitespace at either end.
pub proof fn lemma_trim_shape(s: Seq<char>)
    ensures
        trimmed(trim_spec(s)),
{
    lemma_leading_ws_bound(s);
    let t = trim_start_spec(s);
    lemma_trailing_ws_bound(t);
    let r = trim_spec(s);
    if r.len() > 0 {
        assert(r[0] == s[leading_ws(s) as int]);
        assert(r.last() == t[t.len() - trailing_ws(t) - 1]);
    }
}

/// Number of bytes the UTF-8 encoding of `c` takes.
pub open spec fn utf8_width(c: char) -> nat {
    let u = c as u32;
    if u < 0x80 {
        1
    } else if u < 0x800 {
        2
    } else if u < 0x10000 {
        3
    } else {
        4
    }
}

/// Length in bytes of the UTF-8 encoding of `s` (`str::len`).
pub open spec fn utf8_len(s: Seq<char>) -> nat
    decreases s.len(),
{
    if s.len() == 0 {
        0
    } else {
        utf8_len(s.drop_last()) + utf8_width(s.last())
    }
}

proof fn lemma_utf8_len_monotone(s: Seq<char>, i: int)
    requires
        0 <= i <= s.len(),
    ensures
        utf8_len(s.take(i)) <= utf8_len(s),
    decreases s.len() - i,
{
    if i < s.len() {
        assert(s.take(i + 1).drop_last() =~= s.take(i));
        lemma_utf8_len_monotone(s, i + 1);
    } else {
        assert(s.take(i) =~= s);
    }
}

/// Whether the UTF-8 encoding of `v` takes at most `limit` bytes.
pub fn utf8_len_at_most(v: &Vec<char>, limit: usize) -> (r: bool)
    ensures
        r == (utf8_len(v@) <= limit),
{
    let mut total: usize = 0;
    let mut i: usize = 0;
    while i < v.len()
        invariant
            i <= v.len(),
            total == utf8_len(v@.take(i as int)),
            total <= limit,
        decreases v.len() - i,
    {
        let u = v[i] as u32;
        let w: usize = if u < 0x80 {
            1
        } else if u < 0x800 {
            2
        } else if u < 0x10000 {
            3
        } else {
            4
        };
        proof {
            assert(v@.take(i + 1).drop_last() =~= v@.take(i as int));
        }
        if w > limit - total {
            proof {
                lemma_utf8_len_monotone(v@, i + 1);
            }
            return false;
        }
        total = total + w;
        i += 1;
    }
    assert(v@.take(v@.len() as int) =~= v@);
    true
}

/// Executable test of the `White_Space` property.
pub fn is_whitespace_char(c: char) -> (r: bool)
    ensures
        r == is_ws(c),
{
    let u = c as u32;
    (0x9 <= u && u <= 0xd) || u == 0x20 || u == 0x85 || u == 0xa0 || u == 0x1680 || (0x2000 <= u
        && u <= 0x200a) || u == 0x2028 || u == 0x2029 || u == 0x202f || u == 0x205f || u == 0x3000
}

/// The characters of `s`, in order.
pub(crate) fn chars_of(s: &str) -> (v: Vec<char>)
    ensures
        v@ == s@,
{
    let mut v: Vec<char> = Vec::new();
    for c in it: s.chars()
        invariant
            v.len() == it.index(),
            v@ == s@.take(v.len() as int),
            it.seq() == s@,
    {
        v.push(c);
        proof {
            assert(s@.take(v.len() as int) =~= s@.take(v.len() - 1).push(c));
        }
    }
    assert(v@ =~= s@);
    v
}

/// Builds a `String` from characters with std's `FromIterator<char>` for
/// `String` (`Iterator::collect`); the contract claims that the string holds
/// exactly these characters, in this order.
#[verifier::external_body]
pub(crate) fn string_of(v: &Vec<char>) -> (s: String)
    ensures
        s@ == v@,
{
    v.iter().collect()
}

/// `v` with every zero-width character removed.
pub fn drop_zero_width(v: &Vec<char>) -> (r: Vec<char>)
    ensures
        r@ == drop_chars(v@, |c: char| is_zero_width(c)),
{
    let mut r: Vec<char> = Vec::new();
    let mut i: usize = 0;
    while i < v.len()
        invariant
            i <= v.len(),
            r@ == drop_chars(v@.take(i as int), |c: char| is_zero_width(c)),
        decreases v.len() - i,
    {
        let c = v[i];
        if !(c == '\u{200b}' || c == '\u{200c}' || c == '\u{200d}' || c == '\u{feff}') {
            r.push(c);
        }
        proof {
            assert(v@.take(i + 1).drop_last() =~= v@.take(i as int));
        }
        i += 1;
    }
    assert(v@.take(v.len() as int) =~= v@);
    r
}

/// `v` with every U+200B removed.
pub fn drop_zwsp(v: &Vec<char>) -> (r: Vec<char>)
    ensures
        r@ == drop_chars(v@, |c: char| c == '\u{200b}'),
{
    let mut r: Vec<char> = Vec::new();
    let mut i: usize = 0;
    while i < v.len()
        invariant
            i <= v.len(),
            r@ == drop_chars(v@.take(i as int), |c: char| c == '\u{200b}'),
        decreases v.len() - i,
    {
        let c = v[i];
        if c != '\u{200b}' {
            r.push(c);
        }
        proof {
            assert(v@.take(i + 1).drop_last() =~= v@.take(i as int));
        }
        i += 1;
    }
    assert(v@.take(v.len() as int) =~= v@);
    r
}

/// Words of `v` joined by single spaces.
pub fn collapse_chars(v: &Vec<char>) -> (r: Vec<char>)
    ensures
        r@ == collapse_ws(v@),
{
    let mut r: Vec<char> = Vec::new();
    let mut i: usize = 0;
    while i < v.len()
        invariant
            i <= v.len(),
            r@ == collapse_ws(v@.take(i as int)),
        decreases v.len() - i,
    {
        let c = v[i];
        proof {
            assert(v@.take(i + 1).drop_last() =~= v@.take(i as int));
            assert(v@.take(i + 1).last() == c);
            if i > 0 {
                assert(v@.take(i as int).last() == v@[i - 1]);
            }
        }
        if is_whitespace_char(c) {
        } else if i > 0 && !is_whitespace_char(v[i - 1]) {
            r.push(c);
        } else if r.len() == 0 {
            r.push(c);
        } else {
            r.push(' ');
            r.push(c);
        }
        i += 1;
    }
    assert(v@.take(v.len() as int) =~= v@);
    r
}

/// The first `n` characters of `v` (all of them when it is shorter).
pub fn take_chars(v: &Vec<char>, n: usize) -> (r: Vec<char>)
    ensures
        r@ == take_at_most(v@, n as nat),
{
    let mut r: Vec<char> = Vec::new();
    let mut i: usize = 0;
    while i < v.len() && i < n
        invariant
            i <= v.len(),
            i <= n,
            r@ == v@.take(i as int),
        decreases v.len() - i,
    {
        r.push(v[i]);
        proof {
            assert(v@.take(i + 1) =~= v@.take(i as int).push(v@[i as int]));
        }
        i += 1;
    }
    assert(v.len() <= n ==> v@.take(i as int) =~= v@);
    r
}

/// `v` without leading and trailing whitespace.
pub fn trim_chars(v: &Vec<char>) -> (r: Vec<char>)
    ensures
        r@ == trim_spec(v@),
{
    proof {
        lemma_leading_ws_bound(v@);
    }
    let mut start: usize = 0;
    while start < v.len() && is_whitespace_char(v[start])
        invariant
            start <= v.len(),
            start <= leading_ws(v@),
            forall|k: int| 0 <= k < start ==> is_ws(#[trigger] v@[k]),
            leading_ws(v@) <= v@.len(),
            forall|k: int| 0 <= k < leading_ws(v@) ==> is_ws(#[trigger] v@[k]),
            leading_ws(v@) < v@.len() ==> !is_ws(v@[leading_ws(v@) as int]),
        decreases v.len() - start,
    {
        start += 1;
    }
    assert(start == leading_ws(v@));
    let ghost t = trim_start_spec(v@);
    proof {
        lemma_trailing_ws_bound(t);
    }
    let mut end: usize = v.len();
    while end > start && is_whitespace_char(v[end - 1])
        invariant
            start <= end <= v.len(),
            t == v@.skip(start as int),
            v.len() - end <= trailing_ws(t),
            trailing_ws(t) <= t.len(),
            forall|k: int| t.len() - trailing_ws(t) <= k < t.len() ==> is_ws(#[trigger] t[k]),
            trailing_ws(t) < t.len() ==> !is_ws(t[t.len() - trailing_ws(t) - 1]),
        decreases end - start,
    {
        assert(t[end - 1 - start] == v@[end - 1]);
        end -= 1;
    }
    assert(v.len() - end == trailing_ws(t)) by {
        if v.len() - end < trailing_ws(t) {
            assert(end > start);
            assert(t[end - 1 - start] == v@[end - 1]);
        }
    }
    let mut r: Vec<char> = Vec::new();
    let mut i: usize = start;
    while i < end
        invariant
            start <= i <= end <= v.len(),
            r@ == v@.subrange(start as int, i as int),
        decreases end - i,
    {
        r.push(v[i]);
        proof {
            assert(v@.subrange(start as int, i + 1) =~= v@.subrange(start as int, i as int).push(v@[i as int]));
        }
        i += 1;
    }
    assert(r@ =~= trim_spec(v@));
    r
}

/// Whether `prefix` is a prefix of `v`.
pub fn starts_with_chars(v: &Vec<char>, prefix: &Vec<char>) -> (r: bool)
    ensures
        r == (prefix@.len() <= v@.len() && v@.take(prefix@.len() as int) == prefix@),
{
    if prefix.len() > v.len() {
        return false;
    }
    let mut i: usize = 0;
    while i < prefix.len()
        invariant
            prefix.len() <= v.len(),
            i <= prefix.len(),
            v@.take(i as int) == prefix@.take(i as int),
        decreases prefix.len() - i,
    {
        if v[i] != prefix[i] {
            assert(v@.take(prefix@.len() as int)[i as int] != prefix@[i as int]);
            return false;
        }
        proof {
            assert(v@.take(i + 1) =~= v@.take(i as int).push(v@[i as int]));
            assert(prefix@.take(i + 1) =~= prefix@.take(i as int).push(prefix@[i as int]));
        }
        i += 1;
    }
    assert(prefix@.take(prefix@.len() as int) =~= prefix@);
    true
}

/// Whether `needle` occurs at position `at` of `hay`.
fn occurs_at_exec(hay: &Vec<char>, needle: &Vec<char>, at: usize) -> (r: bool)
    requires
        at + needle.len() <= hay.len(),
    ensures
        r == occurs_at(hay@, needle@, at as int),
{
    let mut i: usize = 0;
    while i < needle.len()
        invariant
            at + needle.len() <= hay.len(),
            i <= needle.len(),
            forall|k: int| 0 <= k < i ==> hay@[at + k] == needle@[k],
        decreases needle.len() - i,
    {
        if hay[at + i] != needle[i] {
            assert(hay@.subrange(at as int, at + needle.len())[i as int] != needle@[i as int]);
            return false;
        }
        i += 1;
    }
    assert(hay@.subrange(at as int, at + needle.len()) =~= needle@);
    true
}

/// Whether `needle` occurs in `hay` as a contiguous run.
pub fn contains_chars(hay: &Vec<char>, needle: &Vec<char>) -> (r: bool)
    ensures
        r == contains_spec(hay@, needle@),
{
    if needle.len() > hay.len() {
        return false;
    }
    if needle.len() == 0 {
        assert(hay@.subrange(0int, 0int + needle@.len()) =~= needle@);
        return true;
    }
    let mut i: usize = 0;
    while i <= hay.len() - needle.len()
        invariant
            1 <= needle.len() <= hay.len(),
            i <= hay.len() - needle.len() + 1,
            forall|j: int| 0 <= j < i ==> !occurs_at(hay@, needle@, j),
        decreases hay.len() - needle.len() + 1 - i,
    {
        if occurs_at_exec(hay, needle, i) {
            assert(hay@.subrange(i as int, i + needle.len()) == needle@);
            return true;
        }
        i += 1;
    }
    assert forall|j: int| 0 <= j <= hay.len() - needle.len() implies #[trigger] hay@.subrange(j, j + needle.len()) != needle@ by {
        assert(!occurs_at(hay@, needle@, j));
    }
    false
}

/// Whether `a` and `b` hold the same characters.
pub fn chars_eq(a: &Vec<char>, b: &Vec<char>) -> (r: bool)
    ensures
        r == (a@ == b@),
{
    if a.len() != b.len() {
        return false;
    }
    let mut i: usize = 0;
    while i < a.len()
        invariant
            a.len() == b.len(),
            i <= a.len(),
            forall|k: int| 0 <= k < i ==> a@[k] == b@[k],
        decreases a.len() - i,
    {
        if a[i] != b[i] {
            return false;
        }
        i += 1;
    }
    assert(a@ =~= b@);
    true
}

} // verus!
