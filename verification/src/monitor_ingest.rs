//! Ingest rules of the chat monitor: which messages of a fresh poll are new,
//! who sent them, and whether a session preview deserves to be forwarded.
use vstd::prelude::*;

use crate::adapter::ax_reader::{
    eq_literal, normalize_chars, prefix8_chars, parse_session_preview_line, preview_spec, ChatMessage, SessionItemSnapshot, SnapshotView,
};
use crate::bindings::{lowercase_of, to_lowercase};
use crate::keyed::{
    find_key, insert_entry, key_count, keyed_map, keys_unique, lemma_lookup_none, lemma_unique_dom_len,
    lookup,
};
use crate::text::{
    trim_chars, trim_spec, chars_eq, chars_of, normalize_spec, prefix8_spec, starts_with_chars, string_of, take_chars,
};

verus! {

/// Outcome of comparing two successive polls of the chat list.
/// `anchor_failed` says the ordered anchor search found nothing and the
/// result comes from the multiset fallback.
pub struct DiffResult {
    pub new_messages: Vec<ChatMessage>,
    pub anchor_failed: bool,
}

/// The texts that identify messages, in order.
pub open spec fn contents(ms: Seq<ChatMessage>) -> Seq<Seq<char>> {
    ms.map_values(|m: ChatMessage| m.content@)
}

/// `a` and `b` carry the same texts, position by position.
pub open spec fn same_contents(a: Seq<ChatMessage>, b: Seq<ChatMessage>) -> bool {
    contents(a) == contents(b)
}

/// The tail of `old` of length `k` occurs in `new` at `idx` (texts compared).
pub open spec fn window_matches(old: Seq<ChatMessage>, new: Seq<ChatMessage>, k: int, idx: int) -> bool {
    &&& 0 <= idx
    &&& 1 <= k <= old.len()
    &&& idx + k <= new.len()
    &&& contents(new).subrange(idx, idx + k) == contents(old).subrange(old.len() - k, old.len() as int)
}

/// Largest anchor size tried: three messages, or fewer when `old` is shorter.
pub open spec fn max_anchor(old: Seq<ChatMessage>) -> int {
    if old.len() < 3 {
        old.len() as int
    } else {
        3
    }
}

/// Earliest position at or after `idx` where the size-`k` tail anchor occurs.
pub open spec fn first_match_from(old: Seq<ChatMessage>, new: Seq<ChatMessage>, k: int, idx: int) -> Option<int>
    decreases new.len() - idx,
{
    if idx < 0 || idx >= new.len() || idx + k > new.len() {
        None
    } else if window_matches(old, new, k, idx) {
        Some(idx)
    } else {
        first_match_from(old, new, k, idx + 1)
    }
}

/// Anchor search trying sizes `k`, `k - 1`, ..., 1: the messages after the
/// first occurrence of the largest tail of `old` that occurs in `new`.
pub open spec fn anchor_from(old: Seq<ChatMessage>, new: Seq<ChatMessage>, k: int) -> Option<Seq<ChatMessage>>
    decreases k,
{
    if k <= 0 {
        None
    } else {
        match first_match_from(old, new, k, 0) {
            Some(idx) => Some(new.skip(idx + k)),
            None => anchor_from(old, new, k - 1),
        }
    }
}

/// What the progressive anchor search yields.
pub open spec fn anchor_spec(old: Seq<ChatMessage>, new: Seq<ChatMessage>) -> Option<Seq<ChatMessage>> {
    if old.len() == 0 || new.len() == 0 {
        Some(Seq::empty())
    } else {
        anchor_from(old, new, max_anchor(old))
    }
}

/// Number of messages of `s` whose text is `c`.
pub open spec fn count_content(s: Seq<ChatMessage>, c: Seq<char>) -> nat
    decreases s.len(),
{
    if s.len() == 0 {
        0
    } else {
        count_content(s.drop_last(), c) + if s.last().content@ == c {
            1nat
        } else {
            0nat
        }
    }
}

/// Message `j` of `new` survives the multiset difference: at least as many
/// earlier messages of `new` share its text as `old` holds of that text.
pub open spec fn bag_kept(old: Seq<ChatMessage>, new: Seq<ChatMessage>, j: int) -> bool {
    count_content(new.take(j), new[j].content@) >= count_content(old, new[j].content@)
}

/// `new` minus the multiset of texts of `old`, in the order of `new`: the
/// first occurrences of each text are cancelled by `old`, later ones stay.
pub open spec fn bag_diff_spec(old: Seq<ChatMessage>, new: Seq<ChatMessage>) -> Seq<ChatMessage>
    decreases new.len(),
{
    if new.len() == 0 {
        Seq::empty()
    } else {
        let prev = bag_diff_spec(old, new.drop_last());
        if bag_kept(old, new, new.len() - 1) {
            prev.push(new.last())
        } else {
            prev
        }
    }
}

/// The messages `diff_messages` reports as new, with its fallback flag.
pub open spec fn diff_spec(old: Seq<ChatMessage>, new: Seq<ChatMessage>) -> (Seq<ChatMessage>, bool) {
    if old.len() == 0 || new.len() == 0 {
        (Seq::empty(), false)
    } else if new.len() == old.len() && same_contents(old, new) {
        (Seq::empty(), false)
    } else if new.len() > old.len() && same_contents(new.take(old.len() as int), old) {
        (new.skip(old.len() as int), false)
    } else {
        match anchor_spec(old, new) {
            Some(r) => (r, false),
            None => (bag_diff_spec(old, new), true),
        }
    }
}

/// A field-by-field copy of a message.
pub fn copy_message(m: &ChatMessage) -> (r: ChatMessage)
    ensures
        r == *m,
{
    ChatMessage {
        sender: m.sender.clone(),
        content: m.content.clone(),
        is_self: m.is_self,
        side_hint: m.side_hint,
    }
}

/// Copies of `s[from..]`.
fn copy_suffix(s: &[ChatMessage], from: usize) -> (r: Vec<ChatMessage>)
    requires
        from <= s@.len(),
    ensures
        r@ == s@.skip(from as int),
{
    let mut r: Vec<ChatMessage> = Vec::new();
    let mut i: usize = from;
    while i < s.len()
        invariant
            from <= i <= s@.len(),
            r@ == s@.subrange(from as int, i as int),
        decreases s@.len() - i,
    {
        r.push(copy_message(&s[i]));
        proof {
            assert(s@.subrange(from as int, i + 1) =~= s@.subrange(from as int, i as int).push(s@[i as int]));
        }
        i += 1;
    }
    assert(s@.subrange(from as int, s@.len() as int) =~= s@.skip(from as int));
    r
}

/// Whether `a[a_from..a_from+len]` and `b[b_from..b_from+len]` carry the same texts.
fn range_contents_match(a: &[ChatMessage], a_from: usize, b: &[ChatMessage], b_from: usize, len: usize) -> (r: bool)
    requires
        a_from + len <= a@.len(),
        b_from + len <= b@.len(),
    ensures
        r == (contents(a@).subrange(a_from as int, a_from + len) == contents(b@).subrange(
            b_from as int,
            b_from + len,
        )),
{
    let a_len = a.len();
    let b_len = b.len();
    let ghost sa = contents(a@).subrange(a_from as int, a_from + len);
    let ghost sb = contents(b@).subrange(b_from as int, b_from + len);
    let mut i: usize = 0;
    while i < len
        invariant
            a_from + len <= a_len == a@.len(),
            b_from + len <= b_len == b@.len(),
            i <= len,
            sa == contents(a@).subrange(a_from as int, a_from + len),
            sb == contents(b@).subrange(b_from as int, b_from + len),
            forall|k: int| 0 <= k < i ==> #[trigger] sa[k] == sb[k],
        decreases len - i,
    {
        assert(sa[i as int] == a@[a_from + i].content@);
        assert(sb[i as int] == b@[b_from + i].content@);
        if a[a_from + i].content != b[b_from + i].content {
            return false;
        }
        i += 1;
    }
    assert(sa =~= sb);
    true
}

/// Whether two polls carry the same texts in the same order.
pub fn contents_match(a: &[ChatMessage], b: &[ChatMessage]) -> (r: bool)
    ensures
        r == same_contents(a@, b@),
{
    if a.len() != b.len() {
        assert(contents(a@).len() != contents(b@).len());
        return false;
    }
    let r = range_contents_match(a, 0, b, 0, a.len());
    assert(contents(a@).subrange(0, a@.len() as int) =~= contents(a@));
    assert(contents(b@).subrange(0, b@.len() as int) =~= contents(b@));
    r
}

proof fn lemma_first_match_none(old: Seq<ChatMessage>, new: Seq<ChatMessage>, k: int, idx: int)
    requires
        0 <= idx,
        idx + k > new.len(),
    ensures
        first_match_from(old, new, k, idx) is None,
{
}

/// Earliest position at or after `start` where the size-`k` tail of `old` occurs in `new`.
fn find_anchor(old: &[ChatMessage], new: &[ChatMessage], k: usize, start: usize) -> (r: Option<usize>)
    requires
        1 <= k <= old@.len(),
        start <= new@.len(),
    ensures
        r matches Some(i) ==> first_match_from(old@, new@, k as int, start as int) == Some(i as int)
            && i + k <= new@.len(),
        r is None ==> first_match_from(old@, new@, k as int, start as int) is None,
    decreases new@.len() - start,
{
    if k > new.len() - start {
        return None;
    }
    if range_contents_match(new, start, old, old.len() - k, k) {
        return Some(start);
    }
    find_anchor(old, new, k, start + 1)
}

/// Progressive anchor search: the messages of `new` after the first occurrence
/// of the longest tail of `old` (three, two, then one message) found in `new`.
pub fn anchor_diff_progressive(old: &[ChatMessage], new: &[ChatMessage]) -> (r: Option<Vec<ChatMessage>>)
    ensures
        match r {
            Some(v) => anchor_spec(old@, new@) == Some(v@),
            None => anchor_spec(old@, new@) is None,
        },
{
    if old.len() == 0 || new.len() == 0 {
        return Some(Vec::new());
    }
    let largest: usize = if old.len() < 3 {
        old.len()
    } else {
        3
    };
    let mut k: usize = largest;
    while k >= 1
        invariant
            old@.len() > 0,
            new@.len() > 0,
            k <= largest,
            largest == max_anchor(old@),
            anchor_spec(old@, new@) == anchor_from(old@, new@, k as int),
        decreases k,
    {
        let found = find_anchor(old, new, k, 0);
        assert(anchor_from(old@, new@, k as int) == match first_match_from(old@, new@, k as int, 0) {
            Some(idx) => Some(new@.skip(idx + k)),
            None => anchor_from(old@, new@, k - 1),
        });
        match found {
            Some(idx) => {
                let n = new.len();
                return Some(copy_suffix(new, idx + k));
            },
            None => {},
        }
        k -= 1;
    }
    None
}

/// Number of messages of `s[..end]` whose text is `c`.
fn count_content_exec(s: &[ChatMessage], end: usize, c: &String) -> (r: usize)
    requires
        end <= s@.len(),
    ensures
        r == count_content(s@.take(end as int), c@),
{
    let mut n: usize = 0;
    let mut i: usize = 0;
    while i < end
        invariant
            end <= s@.len(),
            i <= end,
            n == count_content(s@.take(i as int), c@),
            n <= i,
        decreases end - i,
    {
        proof {
            assert(s@.take(i + 1).drop_last() =~= s@.take(i as int));
        }
        if s[i].content == *c {
            n += 1;
        }
        i += 1;
    }
    n
}

/// Multiset fallback: the messages of `new` left after cancelling, text by
/// text, as many occurrences as `old` holds; order of `new` kept.
pub fn bag_diff(old: &[ChatMessage], new: &[ChatMessage]) -> (r: Vec<ChatMessage>)
    ensures
        r@ == bag_diff_spec(old@, new@),
{
    let mut r: Vec<ChatMessage> = Vec::new();
    let mut j: usize = 0;
    while j < new.len()
        invariant
            j <= new@.len(),
            r@ == bag_diff_spec(old@, new@.take(j as int)),
        decreases new@.len() - j,
    {
        let in_old = count_content_exec(old, old.len(), &new[j].content);
        let seen = count_content_exec(new, j, &new[j].content);
        proof {
            let t = new@.take(j + 1);
            assert(t.drop_last() =~= new@.take(j as int));
            assert(t.take(j as int) =~= new@.take(j as int));
            assert(old@.take(old@.len() as int) =~= old@);
            assert(t.last() == new@[j as int]);
        }
        if seen >= in_old {
            r.push(copy_message(&new[j]));
        }
        j += 1;
    }
    assert(new@.take(new@.len() as int) =~= new@);
    r
}

/// Compares two successive polls and returns the messages that are new:
/// nothing when the texts are unchanged, the appended tail when `new`
/// extends `old`, the part after the tail anchor when one is found, and the
/// multiset difference otherwise (flagged by `anchor_failed`).
pub fn diff_messages(old: &[ChatMessage], new: &[ChatMessage]) -> (r: DiffResult)
    ensures
        (r.new_messages@, r.anchor_failed) == diff_spec(old@, new@),
{
    if old.len() == 0 || new.len() == 0 {
        return DiffResult { new_messages: Vec::new(), anchor_failed: false };
    }
    if new.len() == old.len() && contents_match(old, new) {
        return DiffResult { new_messages: Vec::new(), anchor_failed: false };
    }
    if new.len() > old.len() {
        let old_len = old.len();
        let head_matches = range_contents_match(new, 0, old, 0, old_len);
        proof {
            assert(contents(new@).subrange(0, old_len as int) =~= contents(new@.take(old_len as int)));
            assert(contents(old@).subrange(0, old_len as int) =~= contents(old@));
        }
        if head_matches {
            return DiffResult { new_messages: copy_suffix(new, old_len), anchor_failed: false };
        }
    }
    match anchor_diff_progressive(old, new) {
        Some(result) => DiffResult { new_messages: result, anchor_failed: false },
        None => DiffResult { new_messages: bag_diff(old, new), anchor_failed: true },
    }
}

proof fn lemma_first_match_some(old: Seq<ChatMessage>, new: Seq<ChatMessage>, k: int, idx: int)
    requires
        first_match_from(old, new, k, idx) is Some,
    ensures
        idx <= first_match_from(old, new, k, idx)->0,
        window_matches(old, new, k, first_match_from(old, new, k, idx)->0),
    decreases new.len() - idx,
{
    if !(idx < 0 || idx >= new.len() || idx + k > new.len()) && !window_matches(old, new, k, idx) {
        lemma_first_match_some(old, new, k, idx + 1);
    }
}

proof fn lemma_first_match_none_all(old: Seq<ChatMessage>, new: Seq<ChatMessage>, k: int, idx: int)
    requires
        0 <= idx,
        k >= 1,
        first_match_from(old, new, k, idx) is None,
    ensures
        forall|j: int| idx <= j ==> !#[trigger] window_matches(old, new, k, j),
    decreases new.len() - idx,
{
    if !(idx >= new.len() || idx + k > new.len()) {
        lemma_first_match_none_all(old, new, k, idx + 1);
    }
}

proof fn lemma_anchor_from_suffix(old: Seq<ChatMessage>, new: Seq<ChatMessage>, k: int)
    requires
        anchor_from(old, new, k) is Some,
    ensures
        exists|j: int| 0 <= j <= new.len() && anchor_from(old, new, k)->0 == #[trigger] new.skip(j),
    decreases k,
{
    if k > 0 {
        match first_match_from(old, new, k, 0) {
            Some(idx) => {
                lemma_first_match_some(old, new, k, 0);
                assert(0 <= idx + k <= new.len() && anchor_from(old, new, k)->0 == new.skip(idx + k));
            },
            None => {
                lemma_anchor_from_suffix(old, new, k - 1);
            },
        }
    }
}

proof fn lemma_anchor_from_none(old: Seq<ChatMessage>, new: Seq<ChatMessage>, k: int)
    requires
        k >= 1,
        anchor_from(old, new, k) is None,
    ensures
        first_match_from(old, new, 1, 0) is None,
    decreases k,
{
    if k > 1 {
        lemma_anchor_from_none(old, new, k - 1);
    }
}

/// When the new poll is the old one with messages appended, exactly the
/// appended messages are reported, without the fallback.
pub proof fn law_diff_reports_appended_tail(old: Seq<ChatMessage>, new: Seq<ChatMessage>)
    requires
        old.len() > 0,
        new.len() > old.len(),
        same_contents(new.take(old.len() as int), old),
    ensures
        diff_spec(old, new) == (new.skip(old.len() as int), false),
{
}

/// A poll whose texts equal the previous poll's yields no new message.
pub proof fn law_diff_unchanged_is_empty(old: Seq<ChatMessage>, new: Seq<ChatMessage>)
    requires
        same_contents(old, new),
    ensures
        diff_spec(old, new) == (Seq::<ChatMessage>::empty(), false),
{
    assert(contents(old).len() == contents(new).len());
}

/// Unless the multiset fallback is used, the reported messages are a tail of
/// the new poll: order is kept and nothing before the anchor is reported.
pub proof fn law_diff_without_fallback_is_suffix(old: Seq<ChatMessage>, new: Seq<ChatMessage>)
    requires
        !diff_spec(old, new).1,
    ensures
        exists|j: int| 0 <= j <= new.len() && diff_spec(old, new).0 == #[trigger] new.skip(j),
{
    if old.len() == 0 || new.len() == 0 || (new.len() == old.len() && same_contents(old, new)) {
        assert(new.skip(new.len() as int) =~= Seq::<ChatMessage>::empty());
    } else if new.len() > old.len() && same_contents(new.take(old.len() as int), old) {
        assert(diff_spec(old, new).0 == new.skip(old.len() as int));
    } else {
        lemma_anchor_from_suffix(old, new, max_anchor(old));
    }
}

/// The fallback is taken only when the last old message's text occurs
/// nowhere in the new poll (no anchor of any size can match).
pub proof fn law_diff_fallback_only_without_last_text(old: Seq<ChatMessage>, new: Seq<ChatMessage>)
    requires
        diff_spec(old, new).1,
    ensures
        old.len() > 0,
        new.len() > 0,
        forall|j: int| 0 <= j < new.len() ==> #[trigger] new[j].content@ != old.last().content@,
{
    lemma_anchor_from_none(old, new, max_anchor(old));
    lemma_first_match_none_all(old, new, 1, 0);
    assert forall|j: int| 0 <= j < new.len() implies #[trigger] new[j].content@ != old.last().content@ by {
        assert(!window_matches(old, new, 1, j));
        if new[j].content@ == old.last().content@ {
            assert(contents(new).subrange(j, j + 1) =~= contents(old).subrange(old.len() - 1, old.len() as int));
        }
    }
}

proof fn lemma_first_match_is(old: Seq<ChatMessage>, new: Seq<ChatMessage>, k: int, start: int, idx: int)
    requires
        0 <= start <= idx,
        window_matches(old, new, k, idx),
        forall|j: int| start <= j < idx ==> !#[trigger] window_matches(old, new, k, j),
    ensures
        first_match_from(old, new, k, start) == Some(idx),
    decreases idx - start,
{
    if start < idx {
        assert(!window_matches(old, new, k, start));
        lemma_first_match_is(old, new, k, start + 1, idx);
    }
}

proof fn lemma_first_match_earliest(old: Seq<ChatMessage>, new: Seq<ChatMessage>, k: int, start: int)
    requires
        first_match_from(old, new, k, start) is Some,
    ensures
        forall|j: int|
            start <= j < first_match_from(old, new, k, start)->0 ==> !#[trigger] window_matches(old, new, k, j),
    decreases new.len() - start,
{
    if !(start < 0 || start >= new.len() || start + k > new.len()) && !window_matches(old, new, k, start) {
        lemma_first_match_earliest(old, new, k, start + 1);
    }
}

/// Which tail (size `k`, at `idx`) `anchor_from(old, new, top)` settled on,
/// and that no longer tail up to `top` occurs anywhere.
proof fn lemma_anchor_from_choice(old: Seq<ChatMessage>, new: Seq<ChatMessage>, top: int) -> (w: (int, int))
    requires
        1 <= top <= old.len(),
        anchor_from(old, new, top) is Some,
    ensures
        1 <= w.0 <= top,
        window_matches(old, new, w.0, w.1),
        forall|j: int| 0 <= j < w.1 ==> !#[trigger] window_matches(old, new, w.0, j),
        anchor_from(old, new, top) == Some(new.skip(w.1 + w.0)),
        forall|k2: int, j: int| w.0 < k2 <= top && 0 <= j ==> !#[trigger] window_matches(old, new, k2, j),
    decreases top,
{
    match first_match_from(old, new, top, 0) {
        Some(idx) => {
            lemma_first_match_some(old, new, top, 0);
            lemma_first_match_earliest(old, new, top, 0);
            (top, idx)
        },
        None => {
            lemma_first_match_none_all(old, new, top, 0);
            let w = lemma_anchor_from_choice(old, new, top - 1);
            assert forall|k2: int, j: int| w.0 < k2 <= top && 0 <= j implies !#[trigger] window_matches(
                old,
                new,
                k2,
                j,
            ) by {
                if k2 == top {
                    assert(!window_matches(old, new, top, j));
                }
            }
            w
        },
    }
}

/// The anchor search tries the longest tail of the old poll first: the
/// reported messages are those after the first occurrence, in the new poll,
/// of some tail of `old` of `k` messages (at most three), and no longer tail
/// of at most three messages occurs anywhere in the new poll.
pub proof fn law_anchor_prefers_longest_tail(old: Seq<ChatMessage>, new: Seq<ChatMessage>)
    requires
        old.len() > 0,
        new.len() > 0,
        anchor_spec(old, new) is Some,
    ensures
        exists|k: int, idx: int|
            {
                &&& 1 <= k <= 3
                &&& k <= old.len()
                &&& 0 <= idx
                &&& idx + k <= new.len()
                &&& contents(new).subrange(idx, idx + k) == contents(old).subrange(old.len() - k, old.len() as int)
                &&& forall|j: int|
                    0 <= j < idx ==> #[trigger] contents(new).subrange(j, j + k) != contents(old).subrange(
                        old.len() - k,
                        old.len() as int,
                    )
                &&& anchor_spec(old, new) == Some(#[trigger] new.skip(idx + k))
                &&& forall|k2: int, j: int|
                    k < k2 <= 3 && k2 <= old.len() && 0 <= j && j + k2 <= new.len() ==> #[trigger] contents(
                        new,
                    ).subrange(j, j + k2) != contents(old).subrange(old.len() - k2, old.len() as int)
            },
{
    let top = if old.len() < 3 {
        old.len() as int
    } else {
        3
    };
    let w = lemma_anchor_from_choice(old, new, top);
    let (k, idx) = w;
    assert forall|j: int|
        0 <= j < idx implies #[trigger] contents(new).subrange(j, j + k) != contents(old).subrange(
        old.len() - k,
        old.len() as int,
    ) by {
        assert(!window_matches(old, new, k, j));
    }
    assert forall|k2: int, j: int|
        k < k2 <= 3 && k2 <= old.len() && 0 <= j && j + k2 <= new.len() implies #[trigger] contents(new).subrange(
        j,
        j + k2,
    ) != contents(old).subrange(old.len() - k2, old.len() as int) by {
        assert(!window_matches(old, new, k2, j));
    }
    assert(anchor_spec(old, new) == Some(new.skip(idx + k)));
}

/// When the last three messages of the old poll (all of them, if fewer:
/// `k` of them) occur one after another in the new poll, first at `idx`,
/// the anchor search reports exactly the messages after that occurrence.
pub proof fn law_anchor_full_tail(old: Seq<ChatMessage>, new: Seq<ChatMessage>, k: int, idx: int)
    requires
        old.len() > 0,
        k == if old.len() < 3 {
            old.len() as int
        } else {
            3
        },
        0 <= idx,
        idx + k <= new.len(),
        contents(new).subrange(idx, idx + k) == contents(old).subrange(old.len() - k, old.len() as int),
        forall|j: int|
            0 <= j < idx ==> #[trigger] contents(new).subrange(j, j + k) != contents(old).subrange(
                old.len() - k,
                old.len() as int,
            ),
    ensures
        anchor_spec(old, new) == Some(new.skip(idx + k)),
{
    assert forall|j: int| 0 <= j < idx implies !#[trigger] window_matches(old, new, k, j) by {
        assert(contents(new).subrange(j, j + k) != contents(old).subrange(old.len() - k, old.len() as int));
    }
    lemma_first_match_is(old, new, k, 0, idx);
    assert(new.len() > 0);
}

/// When the new poll neither repeats nor extends the old one and the last
/// three old messages (all of them, if fewer: `k` of them) occur one after
/// another in it, first at `idx`, `diff_messages` reports exactly the
/// messages after that occurrence, without the fallback.
pub proof fn law_diff_after_full_tail(old: Seq<ChatMessage>, new: Seq<ChatMessage>, k: int, idx: int)
    requires
        old.len() > 0,
        !(new.len() == old.len() && contents(new) == contents(old)),
        !(new.len() > old.len() && contents(new).take(old.len() as int) == contents(old)),
        k == if old.len() < 3 {
            old.len() as int
        } else {
            3
        },
        0 <= idx,
        idx + k <= new.len(),
        contents(new).subrange(idx, idx + k) == contents(old).subrange(old.len() - k, old.len() as int),
        forall|j: int|
            0 <= j < idx ==> #[trigger] contents(new).subrange(j, j + k) != contents(old).subrange(
                old.len() - k,
                old.len() as int,
            ),
    ensures
        diff_spec(old, new) == (new.skip(idx + k), false),
{
    law_anchor_full_tail(old, new, k, idx);
    if new.len() > old.len() {
        assert(contents(new.take(old.len() as int)) =~= contents(new).take(old.len() as int));
    }
}

/// The multiset fallback keeps, for every text, exactly the surplus of the
/// new poll over the old one.
pub proof fn law_bag_diff_counts(old: Seq<ChatMessage>, new: Seq<ChatMessage>, c: Seq<char>)
    ensures
        count_content(bag_diff_spec(old, new), c) == if count_content(new, c) >= count_content(old, c) {
            (count_content(new, c) - count_content(old, c)) as nat
        } else {
            0nat
        },
    decreases new.len(),
{
    if new.len() > 0 {
        law_bag_diff_counts(old, new.drop_last(), c);
        let j = new.len() - 1;
        assert(new.take(j) =~= new.drop_last());
        let p = bag_diff_spec(old, new.drop_last());
        if bag_kept(old, new, j) {
            assert(p.push(new.last()).drop_last() =~= p);
        }
    }
}


// ---------------------------------------------------------------------------
// Chat kind and small forwarding rules
// ---------------------------------------------------------------------------

/// Whether the current chat was inferred to be a group chat, a private chat,
/// or is not known yet.
#[derive(Clone, Copy, Debug, PartialEq, Eq, Structural)]
pub enum ChatKind {
    Group,
    Private,
    Unknown,
}

/// The external label of a chat kind.
pub open spec fn kind_label(k: ChatKind) -> Seq<char> {
    match k {
        ChatKind::Group => "group"@,
        ChatKind::Private => "private"@,
        ChatKind::Unknown => "unknown"@,
    }
}

impl ChatKind {
    /// "group", "private" or "unknown".
    pub fn as_str(self) -> (r: &'static str)
        ensures
            r@ == kind_label(self),
    {
        match self {
            ChatKind::Group => "group",
            ChatKind::Private => "private",
            ChatKind::Unknown => "unknown",
        }
    }
}

/// Where a message's self/other decision came from: "prefix" when it
/// carries a sender, "fallback" otherwise.
pub fn self_source_label(msg: &ChatMessage) -> (r: &'static str)
    ensures
        r@ == if msg.sender@.len() > 0 {
            "prefix"@
        } else {
            "fallback"@
        },
{
    if !msg.sender.as_str().is_empty() {
        "prefix"
    } else {
        "fallback"
    }
}

/// What the session-preview mode last saw of one chat.
pub struct SessionListenState {
    pub last_preview_body: String,
    pub last_unread: u32,
}

impl Default for SessionListenState {
    fn default() -> (r: Self)
        ensures
            r.last_preview_body@ == Seq::<char>::empty(),
            r.last_unread == 0,
    {
        SessionListenState { last_preview_body: String::new(), last_unread: 0 }
    }
}

/// A snapshot is worth processing when its preview body is not empty and
/// differs from the body seen last time.
pub fn should_emit_session_snapshot(snapshot: &SessionItemSnapshot, state: &SessionListenState) -> (r: bool)
    ensures
        r == (snapshot.preview_body@.len() > 0 && snapshot.preview_body@ != state.last_preview_body@),
{
    if snapshot.preview_body.as_str().is_empty() {
        return false;
    }
    !(snapshot.preview_body == state.last_preview_body)
}

/// With right-panel details on, the active chat's preview is not stored a
/// second time; every other preview is forwarded.
pub fn should_forward_session_preview(
    use_right_panel_details: bool,
    snapshot_chat_name: &str,
    active_chat_name: &str,
) -> (r: bool)
    ensures
        r == (!use_right_panel_details || snapshot_chat_name@ != active_chat_name@),
{
    if !use_right_panel_details {
        return true;
    }
    !chars_eq(&chars_of(snapshot_chat_name), &chars_of(active_chat_name))
}

/// A chat is pushed to the sidebar only under a non-empty name.
pub fn should_forward_sidebar_chat(event_chat_name: &str) -> (r: bool)
    ensures
        r == (event_chat_name@.len() > 0),
{
    !event_chat_name.is_empty()
}

/// Longest error text shown before it is cut.
pub const MAX_ERROR_CHARS: usize = 120;

/// The first 120 characters of `message`, followed by "..." when it was longer.
pub open spec fn short_error_spec(message: Seq<char>) -> Seq<char> {
    if message.len() > MAX_ERROR_CHARS {
        message.take(MAX_ERROR_CHARS as int) + "..."@
    } else {
        message
    }
}

/// Cuts an error text down for display.
pub fn short_error_text(message: &str) -> (r: String)
    ensures
        r@ == short_error_spec(message@),
{
    let v = chars_of(message);
    let shortened = string_of(&take_chars(&v, MAX_ERROR_CHARS));
    if v.len() > MAX_ERROR_CHARS {
        shortened.concat("...")
    } else {
        shortened
    }
}

/// The normalised text cut to `max_chars` characters, with '…' appended
/// when something was cut.
pub open spec fn log_text_spec(text: Seq<char>, max_chars: nat) -> Seq<char> {
    let n = normalize_spec(text);
    if n.len() > max_chars {
        n.take(max_chars as int).push('…')
    } else {
        n
    }
}

/// A short, normalised rendering of a message for log lines.
pub fn trim_for_log(text: &str, max_chars: usize) -> (r: String)
    ensures
        r@ == log_text_spec(text@, max_chars as nat),
{
    let n = normalize_chars(&chars_of(text));
    let mut out = take_chars(&n, max_chars);
    if n.len() > max_chars {
        out.push('…');
    }
    string_of(&out)
}

// ---------------------------------------------------------------------------
// Sender defaults
// ---------------------------------------------------------------------------

/// `b` is `a` with its sender set to `sender` and its self flag to `is_self`.
pub open spec fn retagged(a: ChatMessage, b: ChatMessage, sender: Seq<char>, is_self: bool) -> bool {
    &&& b.sender@ == sender
    &&& b.is_self == is_self
    &&& b.content == a.content
    &&& b.side_hint == a.side_hint
}

/// A private (or unknown) chat names the other party: a message from the
/// other side with no sender gets the chat name.
pub open spec fn gets_default_sender(m: ChatMessage, chat_kind: ChatKind) -> bool {
    chat_kind != ChatKind::Group && !m.is_self && m.sender@.len() == 0
}

/// Gives every message from the other side without a sender the chat name as
/// sender, unless the chat is a group, where a wrong guess would pollute the
/// speaker summaries.
pub fn apply_sender_defaults(messages: &mut Vec<ChatMessage>, chat_name: &str, chat_kind: ChatKind)
    ensures
        final(messages)@.len() == old(messages)@.len(),
        forall|i: int|
            0 <= i < old(messages)@.len() ==> if gets_default_sender(old(messages)@[i], chat_kind) {
                retagged(old(messages)@[i], #[trigger] final(messages)@[i], chat_name@, false)
            } else {
                final(messages)@[i] == old(messages)@[i]
            },
{
    if chat_kind == ChatKind::Group {
        return;
    }
    let ghost orig = messages@;
    let mut i: usize = 0;
    while i < messages.len()
        invariant
            chat_kind != ChatKind::Group,
            messages@.len() == orig.len(),
            i <= orig.len(),
            forall|k: int|
                0 <= k < i ==> if gets_default_sender(orig[k], chat_kind) {
                    retagged(orig[k], #[trigger] messages@[k], chat_name@, false)
                } else {
                    messages@[k] == orig[k]
                },
            forall|k: int| i <= k < orig.len() ==> #[trigger] messages@[k] == orig[k],
        decreases orig.len() - i,
    {
        if !messages[i].is_self && messages[i].sender.as_str().is_empty() {
            let m = ChatMessage {
                sender: String::from_str(chat_name),
                content: messages[i].content.clone(),
                is_self: messages[i].is_self,
                side_hint: messages[i].side_hint,
            };
            messages.set(i, m);
        }
        i += 1;
    }
}

// ---------------------------------------------------------------------------
// Matching a session preview against a message
// ---------------------------------------------------------------------------

/// `p` is a prefix of `s`.
pub open spec fn is_prefix_of(p: Seq<char>, s: Seq<char>) -> bool {
    p.len() <= s.len() && s.take(p.len() as int) == p
}

/// Whether a preview body and a message text stand for the same message:
/// equal prefix keys (the preview's stored key when there is one), or one of
/// them shorter than eight characters and a prefix of the other.
pub open spec fn body_matches_spec(preview: Seq<char>, content: Seq<char>, key: Option<Seq<char>>) -> bool {
    let np = normalize_spec(preview);
    let nm = normalize_spec(content);
    if np.len() == 0 || nm.len() == 0 {
        false
    } else {
        let key_hit = match key {
            Some(k) => k.len() > 0 && k == prefix8_spec(nm),
            None => prefix8_spec(np).len() > 0 && prefix8_spec(np) == prefix8_spec(nm),
        };
        key_hit || (np.len() < 8 && is_prefix_of(np, nm)) || (nm.len() < 8 && is_prefix_of(nm, np))
    }
}

/// Whether a session preview body and a message text are the same message.
pub fn preview_body_matches_message(
    preview_body: &str,
    message_content: &str,
    preview_body_key: Option<&str>,
) -> (r: bool)
    ensures
        r == body_matches_spec(
            preview_body@,
            message_content@,
            match preview_body_key {
                Some(k) => Some(k@),
                None => None,
            },
        ),
{
    let np = normalize_chars(&chars_of(preview_body));
    let nm = normalize_chars(&chars_of(message_content));
    if np.len() == 0 || nm.len() == 0 {
        return false;
    }
    match preview_body_key {
        Some(key) => {
            let k = chars_of(key);
            if k.len() > 0 && chars_eq(&k, &prefix8_chars(&nm)) {
                return true;
            }
        },
        None => {
            let kp = prefix8_chars(&np);
            if kp.len() > 0 && chars_eq(&kp, &prefix8_chars(&nm)) {
                return true;
            }
        },
    }
    (np.len() < 8 && starts_with_chars(&nm, &np)) || (nm.len() < 8 && starts_with_chars(&np, &nm))
}

/// Brackets that may surround an image placeholder such as "[图片]".
pub open spec fn is_bracket(c: char) -> bool {
    c == '[' || c == ']' || c == '【' || c == '】' || c == '(' || c == ')'
}

/// `s` without its leading brackets.
pub open spec fn strip_leading_brackets(s: Seq<char>) -> Seq<char>
    decreases s.len(),
{
    if s.len() > 0 && is_bracket(s[0]) {
        strip_leading_brackets(s.skip(1))
    } else {
        s
    }
}

/// `s` without its trailing brackets.
pub open spec fn strip_trailing_brackets(s: Seq<char>) -> Seq<char>
    decreases s.len(),
{
    if s.len() > 0 && is_bracket(s.last()) {
        strip_trailing_brackets(s.drop_last())
    } else {
        s
    }
}

/// `s` with brackets trimmed from both ends (`str::trim_matches`).
pub open spec fn strip_brackets(s: Seq<char>) -> Seq<char> {
    strip_trailing_brackets(strip_leading_brackets(s))
}

fn is_bracket_exec(c: char) -> (r: bool)
    ensures
        r == is_bracket(c),
{
    c == '[' || c == ']' || c == '【' || c == '】' || c == '(' || c == ')'
}

fn strip_brackets_chars(v: &Vec<char>) -> (r: Vec<char>)
    ensures
        r@ == strip_brackets(v@),
{
    let mut start: usize = 0;
    assert(v@.skip(0) =~= v@);
    while start < v.len() && is_bracket_exec(v[start])
        invariant
            start <= v.len(),
            strip_leading_brackets(v@.skip(start as int)) == strip_leading_brackets(v@),
        decreases v.len() - start,
    {
        assert(v@.skip(start as int).skip(1) =~= v@.skip(start + 1));
        start += 1;
    }
    assert(strip_leading_brackets(v@.skip(start as int)) == v@.skip(start as int));
    let ghost t = v@.skip(start as int);
    let mut end: usize = v.len();
    while end > start && is_bracket_exec(v[end - 1])
        invariant
            start <= end <= v.len(),
            t == v@.skip(start as int),
            strip_trailing_brackets(v@.subrange(start as int, end as int)) == strip_trailing_brackets(t),
        decreases end - start,
    {
        assert(v@.subrange(start as int, end as int).drop_last() =~= v@.subrange(start as int, end - 1));
        end -= 1;
    }
    assert(t =~= v@.subrange(start as int, v@.len() as int));
    let mut r: Vec<char> = Vec::new();
    let mut i: usize = start;
    while i < end
        invariant
            start <= i <= end <= v.len(),
            r@ == v@.subrange(start as int, i as int),
        decreases end - i,
    {
        r.push(v[i]);
        proof {
            assert(v@.subrange(start as int, i + 1) =~= v@.subrange(start as int, i as int).push(v@[i as int]));
        }
        i += 1;
    }
    r
}

/// The lowercase words that name an image.
pub open spec fn is_image_word_spec(lowered: Seq<char>) -> bool {
    lowered == "图片"@ || lowered == "image"@ || lowered == "images"@ || lowered == "photo"@
        || lowered == "photos"@ || lowered == "照片"@
}

/// Whether an already lowercased, bracket-free word names an image.
pub fn is_image_word(lowered: &str) -> (r: bool)
    ensures
        r == is_image_word_spec(lowered@),
{
    let v = chars_of(lowered);
    eq_literal(&v, "图片") || eq_literal(&v, "image") || eq_literal(&v, "images") || eq_literal(
        &v,
        "photo",
    ) || eq_literal(&v, "photos") || eq_literal(&v, "照片")
}

/// A text stands for an image when, normalised, stripped of surrounding
/// brackets and lowercased, it is one of the image words.
pub open spec fn image_placeholder_spec(text: Seq<char>) -> bool {
    let n = normalize_spec(text);
    n.len() > 0 && is_image_word_spec(lowercase_of(strip_brackets(n)))
}

/// Whether a text is an image placeholder such as "[图片]" or "(Photo)".
pub fn is_image_placeholder_like(text: &str) -> (r: bool)
    ensures
        r == image_placeholder_spec(text@),
{
    let n = normalize_chars(&chars_of(text));
    if n.len() == 0 {
        return false;
    }
    let stripped = string_of(&strip_brackets_chars(&n));
    let lowered = to_lowercase(stripped.as_str());
    is_image_word(lowered.as_str())
}

/// A preview body and a message text are the same message, by text or
/// because both are image placeholders.
pub open spec fn preview_hits(body: Seq<char>, content: Seq<char>, key: Option<Seq<char>>) -> bool {
    body_matches_spec(body, content, key) || (image_placeholder_spec(body) && image_placeholder_spec(
        content,
    ))
}

/// The chat kind after a session preview has been read: a sender prefix
/// makes it a group, otherwise a chat not yet known as a group is private.
pub open spec fn kind_after_preview(kind: ChatKind, sender: Option<Seq<char>>) -> ChatKind {
    match sender {
        Some(s) => if s.len() > 0 {
            ChatKind::Group
        } else if kind == ChatKind::Group {
            ChatKind::Group
        } else {
            ChatKind::Private
        },
        None => if kind == ChatKind::Group {
            ChatKind::Group
        } else {
            ChatKind::Private
        },
    }
}

/// The sender and self flag a matched message gets from a session preview:
/// the preview's sender, or, without one, no sender and "self" unless the
/// chat is private and its unread count went up.
pub open spec fn preview_tag(kind: ChatKind, sender: Option<Seq<char>>, unread_increased: bool) -> (Seq<char>, bool) {
    match sender {
        Some(s) => if s.len() > 0 {
            (s, false)
        } else {
            (Seq::empty(), kind_after_preview(kind, sender) == ChatKind::Group || !unread_increased)
        },
        None => (Seq::empty(), kind_after_preview(kind, sender) == ChatKind::Group || !unread_increased),
    }
}

/// Applies the sender clue of the current session preview to the newest
/// message read from the chat.
pub fn apply_session_preview_sender_hint(
    messages: &mut Vec<ChatMessage>,
    preview_text: &str,
    chat_kind: &mut ChatKind,
    unread_increased: bool,
)
    ensures
        ({
            let parsed = preview_spec(preview_text@);
            let n = old(messages)@.len();
            if n == 0 || parsed.1 is None {
                &&& final(messages)@ == old(messages)@
                &&& *final(chat_kind) == *old(chat_kind)
            } else {
                let last = old(messages)@[n - 1];
                let tag = preview_tag(*old(chat_kind), parsed.0, unread_increased);
                &&& *final(chat_kind) == kind_after_preview(*old(chat_kind), parsed.0)
                &&& final(messages)@.len() == n
                &&& forall|i: int| 0 <= i < n - 1 ==> #[trigger] final(messages)@[i] == old(messages)@[i]
                &&& if preview_hits(parsed.1->0, last.content@, None) {
                    retagged(last, final(messages)@[n - 1], tag.0, tag.1)
                } else {
                    final(messages)@[n - 1] == last
                }
            }
        }),
{
    if messages.len() == 0 {
        return;
    }
    let (sender, body) = parse_session_preview_line(preview_text);
    let body = match body {
        Some(b) => b,
        None => {
            return;
        },
    };
    let last_i = messages.len() - 1;
    let text_matched = preview_body_matches_message(body.as_str(), messages[last_i].content.as_str(), None);
    let image_equivalent = is_image_placeholder_like(body.as_str()) && is_image_placeholder_like(
        messages[last_i].content.as_str(),
    );
    let matched = text_matched || image_equivalent;
    let named = match &sender {
        Some(s) => !s.as_str().is_empty(),
        None => false,
    };
    if named {
        *chat_kind = ChatKind::Group;
        if matched {
            let m = ChatMessage {
                sender: match sender {
                    Some(s) => s,
                    None => String::new(),
                },
                content: messages[last_i].content.clone(),
                is_self: false,
                side_hint: messages[last_i].side_hint,
            };
            messages.set(last_i, m);
        }
    } else {
        if *chat_kind != ChatKind::Group {
            *chat_kind = ChatKind::Private;
        }
        if matched {
            let is_self_hint = if *chat_kind == ChatKind::Group {
                true
            } else if unread_increased {
                false
            } else {
                true
            };
            let m = ChatMessage {
                sender: String::new(),
                content: messages[last_i].content.clone(),
                is_self: is_self_hint,
                side_hint: messages[last_i].side_hint,
            };
            messages.set(last_i, m);
        }
    }
}

// ---------------------------------------------------------------------------
// Cached sender hints of session previews
// ---------------------------------------------------------------------------

/// How long a preview's sender clue is trusted: twelve seconds, in nanoseconds.
pub const PREVIEW_SENDER_HINT_TTL_NANOS: u64 = 12_000_000_000;

/// A sender clue taken from a session preview, kept to name the sender of
/// the detailed message read on a later poll.  Times are nanoseconds on one
/// monotonic clock.
pub struct PreviewSenderHint {
    pub sender: String,
    pub preview_body: String,
    pub preview_body_key: String,
    pub unread_count: u32,
    pub updated_at: u64,
    pub consumed: bool,
}

/// What a hint holds, as plain values.
pub struct HintView {
    pub sender: Seq<char>,
    pub preview_body: Seq<char>,
    pub preview_body_key: Seq<char>,
    pub unread_count: u32,
    pub updated_at: u64,
    pub consumed: bool,
}

impl View for PreviewSenderHint {
    type V = HintView;

    open spec fn view(&self) -> HintView {
        HintView {
            sender: self.sender@,
            preview_body: self.preview_body@,
            preview_body_key: self.preview_body_key@,
            unread_count: self.unread_count,
            updated_at: self.updated_at,
            consumed: self.consumed,
        }
    }
}

/// Time from `then` to `now`, zero when `now` is earlier
/// (`Instant::duration_since` saturates the same way).
pub open spec fn elapsed(now: u64, then: u64) -> u64 {
    if now >= then {
        (now - then) as u64
    } else {
        0
    }
}

/// A hint is still usable: not consumed and not older than the time to live.
pub open spec fn hint_alive(h: HintView, now: u64) -> bool {
    !h.consumed && elapsed(now, h.updated_at) <= PREVIEW_SENDER_HINT_TTL_NANOS
}

/// The entries whose hints are alive at `now`, order kept.
pub open spec fn alive_entries(e: Seq<(String, PreviewSenderHint)>, now: u64) -> Seq<(String, PreviewSenderHint)>
    decreases e.len(),
{
    if e.len() == 0 {
        Seq::empty()
    } else if hint_alive(e.last().1@, now) {
        alive_entries(e.drop_last(), now).push(e.last())
    } else {
        alive_entries(e.drop_last(), now)
    }
}

/// `m` without the hints that are consumed or expired at `now`.
pub open spec fn prune(m: Map<Seq<char>, HintView>, now: u64) -> Map<Seq<char>, HintView> {
    Map::new(|k: Seq<char>| m.contains_key(k) && hint_alive(m[k], now), |k: Seq<char>| m[k])
}

proof fn lemma_alive_entries(e: Seq<(String, PreviewSenderHint)>, now: u64, q: Seq<char>)
    requires
        key_count(e, q) <= 1,
    ensures
        key_count(alive_entries(e, now), q) <= key_count(e, q),
        lookup(alive_entries(e, now), q) == match lookup(e, q) {
            Some(h) => if hint_alive(h, now) {
                Some(h)
            } else {
                None
            },
            None => None,
        },
    decreases e.len(),
{
    if e.len() > 0 {
        let d = e.drop_last();
        lemma_alive_entries(d, now, q);
        let a = alive_entries(d, now);
        if hint_alive(e.last().1@, now) {
            assert(a.push(e.last()).drop_last() =~= a);
        }
        if e.last().0@ == q {
            lemma_lookup_none(d, q);
        }
    }
}

/// The sender clues of session previews, one per chat name.
pub struct PreviewHintCache {
    entries: Vec<(String, PreviewSenderHint)>,
}

impl View for PreviewHintCache {
    type V = Map<Seq<char>, HintView>;

    closed spec fn view(&self) -> Map<Seq<char>, HintView> {
        keyed_map(self.entries@)
    }
}

impl PreviewHintCache {
    /// Every chat name occurs in at most one entry.
    pub closed spec fn wf(&self) -> bool {
        keys_unique(self.entries@)
    }

    /// An empty cache.
    pub fn new() -> (r: Self)
        ensures
            r.wf(),
            r@ == Map::<Seq<char>, HintView>::empty(),
    {
        let r = PreviewHintCache { entries: Vec::new() };
        assert(r@ =~= Map::<Seq<char>, HintView>::empty());
        r
    }

    /// Number of chats holding a clue.
    pub fn len(&self) -> (r: usize)
        requires
            self.wf(),
        ensures
            r == self@.dom().len(),
    {
        proof {
            lemma_unique_dom_len(self.entries@);
        }
        self.entries.len()
    }

    /// The clue stored for `chat_name`, copied.
    pub fn get(&self, chat_name: &str) -> (r: Option<PreviewSenderHint>)
        requires
            self.wf(),
        ensures
            match r {
                Some(h) => self@.contains_key(chat_name@) && h@ == self@[chat_name@],
                None => !self@.contains_key(chat_name@),
            },
    {
        match find_key(&self.entries, chat_name) {
            Some(i) => Some(copy_hint(&self.entries[i].1)),
            None => None,
        }
    }

    /// Stores `hint` under `chat_name`, replacing an earlier clue.
    fn insert(&mut self, chat_name: String, hint: PreviewSenderHint)
        requires
            old(self).wf(),
        ensures
            final(self).wf(),
            final(self)@ == old(self)@.insert(chat_name@, hint@),
    {
        insert_entry(&mut self.entries, chat_name, hint);
    }
}

/// A field-by-field copy of a hint.
pub fn copy_hint(h: &PreviewSenderHint) -> (r: PreviewSenderHint)
    ensures
        r == *h,
{
    PreviewSenderHint {
        sender: h.sender.clone(),
        preview_body: h.preview_body.clone(),
        preview_body_key: h.preview_body_key.clone(),
        unread_count: h.unread_count,
        updated_at: h.updated_at,
        consumed: h.consumed,
    }
}

fn hint_alive_exec(h: &PreviewSenderHint, now: u64) -> (r: bool)
    ensures
        r == hint_alive(h@, now),
{
    let age: u64 = if now >= h.updated_at {
        now - h.updated_at
    } else {
        0
    };
    !h.consumed && age <= PREVIEW_SENDER_HINT_TTL_NANOS
}

/// Drops every clue that is consumed or older than the time to live, so that
/// an old preview never names the sender of a new message.
pub fn cleanup_preview_sender_hints(cache: &mut PreviewHintCache, now: u64)
    requires
        old(cache).wf(),
    ensures
        final(cache).wf(),
        final(cache)@ == prune(old(cache)@, now),
{
    let ghost e = cache.entries@;
    let mut kept: Vec<(String, PreviewSenderHint)> = Vec::new();
    let mut i: usize = 0;
    assert(e.take(0) =~= Seq::<(String, PreviewSenderHint)>::empty());
    while i < cache.entries.len()
        invariant
            cache.entries@ == e,
            i <= e.len(),
            kept@ == alive_entries(e.take(i as int), now),
        decreases e.len() - i,
    {
        assert(e.take(i + 1).drop_last() =~= e.take(i as int));
        if hint_alive_exec(&cache.entries[i].1, now) {
            let entry = (cache.entries[i].0.clone(), copy_hint(&cache.entries[i].1));
            kept.push(entry);
        }
        i += 1;
    }
    assert(e.take(e.len() as int) =~= e);
    cache.entries = kept;
    proof {
        assert forall|q: Seq<char>| #[trigger] key_count(cache.entries@, q) <= 1 by {
            assert(key_count(e, q) <= 1);
            lemma_alive_entries(e, now, q);
        }
        assert forall|q: Seq<char>| #[trigger]
            lookup(cache.entries@, q) == (match lookup(e, q) {
                Some(h) => if hint_alive(h, now) {
                    Some(h)
                } else {
                    None
                },
                None => None,
            }) by {
            assert(key_count(e, q) <= 1);
            lemma_alive_entries(e, now, q);
        }
        assert(cache@ =~= prune(old(cache)@, now));
    }
}

/// The clue a snapshot leaves: only a preview that carries a sender prefix,
/// with a sender and a body that are not blank after trimming.
pub open spec fn remembered_hint(snap: SnapshotView, now: u64) -> Option<HintView> {
    if !snap.has_sender_prefix {
        None
    } else {
        match snap.sender_hint {
            None => None,
            Some(s) => {
                let sender = trim_spec(s);
                let body = trim_spec(snap.preview_body);
                if sender.len() == 0 || body.len() == 0 {
                    None
                } else {
                    Some(
                        HintView {
                            sender: sender,
                            preview_body: body,
                            preview_body_key: prefix8_spec(body),
                            unread_count: snap.unread_count,
                            updated_at: now,
                            consumed: false,
                        },
                    )
                }
            },
        }
    }
}

/// Keeps the sender clue of a session preview under its chat name.
pub fn remember_preview_sender_hint(cache: &mut PreviewHintCache, snapshot: &SessionItemSnapshot, now: u64)
    requires
        old(cache).wf(),
    ensures
        final(cache).wf(),
        final(cache)@ == match remembered_hint(snapshot@, now) {
            Some(h) => old(cache)@.insert(snapshot.chat_name@, h),
            None => old(cache)@,
        },
{
    if !snapshot.has_sender_prefix {
        return;
    }
    let sender = match &snapshot.sender_hint {
        Some(v) => trim_chars(&chars_of(v.as_str())),
        None => {
            return;
        },
    };
    if sender.len() == 0 {
        return;
    }
    let body = trim_chars(&chars_of(snapshot.preview_body.as_str()));
    if body.len() == 0 {
        return;
    }
    let hint = PreviewSenderHint {
        sender: string_of(&sender),
        preview_body: string_of(&body),
        preview_body_key: string_of(&prefix8_chars(&body)),
        unread_count: snapshot.unread_count,
        updated_at: now,
        consumed: false,
    };
    cache.insert(snapshot.chat_name.clone(), hint);
}

/// The newest message (below position `n`) that the hint's body matches.
pub open spec fn last_hit(msgs: Seq<ChatMessage>, h: HintView, n: int) -> Option<int>
    decreases n,
{
    if n <= 0 {
        None
    } else if preview_hits(h.preview_body, msgs[n - 1].content@, Some(h.preview_body_key)) {
        Some(n - 1)
    } else {
        last_hit(msgs, h, n - 1)
    }
}

/// The message a cached clue names: only an alive clue, on the newest
/// matching message.
pub open spec fn cached_hit(m: Map<Seq<char>, HintView>, chat: Seq<char>, msgs: Seq<ChatMessage>, now: u64) -> Option<int> {
    if m.contains_key(chat) && hint_alive(m[chat], now) {
        last_hit(msgs, m[chat], msgs.len() as int)
    } else {
        None
    }
}

/// `h` marked as used.
pub open spec fn consumed_view(h: HintView) -> HintView {
    HintView {
        sender: h.sender,
        preview_body: h.preview_body,
        preview_body_key: h.preview_body_key,
        unread_count: h.unread_count,
        updated_at: h.updated_at,
        consumed: true,
    }
}

proof fn lemma_last_hit_bound(msgs: Seq<ChatMessage>, h: HintView, n: int)
    ensures
        last_hit(msgs, h, n) matches Some(j) ==> 0 <= j < n,
    decreases n,
{
    if n > 0 {
        lemma_last_hit_bound(msgs, h, n - 1);
    }
}

/// Names the sender of the newest fresh message that a cached preview clue
/// matches, marks the chat a group and the clue used.  Returns whether a
/// message was named.
pub fn apply_cached_preview_sender_hint(
    chat_name: &str,
    new_messages: &mut Vec<ChatMessage>,
    chat_kind: &mut ChatKind,
    cache: &mut PreviewHintCache,
    now: u64,
) -> (r: bool)
    requires
        old(cache).wf(),
    ensures
        final(cache).wf(),
        r == cached_hit(old(cache)@, chat_name@, old(new_messages)@, now) is Some,
        match cached_hit(old(cache)@, chat_name@, old(new_messages)@, now) {
            Some(j) => {
                let h = old(cache)@[chat_name@];
                &&& *final(chat_kind) == ChatKind::Group
                &&& final(new_messages)@.len() == old(new_messages)@.len()
                &&& forall|i: int|
                    0 <= i < old(new_messages)@.len() && i != j ==> #[trigger] final(new_messages)@[i]
                        == old(new_messages)@[i]
                &&& retagged(old(new_messages)@[j], final(new_messages)@[j], h.sender, false)
                &&& final(cache)@ == old(cache)@.insert(chat_name@, consumed_view(h))
            },
            None => {
                &&& final(new_messages)@ == old(new_messages)@
                &&& *final(chat_kind) == *old(chat_kind)
                &&& final(cache)@ == old(cache)@
            },
        },
{
    let hint = match cache.get(chat_name) {
        Some(h) => h,
        None => {
            return false;
        },
    };
    if !hint_alive_exec(&hint, now) {
        return false;
    }
    let ghost msgs = new_messages@;
    let ghost h = hint@;
    let mut j: usize = new_messages.len();
    while j > 0
        invariant
            new_messages@ == msgs,
            msgs == old(new_messages)@,
            hint@ == h,
            j <= msgs.len(),
            cache.wf(),
            cache@ == old(cache)@,
            old(cache)@.contains_key(chat_name@),
            old(cache)@[chat_name@] == h,
            hint_alive(h, now),
            *chat_kind == *old(chat_kind),
            last_hit(msgs, h, msgs.len() as int) == last_hit(msgs, h, j as int),
        decreases j,
    {
        let text_matched = preview_body_matches_message(
            hint.preview_body.as_str(),
            new_messages[j - 1].content.as_str(),
            Some(hint.preview_body_key.as_str()),
        );
        let image_equivalent = is_image_placeholder_like(hint.preview_body.as_str())
            && is_image_placeholder_like(new_messages[j - 1].content.as_str());
        if text_matched || image_equivalent {
            *chat_kind = ChatKind::Group;
            let m = ChatMessage {
                sender: hint.sender.clone(),
                content: new_messages[j - 1].content.clone(),
                is_self: false,
                side_hint: new_messages[j - 1].side_hint,
            };
            new_messages.set(j - 1, m);
            let used = PreviewSenderHint {
                sender: hint.sender.clone(),
                preview_body: hint.preview_body.clone(),
                preview_body_key: hint.preview_body_key.clone(),
                unread_count: hint.unread_count,
                updated_at: hint.updated_at,
                consumed: true,
            };
            cache.insert(String::from_str(chat_name), used);
            return true;
        }
        j -= 1;
    }
    false
}

// ---------------------------------------------------------------------------
// Senders inherited from an earlier reading
// ---------------------------------------------------------------------------

/// Number of messages of `s` that have no sender and carry the text `c`.
pub open spec fn count_unnamed(s: Seq<ChatMessage>, c: Seq<char>) -> nat
    decreases s.len(),
{
    if s.len() == 0 {
        0
    } else {
        count_unnamed(s.drop_last(), c) + if s.last().sender@.len() == 0 && s.last().content@ == c {
            1nat
        } else {
            0nat
        }
    }
}

/// The senders of the reference messages with text `c`, in order; messages
/// without a sender are skipped.
pub open spec fn ref_senders(r: Seq<ChatMessage>, c: Seq<char>) -> Seq<Seq<char>>
    decreases r.len(),
{
    if r.len() == 0 {
        Seq::empty()
    } else {
        let p = ref_senders(r.drop_last(), c);
        if r.last().content@ == c && r.last().sender@.len() > 0 {
            p.push(r.last().sender@)
        } else {
            p
        }
    }
}

/// The sender message `i` of `cur` takes over: a message that has none gets,
/// counting from the newest, the next unused sender recorded for its text;
/// the newest such message gets the earliest recorded sender.
pub open spec fn inherited_sender(cur: Seq<ChatMessage>, refs: Seq<ChatMessage>, i: int) -> Option<Seq<char>> {
    let m = cur[i];
    if m.sender@.len() > 0 {
        None
    } else {
        let rank = count_unnamed(cur.skip(i + 1), m.content@);
        let senders = ref_senders(refs, m.content@);
        if rank < senders.len() {
            Some(senders[rank as int])
        } else {
            None
        }
    }
}

proof fn lemma_ref_senders_prefix(r: Seq<ChatMessage>, k: int, c: Seq<char>)
    requires
        0 <= k <= r.len(),
    ensures
        ref_senders(r.take(k), c).len() <= ref_senders(r, c).len(),
        ref_senders(r, c).take(ref_senders(r.take(k), c).len() as int) == ref_senders(r.take(k), c),
    decreases r.len(),
{
    if k == r.len() {
        assert(r.take(k) =~= r);
        assert(ref_senders(r, c).take(ref_senders(r, c).len() as int) =~= ref_senders(r, c));
    } else {
        let d = r.drop_last();
        assert(r.take(k) =~= d.take(k));
        lemma_ref_senders_prefix(d, k, c);
        let p = ref_senders(d, c);
        let q = ref_senders(d.take(k), c);
        if r.last().content@ == c && r.last().sender@.len() > 0 {
            assert(p.push(r.last().sender@).take(q.len() as int) =~= p.take(q.len() as int));
        }
    }
}

fn count_unnamed_between(s: &Vec<ChatMessage>, from: usize, c: &String) -> (r: usize)
    requires
        from <= s@.len(),
    ensures
        r == count_unnamed(s@.skip(from as int), c@),
{
    let mut cnt: usize = 0;
    let mut j: usize = from;
    assert(s@.subrange(from as int, from as int) =~= Seq::<ChatMessage>::empty());
    while j < s.len()
        invariant
            from <= j <= s@.len(),
            cnt == count_unnamed(s@.subrange(from as int, j as int), c@),
            cnt <= j - from,
        decreases s@.len() - j,
    {
        assert(s@.subrange(from as int, j + 1).drop_last() =~= s@.subrange(from as int, j as int));
        if s[j].sender.as_str().is_empty() && s[j].content == *c {
            cnt += 1;
        }
        j += 1;
    }
    assert(s@.subrange(from as int, s@.len() as int) =~= s@.skip(from as int));
    cnt
}

fn nth_ref_sender(refs: &[ChatMessage], c: &String, rank: usize) -> (r: Option<String>)
    ensures
        match r {
            Some(s) => rank < ref_senders(refs@, c@).len() && s@ == ref_senders(refs@, c@)[rank as int],
            None => rank >= ref_senders(refs@, c@).len(),
        },
{
    let mut cnt: usize = 0;
    let mut k: usize = 0;
    assert(refs@.take(0) =~= Seq::<ChatMessage>::empty());
    while k < refs.len()
        invariant
            k <= refs@.len(),
            cnt == ref_senders(refs@.take(k as int), c@).len(),
            cnt <= rank,
            cnt <= k,
        decreases refs@.len() - k,
    {
        assert(refs@.take(k + 1).drop_last() =~= refs@.take(k as int));
        if refs[k].content == *c && !refs[k].sender.as_str().is_empty() {
            if cnt == rank {
                proof {
                    let t = refs@.take(k + 1);
                    assert(t.last() == refs@[k as int]);
                    assert(ref_senders(t, c@) == ref_senders(refs@.take(k as int), c@).push(refs@[k as int].sender@));
                    lemma_ref_senders_prefix(refs@, k + 1, c@);
                    let full = ref_senders(refs@, c@);
                    assert(full.take(cnt + 1)[cnt as int] == full[cnt as int]);
                }
                return Some(refs[k].sender.clone());
            }
            cnt += 1;
        }
        k += 1;
    }
    assert(refs@.take(refs@.len() as int) =~= refs@);
    None
}

/// Fills in missing senders from a reference reading of the same chat: a
/// message without a sender takes over a sender recorded for its text.
pub fn inherit_sender_from_reference(current: &mut Vec<ChatMessage>, reference: &[ChatMessage])
    ensures
        final(current)@.len() == old(current)@.len(),
        forall|i: int|
            0 <= i < old(current)@.len() ==> match inherited_sender(old(current)@, reference@, i) {
                Some(s) => retagged(old(current)@[i], #[trigger] final(current)@[i], s, old(current)@[i].is_self),
                None => final(current)@[i] == old(current)@[i],
            },
{
    let n = current.len();
    if n == 0 || reference.len() == 0 {
        proof {
            assert forall|i: int| 0 <= i < n implies inherited_sender(old(current)@, reference@, i) is None by {
                let c = old(current)@[i].content@;
                assert(reference@.len() == 0 ==> ref_senders(reference@, c).len() == 0);
            }
        }
        return;
    }
    let ghost orig = current@;
    let snap = copy_suffix(current.as_slice(), 0);
    assert(snap@ =~= orig);
    let mut i: usize = n;
    while i > 0
        invariant
            current@.len() == n == orig.len(),
            snap@ == orig,
            i <= n,
            forall|k: int|
                i <= k < n ==> match inherited_sender(orig, reference@, k) {
                    Some(s) => retagged(orig[k], #[trigger] current@[k], s, orig[k].is_self),
                    None => current@[k] == orig[k],
                },
            forall|k: int| 0 <= k < i ==> #[trigger] current@[k] == orig[k],
        decreases i,
    {
        i -= 1;
        if snap[i].sender.as_str().is_empty() {
            let rank = count_unnamed_between(&snap, i + 1, &snap[i].content);
            match nth_ref_sender(reference, &snap[i].content, rank) {
                Some(sender) => {
                    let m = ChatMessage {
                        sender: sender,
                        content: snap[i].content.clone(),
                        is_self: snap[i].is_self,
                        side_hint: snap[i].side_hint,
                    };
                    current.set(i, m);
                },
                None => {},
            }
        }
    }
}

// ---------------------------------------------------------------------------
// Laws of the sender-hint cache
// ---------------------------------------------------------------------------

/// A clue that was just remembered names, on any later poll within the time
/// to live, exactly the newest message its body matches.
pub proof fn law_remembered_hint_names_newest_match(
    m: Map<Seq<char>, HintView>,
    snap: SnapshotView,
    now: u64,
    later: u64,
    msgs: Seq<ChatMessage>,
)
    requires
        remembered_hint(snap, now) is Some,
        now <= later,
        later - now <= PREVIEW_SENDER_HINT_TTL_NANOS,
    ensures
        cached_hit(m.insert(snap.chat_name, remembered_hint(snap, now)->0), snap.chat_name, msgs, later)
            == last_hit(msgs, remembered_hint(snap, now)->0, msgs.len() as int),
{
}

/// A clue names at most one message: once used, the chat's clue names nothing.
pub proof fn law_used_hint_names_nothing(
    m: Map<Seq<char>, HintView>,
    chat: Seq<char>,
    h: HintView,
    msgs: Seq<ChatMessage>,
    now: u64,
)
    ensures
        cached_hit(m.insert(chat, consumed_view(h)), chat, msgs, now) is None,
{
}

/// A clue older than the time to live names nothing.
pub proof fn law_expired_hint_names_nothing(
    m: Map<Seq<char>, HintView>,
    chat: Seq<char>,
    msgs: Seq<ChatMessage>,
    now: u64,
)
    requires
        m.contains_key(chat),
        elapsed(now, m[chat].updated_at) > PREVIEW_SENDER_HINT_TTL_NANOS,
    ensures
        cached_hit(m, chat, msgs, now) is None,
{
}

/// Cleanup keeps exactly the usable clues, unchanged.
pub proof fn law_cleanup_keeps_exactly_usable(m: Map<Seq<char>, HintView>, now: u64)
    ensures
        forall|k: Seq<char>| #[trigger]
            prune(m, now).contains_key(k) <==> (m.contains_key(k) && hint_alive(m[k], now)),
        forall|k: Seq<char>| #[trigger] prune(m, now).contains_key(k) ==> prune(m, now)[k] == m[k],
{
}

/// A cached clue names no message that its chat's cleanup would have dropped:
/// naming through the cache and naming after cleanup agree.
pub proof fn law_cleanup_does_not_change_naming(
    m: Map<Seq<char>, HintView>,
    chat: Seq<char>,
    msgs: Seq<ChatMessage>,
    now: u64,
)
    ensures
        cached_hit(prune(m, now), chat, msgs, now) == cached_hit(m, chat, msgs, now),
{
}

} // verus!
