//! Text helpers of the accessibility inspection tools: control characters
//! shown as escapes, and long values cut for one-line listings.
use vstd::prelude::*;

use crate::text::{chars_of, string_of, take_chars};

verus! {

/// What a character is shown as: a line feed, carriage return or tab as its
/// backslash escape, anything else as itself.
pub open spec fn escape_char(c: char) -> Seq<char> {
    if c == '\n' {
        seq!['\\', 'n']
    } else if c == '\r' {
        seq!['\\', 'r']
    } else if c == '\t' {
        seq!['\\', 't']
    } else {
        seq![c]
    }
}

/// `s` with its line feeds, carriage returns and tabs escaped.
pub open spec fn escape_spec(s: Seq<char>) -> Seq<char>
    decreases s.len(),
{
    if s.len() == 0 {
        Seq::empty()
    } else {
        escape_spec(s.drop_last()) + escape_char(s.last())
    }
}

/// An escaped text holds no line feed, carriage return or tab: it fits on
/// one line of a listing.
pub proof fn law_escaped_is_one_line(s: Seq<char>)
    ensures
        forall|i: int|
            0 <= i < escape_spec(s).len() ==> #[trigger] escape_spec(s)[i] != '\n' && escape_spec(s)[i] != '\r'
                && escape_spec(s)[i] != '\t',
    decreases s.len(),
{
    if s.len() > 0 {
        let p = escape_spec(s.drop_last());
        law_escaped_is_one_line(s.drop_last());
        let e = escape_char(s.last());
        assert forall|i: int|
            0 <= i < escape_spec(s).len() implies #[trigger] escape_spec(s)[i] != '\n' && escape_spec(s)[i] != '\r'
                && escape_spec(s)[i] != '\t' by {
            if i < p.len() {
                assert(escape_spec(s)[i] == p[i]);
            } else {
                assert(escape_spec(s)[i] == e[i - p.len()]);
            }
        }
    }
}

/// Shows line feeds, carriage returns and tabs as `\n`, `\r` and `\t`.
pub fn escape(raw: &str) -> (r: String)
    ensures
        r@ == escape_spec(raw@),
{
    let v = chars_of(raw);
    let mut out: Vec<char> = Vec::new();
    let mut i: usize = 0;
    assert(v@.take(0) =~= Seq::<char>::empty());
    while i < v.len()
        invariant
            i <= v@.len(),
            out@ == escape_spec(v@.take(i as int)),
        decreases v@.len() - i,
    {
        assert(v@.take(i + 1).drop_last() =~= v@.take(i as int));
        let c = v[i];
        if c == '\n' {
            out.push('\\');
            out.push('n');
        } else if c == '\r' {
            out.push('\\');
            out.push('r');
        } else if c == '\t' {
            out.push('\\');
            out.push('t');
        } else {
            out.push(c);
        }
        proof {
            assert(out@ =~= escape_spec(v@.take(i as int)) + escape_char(c));
        }
        i += 1;
    }
    assert(v@.take(v@.len() as int) =~= v@);
    string_of(&out)
}

/// Same as [`escape`], for one-line listings.
pub fn escape_inline(raw: &str) -> (r: String)
    ensures
        r@ == escape_spec(raw@),
{
    escape(raw)
}

/// Same as [`escape`], for element titles.
pub fn escape_title(raw: &str) -> (r: String)
    ensures
        r@ == escape_spec(raw@),
{
    escape(raw)
}

/// `s` unchanged when it has at most `max_chars` characters, else its first
/// `max_chars` characters followed by "..".
pub fn truncate_str(s: &str, max_chars: usize) -> (r: String)
    ensures
        r@ == if s@.len() <= max_chars {
            s@
        } else {
            s@.take(max_chars as int) + ".."@
        },
{
    let v = chars_of(s);
    if v.len() <= max_chars {
        String::from_str(s)
    } else {
        string_of(&take_chars(&v, max_chars)).concat("..")
    }
}

} // verus!
