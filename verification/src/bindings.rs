//! The calls this crate makes into `regex`, `sha2`, `md5`, `chrono`, `uuid`
//! and into the parts of std that vstd leaves unspecified.  Each function
//! here is trusted: its contract is what the called code is documented to do,
//! and results that would take pages to describe are given names.
use vstd::prelude::*;

verus! {

/// What `regex::Regex::new(pattern)` followed by `Regex::is_match(text)`
/// yields: `None` when the pattern does not compile.
pub uninterp spec fn regex_is_match_result(pattern: Seq<char>, text: Seq<char>) -> Option<bool>;

/// What `regex::Regex::new(pattern)` followed by `Regex::replace(text, rep)`
/// yields (first leftmost match replaced): `None` when the pattern does not compile.
pub uninterp spec fn regex_replace_result(pattern: Seq<char>, text: Seq<char>, rep: Seq<char>) -> Option<Seq<char>>;

/// What `regex::Regex::new(pattern)` followed by `Regex::captures(text)`
/// yields, each group as its matched text: outer `None` when the pattern does
/// not compile, inner `None` when it does not match.
pub uninterp spec fn regex_captures_result(pattern: Seq<char>, text: Seq<char>) -> Option<Option<Seq<Option<Seq<char>>>>>;

/// The SHA-256 digest (`sha2::Sha256::digest`) of a byte string.
pub uninterp spec fn sha256_of(data: Seq<u8>) -> Seq<u8>;

/// The MD5 digest (`md5::compute`) of a byte string.
pub uninterp spec fn md5_of(data: Seq<u8>) -> Seq<u8>;

/// Seconds since the Unix epoch of the time that
/// `chrono::NaiveDateTime::parse_from_str(text, "%Y-%m-%d %H:%M:%S")` reads
/// (taken as UTC), `None` when that parse fails.
pub uninterp spec fn datetime_seconds(text: Seq<char>) -> Option<i64>;

/// The full Unicode lowercase mapping of a string (`str::to_lowercase`).
pub uninterp spec fn lowercase_of(text: Seq<char>) -> Seq<char>;

/// The full Unicode uppercase mapping of a string (`str::to_uppercase`).
pub uninterp spec fn uppercase_of(text: Seq<char>) -> Seq<char>;

/// The text of each capture group, `None` for a group that took no part.
pub open spec fn group_views(groups: Seq<Option<String>>) -> Seq<Option<Seq<char>>> {
    groups.map_values(
        |o: Option<String>|
            match o {
                Some(s) => Some(s@),
                None => None::<Seq<char>>,
            },
    )
}

/// A `captures` outcome taken by the texts it holds.
pub open spec fn captures_view(c: Option<Option<Vec<Option<String>>>>) -> Option<Option<Seq<Option<Seq<char>>>>> {
    match c {
        None => None,
        Some(None) => Some(None),
        Some(Some(groups)) => Some(Some(group_views(groups@))),
    }
}

/// Compiles `pattern` with `regex::Regex::new` and tests it against `text`
/// with `Regex::is_match`; `None` when the pattern does not compile.
#[verifier::external_body]
pub(crate) fn regex_is_match(pattern: &str, text: &str) -> (r: Option<bool>)
    ensures
        r == regex_is_match_result(pattern@, text@),
{
    match regex::Regex::new(pattern) {
        Ok(re) => Some(re.is_match(text)),
        Err(_) => None,
    }
}

/// Compiles `pattern` with `regex::Regex::new` and replaces its first match in
/// `text` by `rep` with `Regex::replace`; `None` when the pattern does not compile.
#[verifier::external_body]
pub(crate) fn regex_replace(pattern: &str, text: &str, rep: &str) -> (r: Option<String>)
    ensures
        match r {
            Some(s) => regex_replace_result(pattern@, text@, rep@) == Some(s@),
            None => regex_replace_result(pattern@, text@, rep@) is None,
        },
{
    match regex::Regex::new(pattern) {
        Ok(re) => Some(re.replace(text, rep).into_owned()),
        Err(_) => None,
    }
}

/// Compiles `pattern` with `regex::Regex::new` and runs `Regex::captures` on
/// `text`, handing back the text of every group (group 0 first).
#[verifier::external_body]
pub(crate) fn regex_captures(pattern: &str, text: &str) -> (r: Option<Option<Vec<Option<String>>>>)
    ensures
        captures_view(r) == regex_captures_result(pattern@, text@),
{
    match regex::Regex::new(pattern) {
        Ok(re) => Some(
            re.captures(text).map(
                |caps| caps.iter().map(|m| m.map(|m| m.as_str().to_string())).collect(),
            ),
        ),
        Err(_) => None,
    }
}

/// `sha2::Sha256::digest` of `data`; SHA-256 digests are 32 bytes long.
#[verifier::external_body]
pub(crate) fn sha256_digest(data: &[u8]) -> (r: Vec<u8>)
    ensures
        r@ == sha256_of(data@),
        r@.len() == 32,
{
    <sha2::Sha256 as sha2::Digest>::digest(data).to_vec()
}

/// `md5::compute` of `data`; MD5 digests are 16 bytes long.
#[verifier::external_body]
pub(crate) fn md5_digest(data: &[u8]) -> (r: Vec<u8>)
    ensures
        r@ == md5_of(data@),
        r@.len() == 16,
{
    md5::compute(data).0.to_vec()
}

/// `chrono::NaiveDateTime::parse_from_str(text, "%Y-%m-%d %H:%M:%S")`, read as
/// UTC and turned into Unix seconds with `and_utc().timestamp()`.
#[verifier::external_body]
pub(crate) fn parse_datetime_seconds(text: &str) -> (r: Option<i64>)
    ensures
        r == datetime_seconds(text@),
{
    chrono::NaiveDateTime::parse_from_str(text, "%Y-%m-%d %H:%M:%S").ok().map(|t| t.and_utc().timestamp())
}

/// A fresh random version-4 UUID (`uuid::Uuid::new_v4`) in its hyphenated
/// 36-character text form.  Nothing is said of which UUID comes back.
#[verifier::external_body]
pub(crate) fn new_uuid_v4() -> (r: String)
    ensures
        r@.len() == 36,
{
    uuid::Uuid::new_v4().to_string()
}

/// `str::to_lowercase`.
#[verifier::external_body]
pub(crate) fn to_lowercase(text: &str) -> (r: String)
    ensures
        r@ == lowercase_of(text@),
{
    text.to_lowercase()
}

/// `str::to_uppercase`.
#[verifier::external_body]
pub(crate) fn to_uppercase(text: &str) -> (r: String)
    ensures
        r@ == uppercase_of(text@),
{
    text.to_uppercase()
}

} // verus!
