//! Pattern matching on text, done by the `regex` crate, and percent-decoding,
//! done by the `url` crate. Nothing in this module is proved: each function
//! here states what the crate behind it is trusted to do.

use vstd::prelude::*;

verus! {

/// The error with which `regex` rejects a pattern.
#[verifier::external_type_specification]
#[verifier::external_body]
pub struct ExRegexError(regex::Error);

/// Whether `regex::Regex::new` accepts `pattern`.
pub uninterp spec fn pattern_accepted(pattern: Seq<char>) -> bool;

/// What `regex::Regex::captures` finds for an accepted `pattern` in `text`:
/// nothing, or the groups of the leftmost match, by index. Group 0 is the
/// whole match; a group that took no part in the match is `None`.
pub uninterp spec fn first_capture(pattern: Seq<char>, text: Seq<char>) -> Option<
    Seq<Option<Seq<char>>>,
>;

/// What `regex::Regex::captures_iter` yields for an accepted `pattern` in
/// `text`: the groups of each of the successive matches that do not overlap,
/// from left to right.
pub uninterp spec fn all_captures(pattern: Seq<char>, text: Seq<char>) -> Seq<
    Seq<Option<Seq<char>>>,
>;

/// What `url::percent_encoding::percent_decode`, followed by
/// `decode_utf8_lossy`, makes of `text`: each `%` with two hexadecimal digits
/// behind it becomes the byte they spell, and the bytes are read as UTF-8,
/// with U+FFFD in place of what is not.
pub uninterp spec fn percent_decoded(text: Seq<char>) -> Seq<char>;

/// Compiles `pattern` with `regex::Regex::new` and searches `text` with
/// `regex::Regex::captures`. Fails with the crate's error exactly when the
/// pattern is not accepted; else gives the groups of the leftmost match, read
/// off with `regex::Captures::iter` and `regex::Match::as_str`.
#[verifier::external_body]
pub(crate) fn capture_first(pattern: &str, text: &str) -> (r: Result<
    Option<Vec<Option<String>>>,
    regex::Error,
>)
    ensures
        (r is Ok) <==> pattern_accepted(pattern@),
        r matches Ok(found) ==> found.deep_view() == first_capture(pattern@, text@),
{
    let re = regex::Regex::new(pattern)?;
    Ok(
        re.captures(text).map(
            |c| c.iter().map(|group| group.map(|m| m.as_str().to_owned())).collect(),
        ),
    )
}

/// Compiles `pattern` with `regex::Regex::new` and searches `text` with
/// `regex::Regex::captures_iter`. Fails with the crate's error exactly when
/// the pattern is not accepted; else gives the groups of every match, in the
/// order in which the iterator yields them.
#[verifier::external_body]
pub(crate) fn capture_all(pattern: &str, text: &str) -> (r: Result<
    Vec<Vec<Option<String>>>,
    regex::Error,
>)
    ensures
        (r is Ok) <==> pattern_accepted(pattern@),
        r matches Ok(found) ==> found.deep_view() == all_captures(pattern@, text@),
{
    let re = regex::Regex::new(pattern)?;
    Ok(
        re.captures_iter(text).map(
            |c| c.iter().map(|group| group.map(|m| m.as_str().to_owned())).collect(),
        ).collect(),
    )
}

/// Percent-decodes `text` with `url::percent_encoding::percent_decode` and
/// reads the bytes as UTF-8 with `decode_utf8_lossy`.
#[verifier::external_body]
pub(crate) fn percent_decode(text: &str) -> (r: String)
    ensures
        r@ == percent_decoded(text@),
{
    url::percent_encoding::percent_decode(text.as_bytes()).decode_utf8_lossy().into_owned()
}

} // verus!
