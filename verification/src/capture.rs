//! What a pattern found in a text, as plain values: a match is the sequence
//! of its groups, by index, each with the text it took or `None` where it took
//! no part.

use vstd::prelude::*;
use crate::error::{ParseError, ParseFault};
use crate::pattern::{all_captures, capture_all, pattern_accepted};

verus! {

/// The group that holds the value of a field in the matches of a field
/// pattern.
pub const VALUE_GROUP: usize = 1;

/// The text of group `i` of a match, if there is such a group and it took
/// part in the match.
pub open spec fn group_of(groups: Seq<Option<Seq<char>>>, i: int) -> Option<Seq<char>> {
    if 0 <= i < groups.len() {
        groups[i]
    } else {
        None
    }
}

/// The values of a field: the value group of each match, in the order of the
/// matches. A match in which that group took no part gives no value.
pub open spec fn values_of(found: Seq<Seq<Option<Seq<char>>>>) -> Seq<Seq<char>>
    decreases found.len(),
{
    if found.len() == 0 {
        Seq::empty()
    } else {
        let before = values_of(found.drop_last());
        match group_of(found.last(), VALUE_GROUP as int) {
            Some(text) => before.push(text),
            None => before,
        }
    }
}

/// The text of group `i` of a match.
pub fn group(groups: &Vec<Option<String>>, i: usize) -> (r: Option<&String>)
    ensures
        match r {
            Some(text) => group_of(groups.deep_view(), i as int) == Some(text@),
            None => group_of(groups.deep_view(), i as int) is None,
        },
{
    if i < groups.len() {
        groups[i].as_ref()
    } else {
        None
    }
}

/// The values of a field, given the matches of its pattern.
pub fn values(found: &Vec<Vec<Option<String>>>) -> (r: Vec<String>)
    ensures
        r.deep_view() == values_of(found.deep_view()),
{
    let mut out: Vec<String> = Vec::new();
    let mut i: usize = 0;
    while i < found.len()
        invariant
            i <= found.len(),
            out.deep_view() == values_of(found.deep_view().take(i as int)),
        decreases found.len() - i,
    {
        assert(found.deep_view().take(i + 1).drop_last() =~= found.deep_view().take(i as int));
        match group(&found[i], VALUE_GROUP) {
            Some(text) => out.push(text.clone()),
            None => {},
        }
        i += 1;
    }
    assert(found.deep_view().take(i as int) =~= found.deep_view());
    out
}

/// The values that the field pattern `pattern` finds in `text`.
pub open spec fn field_values_of(pattern: Seq<char>, text: Seq<char>) -> Seq<Seq<char>> {
    values_of(all_captures(pattern, text))
}

/// Searches `text` for every match of the field pattern `pattern` and gives
/// the values of the field, or fails with `InvalidPattern` where the pattern
/// engine does not accept the pattern.
pub fn field_values(pattern: &str, text: &str) -> (r: Result<Vec<String>, ParseError>)
    ensures
        match r {
            Ok(found) => pattern_accepted(pattern@) && found.deep_view() == field_values_of(
                pattern@,
                text@,
            ),
            Err(e) => !pattern_accepted(pattern@) && e@ == ParseFault::InvalidPattern,
        },
{
    match capture_all(pattern, text) {
        Err(_) => Err(ParseError::InvalidPattern),
        Ok(found) => Ok(values(&found)),
    }
}

} // verus!
