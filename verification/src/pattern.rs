//! Regular expressions, matched by the `regex` crate.
//!
//! This module is the one place where the library leaves verified code: what
//! a pattern captures in a text is computed by `regex` and believed as stated
//! here.

use crate::info::{text_of, FactError};
use regex::Regex;
use vstd::prelude::*;

verus! {

/// `regex::Error`: why a pattern was turned down. Nothing is read from it.
#[verifier::external_type_specification]
#[verifier::external_body]
pub struct ExPatternError(regex::Error);

/// Whether the pattern matcher accepts `pattern`: whether `regex::Regex::new`
/// compiles it, under the limits that it sets by default.
pub uninterp spec fn accepted(pattern: Seq<char>) -> bool;

/// What group `group` of `pattern` captures at the leftmost match of
/// `pattern` in `text`: nothing where `pattern` matches nowhere in `text`,
/// `Some(None)` where it matches and the group took no part in the match or
/// the pattern has no such group, and else the text that the group matched.
/// Group 0 is the whole match.
pub uninterp spec fn captured(pattern: Seq<char>, text: Seq<char>, group: int) -> Option<
    Option<Seq<char>>,
>;

/// Searches `text` for `pattern` and hands out what group `group` captured.
///
/// Calls `regex::Regex::new` on `pattern`, then `regex::Regex::captures` on
/// `text`, and copies the group's text with `Captures::get` and
/// `Match::as_str`. Believed: whether the pattern compiles rests on the
/// pattern alone (`accepted`), and where it does, the result is `captured`,
/// the same for the same pattern, text and group. Nothing is claimed of
/// which patterns compile.
#[verifier::external_body]
pub(crate) fn capture(pattern: &str, text: &str, group: usize) -> (r: Result<
    Option<Option<String>>,
    regex::Error,
>)
    ensures
        r is Ok <==> accepted(pattern@),
        r matches Ok(found) ==> found.deep_view() == captured(pattern@, text@, group as int),
{
    let re = Regex::new(pattern)?;
    Ok(re.captures(text).map(|c| c.get(group).map(|m| m.as_str().to_string())))
}

/// The text of a group, where a group that took no part in the match counts
/// as the empty text.
pub open spec fn group_text(found: Option<Option<Seq<char>>>) -> Option<Seq<char>> {
    match found {
        None => None,
        Some(None) => Some(Seq::empty()),
        Some(Some(text)) => Some(text),
    }
}

/// What a search for `pattern` in `text` gives for group `group`: the text
/// of the group at the leftmost match, nothing where there is no match, and
/// `FactError::Pattern` where the pattern is not accepted.
pub open spec fn first_capture_of(pattern: Seq<char>, text: Seq<char>, group: int) -> Result<
    Option<Seq<char>>,
    FactError,
> {
    if accepted(pattern) {
        Ok(group_text(captured(pattern, text, group)))
    } else {
        Err(FactError::Pattern)
    }
}

/// What a search came to: the text of the group where the pattern matched,
/// nothing where it did not, and `FactError::Pattern` where the pattern was
/// turned down.
pub fn settle(outcome: Result<Option<Option<String>>, regex::Error>) -> (r: Result<
    Option<String>,
    FactError,
>)
    ensures
        match outcome {
            Ok(found) => r matches Ok(text) && text_of(text) == group_text(found.deep_view()),
            Err(_) => r == Err::<Option<String>, FactError>(FactError::Pattern),
        },
{
    match outcome {
        Ok(Some(Some(text))) => Ok(Some(text)),
        Ok(Some(None)) => Ok(Some(String::new())),
        Ok(None) => Ok(None),
        Err(_) => Err(FactError::Pattern),
    }
}

/// The text that group `group` of `pattern` captures at the leftmost match
/// of `pattern` in `text`, if there is a match. It fails where the pattern
/// is not accepted, and only there.
pub fn first_capture(pattern: &str, text: &str, group: usize) -> (r: Result<
    Option<String>,
    FactError,
>)
    ensures
        match first_capture_of(pattern@, text@, group as int) {
            Ok(found) => r matches Ok(s) && text_of(s) == found,
            Err(e) => r == Err::<Option<String>, FactError>(e),
        },
{
    settle(capture(pattern, text, group))
}

} // verus!
