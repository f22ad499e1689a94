//! Reading a part of a text through the `regex` crate.

use vstd::prelude::*;
use crate::text::view_of;

verus! {

/// The error of `regex::Regex::new`. It is carried, never read.
#[verifier::external_type_specification]
#[verifier::external_body]
pub struct ExRegexError(regex::Error);

/// Why a text could not be searched.
#[derive(Debug, Clone, Copy, PartialEq, Eq, Structural)]
pub enum PatternError {
    /// The pattern engine refused the pattern.
    Refused,
}

/// What the capture group `group` of `pattern` holds at the first match of
/// `pattern` in `text`: `None` where `regex` does not accept `pattern`,
/// `Some(None)` where `text` holds no match, the pattern has no such group,
/// or the group took no part in the match.
pub uninterp spec fn capture(pattern: Seq<char>, text: Seq<char>, group: nat) -> Option<
    Option<Seq<char>>,
>;

/// `regex::Regex::new` on `pattern`, then `Regex::captures` on `text`,
/// `Captures::get` for `group` and `Match::as_str`. The contract gives the
/// outcome its name, [`capture`], and says nothing else of it: how `regex`
/// matches is not stated here.
#[verifier::external_body]
fn captured(pattern: &str, text: &str, group: usize) -> (found: Result<
    Option<String>,
    regex::Error,
>)
    ensures
        match found {
            Ok(part) => capture(pattern@, text@, group as nat) == Some(view_of(part)),
            Err(_) => capture(pattern@, text@, group as nat) is None,
        },
{
    let regex = regex::Regex::new(pattern)?;
    Ok(regex.captures(text).and_then(|found| found.get(group)).map(|part| part.as_str().to_owned()))
}

/// What the capture group `group` of `pattern` holds at the first match of
/// `pattern` in `text`, if anything.
pub fn find(pattern: &str, text: &str, group: usize) -> (outcome: Result<
    Option<String>,
    PatternError,
>)
    ensures
        match capture(pattern@, text@, group as nat) {
            Some(part) => outcome matches Ok(found) && view_of(found) == part,
            None => outcome matches Err(e) && e == PatternError::Refused,
        },
{
    match captured(pattern, text, group) {
        Ok(found) => Ok(found),
        Err(_) => Err(PatternError::Refused),
    }
}

} // verus!
