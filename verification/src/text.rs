//! Small operations on text, counted in characters.

use vstd::prelude::*;
use vstd::string::*;

verus! {

/// The mathematical value of a piece of text that may be absent.
pub open spec fn view_of(text: Option<String>) -> Option<Seq<char>> {
    match text {
        Some(t) => Some(t@),
        None => None,
    }
}

/// The mathematical value of the answer to a fetch: the page, or `None`
/// where the fetch failed.
pub open spec fn page_view(page: Option<&str>) -> Option<Seq<char>> {
    match page {
        Some(page) => Some(page@),
        None => None,
    }
}

/// Whether `text` begins with `prefix`.
pub fn starts_with(text: &str, prefix: &str) -> (yes: bool)
    ensures
        yes == prefix@.is_prefix_of(text@),
{
    let n = prefix.unicode_len();
    if text.unicode_len() < n {
        return false;
    }
    let head = String::from_str(text.substring_char(0, n));
    let wanted = String::from_str(prefix);
    head == wanted
}

/// The part of `text` from its character `from` on: nothing where `text`
/// is shorter.
pub fn tail(text: &str, from: usize) -> (rest: String)
    ensures
        rest@ == if from <= text@.len() {
            text@.skip(from as int)
        } else {
            Seq::empty()
        },
{
    let n = text.unicode_len();
    if from <= n {
        String::from_str(text.substring_char(from, n))
    } else {
        String::new()
    }
}

} // verus!
