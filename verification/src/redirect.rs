//! The title under which a page presents itself.

use vstd::prelude::*;
use vstd::string::*;
use crate::address::{Address, AddressView};
use crate::document::{Element, ElementView, ExtractionError, query, selection};
use crate::search::SearchError;
use crate::text::page_view;

verus! {

/// Selects the primary heading of a page.
pub const HEADING: &'static str = "h1";

/// The attribute that is read of a heading.
pub const ID: &'static str = "id";

/// Stands in a title where the heading has a space.
pub const UNDERSCORE: &'static str = "_";

/// The title that stands for the heading `heading` in an address: each
/// space is an underscore, everything else is as it is.
pub open spec fn slug_of(heading: Seq<char>) -> Seq<char> {
    heading.map_values(
        |c: char|
            if c == ' ' {
                '_'
            } else {
                c
            },
    )
}

/// The text that `texts` render as: one after the other, with nothing
/// between them.
pub open spec fn rendered(texts: Seq<Seq<char>>) -> Seq<char>
    decreases texts.len(),
{
    if texts.len() == 0 {
        Seq::empty()
    } else {
        rendered(texts.drop_last()) + texts.last()
    }
}

/// The text of the primary heading: what the texts of the first of
/// `headings` render as. A page without a heading has none, and so has a
/// page whose first heading holds no text.
pub open spec fn heading_of(headings: Seq<ElementView>) -> Option<Seq<char>> {
    if headings.len() > 0 && headings[0].texts.len() > 0 {
        Some(rendered(headings[0].texts))
    } else {
        None
    }
}

/// The address under which a page fetched at `address` presents itself,
/// given its headings: the same site, and the title that stands for the
/// primary heading.
pub open spec fn resolved(address: AddressView, headings: Seq<ElementView>) -> Result<
    AddressView,
    ExtractionError,
> {
    match heading_of(headings) {
        Some(heading) => Ok(
            AddressView {
                language: address.language,
                domain: address.domain,
                title: slug_of(heading),
            },
        ),
        None => Err(ExtractionError::MissingHeading),
    }
}

/// The mathematical value of the outcome of [`resolve`].
pub open spec fn outcome_view(outcome: Result<Address, ExtractionError>) -> Result<
    AddressView,
    ExtractionError,
> {
    match outcome {
        Ok(address) => Ok(address@),
        Err(e) => Err(e),
    }
}

/// The text that `texts` render as.
pub fn render(texts: &Vec<String>) -> (text: String)
    ensures
        text@ == rendered(texts.deep_view()),
{
    let mut text = String::new();
    let mut i: usize = 0;
    while i < texts.len()
        invariant
            i <= texts.len(),
            text@ == rendered(texts.deep_view().take(i as int)),
        decreases texts.len() - i,
    {
        assert(texts.deep_view().take(i + 1).drop_last() == texts.deep_view().take(i as int));
        text.append(texts[i].as_str());
        i += 1;
    }
    assert(texts.deep_view().take(i as int) == texts.deep_view());
    text
}

/// The title that stands for `heading` in an address.
pub fn slug(heading: &str) -> (title: String)
    ensures
        title@ == slug_of(heading@),
{
    let n = heading.unicode_len();
    let mut title = String::new();
    let mut from: usize = 0;
    let mut i: usize = 0;
    proof {
        reveal_strlit("_");
    }
    while i < n
        invariant
            from <= i <= n,
            n == heading@.len(),
            UNDERSCORE@ == seq!['_'],
            title@ == slug_of(heading@.take(from as int)),
            forall|j: int| from <= j < i ==> heading@[j] != ' ',
        decreases n - i,
    {
        if heading.get_char(i) == ' ' {
            title.append(heading.substring_char(from, i));
            title.append(UNDERSCORE);
            from = i + 1;
        }
        i += 1;
    }
    title.append(heading.substring_char(from, n));
    title
}

/// The address under which a page fetched at `address` presents itself,
/// given its headings.
pub fn resolve_among(address: &Address, headings: &Vec<Element>) -> (outcome: Result<
    Address,
    ExtractionError,
>)
    ensures
        outcome_view(outcome) == resolved(address@, headings.deep_view()),
        heading_of(headings.deep_view()) matches Some(heading) && slug_of(heading)
            == address@.title ==> outcome_view(outcome) == Ok::<AddressView, ExtractionError>(
            address@,
        ),
{
    if headings.len() == 0 || headings[0].texts.len() == 0 {
        return Err(ExtractionError::MissingHeading);
    }
    let heading = render(&headings[0].texts);
    Ok(
        Address {
            language: address.language.clone(),
            domain: address.domain.clone(),
            title: slug(heading.as_str()),
        },
    )
}

/// The address under which the page `page`, fetched at `address`, presents
/// itself: where `address` is redirected, the address of the article that it
/// is redirected to.
pub fn resolve(address: &Address, page: &str) -> (outcome: Result<Address, ExtractionError>)
    ensures
        match selection(page@, HEADING@, ID@) {
            Some(headings) => outcome_view(outcome) == resolved(address@, headings),
            None => outcome matches Err(e) && e == ExtractionError::Selector,
        },
{
    match query(page, HEADING, ID) {
        Ok(headings) => resolve_among(address, &headings),
        Err(e) => Err(e),
    }
}

/// The address under which a page presents itself, given the answer to its
/// fetch at `address`: `None` stands for a fetch that failed, and is
/// reported; a page is taken as [`resolve`] takes it.
pub open spec fn resolved_fetched(address: AddressView, page: Option<Seq<char>>) -> Result<
    AddressView,
    SearchError,
> {
    match page {
        None => Err(SearchError::Fetch),
        Some(page) => match selection(page, HEADING@, ID@) {
            None => Err(SearchError::Extraction(ExtractionError::Selector)),
            Some(headings) => match resolved(address, headings) {
                Ok(canonical) => Ok(canonical),
                Err(error) => Err(SearchError::Extraction(error)),
            },
        },
    }
}

/// The address under which the page fetched at `address` presents itself,
/// on the answer to the fetch: the page, or `None` where the fetch failed.
pub fn resolve_fetched(address: &Address, page: Option<&str>) -> (outcome: Result<
    Address,
    SearchError,
>)
    ensures
        match resolved_fetched(address@, page_view(page)) {
            Ok(canonical) => outcome matches Ok(found) && found@ == canonical,
            Err(error) => outcome matches Err(e) && e == error,
        },
{
    match page {
        None => Err(SearchError::Fetch),
        Some(page) => match resolve(address, page) {
            Ok(canonical) => Ok(canonical),
            Err(e) => Err(SearchError::Extraction(e)),
        },
    }
}

/// An address that is already the one under which its page presents itself
/// is resolved to itself.
pub proof fn law_canonical_is_kept(address: AddressView, headings: Seq<ElementView>)
    requires
        heading_of(headings) matches Some(heading) && slug_of(heading) == address.title,
    ensures
        resolved(address, headings) == Ok::<AddressView, ExtractionError>(address),
{
}

/// Resolving twice is resolving once: the address that a page resolves to
/// is resolved to itself by that page.
pub proof fn law_resolved_is_kept(address: AddressView, headings: Seq<ElementView>)
    ensures
        resolved(address, headings) matches Ok(canonical) ==> resolved(canonical, headings) == Ok::<
            AddressView,
            ExtractionError,
        >(canonical),
{
}

/// A title that stands for a heading stands for itself.
pub proof fn law_slug_is_fixed(heading: Seq<char>)
    ensures
        slug_of(slug_of(heading)) == slug_of(heading),
{
}

} // verus!
