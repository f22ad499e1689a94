//! The checks that come before a search.

use vstd::prelude::*;
use crate::address::{Address, AddressView};
use crate::document::{ElementView, ExtractionError, query, selection};
use crate::links::{PARAGRAPH_ANCHORS, TARGET, extract_links, links_of};
use crate::search::SearchError;
use crate::text::page_view;

verus! {

/// Why a pair of articles is refused before any search.
#[derive(Debug, Clone, Copy, PartialEq, Eq, Structural)]
pub enum ValidationError {
    /// The two articles are written in different languages.
    LanguageMismatch,
    /// The page of the start links to no article.
    DeadEnd,
    /// The page of the end carries the notice of an orphan.
    OrphanTarget,
}

/// Selects the notice that a site puts on an article to which few or no
/// other articles link.
pub const ORPHAN_NOTICE: &'static str = "table.plainlinks.metadata.ambox.ambox-style.ambox-Orphan";

/// The attribute that is read of a notice.
pub const CLASS: &'static str = "class";

/// What the checks say of a pair of articles, given the links of the page
/// of the start and whether the page of the end carries the notice of an
/// orphan. The checks come in this order, and the first that fails decides:
/// the languages, the links of the start, the notice on the end.
pub open spec fn verdict(
    start: AddressView,
    end: AddressView,
    start_links: Seq<AddressView>,
    end_is_orphan: bool,
) -> Result<(), ValidationError> {
    if start.language != end.language {
        Err(ValidationError::LanguageMismatch)
    } else if start_links.len() == 0 {
        Err(ValidationError::DeadEnd)
    } else if end_is_orphan {
        Err(ValidationError::OrphanTarget)
    } else {
        Ok(())
    }
}

/// Checks that a search from `start` for `end` is worth the while:
/// `start_links` are the links of the page of `start`, and `end_is_orphan`
/// says whether the page of `end` carries the notice of an orphan.
pub fn validate(
    start: &Address,
    end: &Address,
    start_links: &Vec<Address>,
    end_is_orphan: bool,
) -> (outcome: Result<(), ValidationError>)
    ensures
        outcome == verdict(start@, end@, start_links.deep_view(), end_is_orphan),
        start@.language != end@.language ==> outcome == Err::<(), ValidationError>(
            ValidationError::LanguageMismatch,
        ),
{
    if start.language != end.language {
        Err(ValidationError::LanguageMismatch)
    } else if start_links.len() == 0 {
        Err(ValidationError::DeadEnd)
    } else if end_is_orphan {
        Err(ValidationError::OrphanTarget)
    } else {
        Ok(())
    }
}

/// Whether `page` carries the notice of an orphan.
pub fn is_orphan(page: &str) -> (outcome: Result<bool, ExtractionError>)
    ensures
        match selection(page@, ORPHAN_NOTICE@, CLASS@) {
            Some(notices) => outcome == Ok::<bool, ExtractionError>(notices.len() > 0),
            None => outcome == Err::<bool, ExtractionError>(ExtractionError::Selector),
        },
{
    match query(page, ORPHAN_NOTICE, CLASS) {
        Ok(notices) => Ok(notices.len() > 0),
        Err(e) => Err(e),
    }
}

/// What the checks say of a pair of articles, given what was selected on
/// the page of the start and on the page of the end: first `Err` where a
/// page that had to be read could not be, then the verdict. A pair in
/// different languages is refused before any page is read.
pub open spec fn verdict_of_pages(
    start: AddressView,
    end: AddressView,
    anchors: Option<Seq<ElementView>>,
    notices: Option<Seq<ElementView>>,
) -> Result<Result<(), ValidationError>, ExtractionError> {
    if start.language != end.language {
        Ok(Err(ValidationError::LanguageMismatch))
    } else {
        match anchors {
            None => Err(ExtractionError::Selector),
            Some(anchors) => if links_of(start, anchors).len() == 0 {
                Ok(Err(ValidationError::DeadEnd))
            } else {
                match notices {
                    None => Err(ExtractionError::Selector),
                    Some(notices) => Ok(
                        verdict(start, end, links_of(start, anchors), notices.len() > 0),
                    ),
                }
            },
        }
    }
}

/// Checks that a search from `start` for `end` is worth the while, on the
/// pages fetched at the two addresses: the languages first, then the links
/// of `start_page`, then the notice on `end_page`.
pub fn validate_pages(
    start: &Address,
    end: &Address,
    start_page: &str,
    end_page: &str,
) -> (outcome: Result<Result<(), ValidationError>, ExtractionError>)
    ensures
        outcome == verdict_of_pages(
            start@,
            end@,
            selection(start_page@, PARAGRAPH_ANCHORS@, TARGET@),
            selection(end_page@, ORPHAN_NOTICE@, CLASS@),
        ),
        start@.language != end@.language ==> outcome == Ok::<
            Result<(), ValidationError>,
            ExtractionError,
        >(Err(ValidationError::LanguageMismatch)),
{
    if start.language != end.language {
        return Ok(Err(ValidationError::LanguageMismatch));
    }
    let start_links = match extract_links(start_page, start) {
        Ok(links) => links,
        Err(e) => {
            return Err(e);
        },
    };
    if start_links.len() == 0 {
        return Ok(Err(ValidationError::DeadEnd));
    }
    match is_orphan(end_page) {
        Ok(end_is_orphan) => Ok(validate(start, end, &start_links, end_is_orphan)),
        Err(e) => Err(e),
    }
}

/// What the checks say of a pair of articles, given the answers to the
/// fetches of their pages. Each page is asked for only when its check is
/// due: a pair in different languages is refused whatever the answers are,
/// and a start without links is refused whatever the answer for the end is.
/// A fetch that failed, or a page that cannot be read, is reported when its
/// check is due.
pub open spec fn verdict_of_fetched(
    start: AddressView,
    end: AddressView,
    start_page: Option<Seq<char>>,
    end_page: Option<Seq<char>>,
) -> Result<Result<(), ValidationError>, SearchError> {
    if start.language != end.language {
        Ok(Err(ValidationError::LanguageMismatch))
    } else {
        match start_page {
            None => Err(SearchError::Fetch),
            Some(start_page) => match selection(start_page, PARAGRAPH_ANCHORS@, TARGET@) {
                None => Err(SearchError::Extraction(ExtractionError::Selector)),
                Some(anchors) => if links_of(start, anchors).len() == 0 {
                    Ok(Err(ValidationError::DeadEnd))
                } else {
                    match end_page {
                        None => Err(SearchError::Fetch),
                        Some(end_page) => match selection(end_page, ORPHAN_NOTICE@, CLASS@) {
                            None => Err(SearchError::Extraction(ExtractionError::Selector)),
                            Some(notices) => Ok(
                                verdict(start, end, links_of(start, anchors), notices.len() > 0),
                            ),
                        },
                    }
                },
            },
        }
    }
}

/// Checks that a search from `start` for `end` is worth the while, on the
/// answers to the fetches of the two pages: a page, or `None` where the
/// fetch failed.
pub fn validate_fetched(
    start: &Address,
    end: &Address,
    start_page: Option<&str>,
    end_page: Option<&str>,
) -> (outcome: Result<Result<(), ValidationError>, SearchError>)
    ensures
        outcome == verdict_of_fetched(start@, end@, page_view(start_page), page_view(end_page)),
        start@.language != end@.language ==> outcome == Ok::<
            Result<(), ValidationError>,
            SearchError,
        >(Err(ValidationError::LanguageMismatch)),
{
    if start.language != end.language {
        return Ok(Err(ValidationError::LanguageMismatch));
    }
    let start_links = match start_page {
        None => {
            return Err(SearchError::Fetch);
        },
        Some(page) => match extract_links(page, start) {
            Ok(links) => links,
            Err(e) => {
                return Err(SearchError::Extraction(e));
            },
        },
    };
    if start_links.len() == 0 {
        return Ok(Err(ValidationError::DeadEnd));
    }
    match end_page {
        None => Err(SearchError::Fetch),
        Some(page) => match is_orphan(page) {
            Ok(end_is_orphan) => Ok(validate(start, end, &start_links, end_is_orphan)),
            Err(e) => Err(SearchError::Extraction(e)),
        },
    }
}

/// The first check wins. A pair of articles in different languages is
/// refused for the languages, whatever the links of the start and the
/// notice on the end are.
pub proof fn law_language_first(
    start: AddressView,
    end: AddressView,
    start_links: Seq<AddressView>,
    end_is_orphan: bool,
)
    requires
        start.language != end.language,
    ensures
        verdict(start, end, start_links, end_is_orphan) == Err::<(), ValidationError>(
            ValidationError::LanguageMismatch,
        ),
        forall|anchors: Option<Seq<ElementView>>, notices: Option<Seq<ElementView>>| #[trigger]
            verdict_of_pages(start, end, anchors, notices) == Ok::<
                Result<(), ValidationError>,
                ExtractionError,
            >(Err(ValidationError::LanguageMismatch)),
        forall|start_page: Option<Seq<char>>, end_page: Option<Seq<char>>| #[trigger]
            verdict_of_fetched(start, end, start_page, end_page) == Ok::<
                Result<(), ValidationError>,
                SearchError,
            >(Err(ValidationError::LanguageMismatch)),
{
}

} // verus!
