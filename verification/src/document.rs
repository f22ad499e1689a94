//! Reading a page's markup through the selector engine of `scraper`.

use vstd::prelude::*;
use crate::text::view_of;

verus! {

/// The error of `scraper::Selector::parse`. It is carried, never read.
#[verifier::external_type_specification]
#[verifier::external_body]
pub struct ExSelectorErrorKind(scraper::error::SelectorErrorKind);

/// What the library reads of one element of a page: the value of the
/// attribute that was asked for, and every piece of text inside the element,
/// in the order of the page.
#[derive(Debug)]
pub struct Element {
    pub attribute: Option<String>,
    pub texts: Vec<String>,
}

/// The mathematical value of an [`Element`].
pub struct ElementView {
    pub attribute: Option<Seq<char>>,
    pub texts: Seq<Seq<char>>,
}

impl View for Element {
    type V = ElementView;

    open spec fn view(&self) -> ElementView {
        ElementView { attribute: view_of(self.attribute), texts: self.texts.deep_view() }
    }
}

impl DeepView for Element {
    type V = ElementView;

    open spec fn deep_view(&self) -> ElementView {
        self@
    }
}

/// Why a page could not be read.
#[derive(Debug, Clone, Copy, PartialEq, Eq, Structural)]
pub enum ExtractionError {
    /// The selector engine refused a selector.
    Selector,
    /// The page has no primary heading, or the heading holds no text.
    MissingHeading,
}

/// The elements of `document` that `selector` matches, in the order in which
/// `scraper` yields them, each read for `attribute` and for its texts;
/// `None` where `scraper` does not accept `selector`.
pub uninterp spec fn selection(
    document: Seq<char>,
    selector: Seq<char>,
    attribute: Seq<char>,
) -> Option<Seq<ElementView>>;

/// `scraper::Selector::parse` on `selector`, then `scraper::Html::parse_document`
/// on `document` and `Html::select`; of each element that comes out,
/// `Element::attr` for `attribute` and every item of `ElementRef::text`.
/// The contract gives the outcome its name, [`selection`], and says nothing
/// else of it: what `scraper` makes of a document is not stated here.
#[verifier::external_body]
fn select(document: &str, selector: &str, attribute: &str) -> (found: Result<
    Vec<Element>,
    scraper::error::SelectorErrorKind,
>)
    ensures
        match found {
            Ok(elements) => selection(document@, selector@, attribute@) == Some(
                elements.deep_view(),
            ),
            Err(_) => selection(document@, selector@, attribute@) is None,
        },
{
    let selector = scraper::Selector::parse(selector)?;
    Ok(
        scraper::Html::parse_document(document)
            .select(&selector)
            .map(|e| Element {
                attribute: e.value().attr(attribute).map(str::to_owned),
                texts: e.text().map(str::to_owned).collect(),
            })
            .collect(),
    )
}

/// The elements of `document` that `selector` matches, each read for
/// `attribute` and for its texts.
pub fn query(document: &str, selector: &str, attribute: &str) -> (outcome: Result<
    Vec<Element>,
    ExtractionError,
>)
    ensures
        match selection(document@, selector@, attribute@) {
            Some(elements) => outcome matches Ok(found) && found.deep_view() == elements,
            None => outcome matches Err(e) && e == ExtractionError::Selector,
        },
{
    match select(document, selector, attribute) {
        Ok(found) => Ok(found),
        Err(_) => Err(ExtractionError::Selector),
    }
}

} // verus!
