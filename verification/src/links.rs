//! The links that lead from one article to others.

use vstd::prelude::*;
use crate::address::{ARTICLE_PATH, Address, AddressView, holds};
use crate::document::{Element, ElementView, ExtractionError, query, selection};
use crate::text::{starts_with, tail};

verus! {

/// Selects the anchors that stand in the paragraphs of a page's body.
pub const PARAGRAPH_ANCHORS: &'static str = "p a[href]";

/// The attribute that holds an anchor's target.
pub const TARGET: &'static str = "href";

/// What the titles of special pages begin with.
pub const SPECIAL: &'static str = "Special:";

/// What the titles of categories begin with.
pub const CATEGORY: &'static str = "Category:";

/// What the titles of files begin with.
pub const FILE: &'static str = "File:";

/// Whether `title` names a page outside the articles: a special page, a
/// category or a file.
pub open spec fn is_reserved(title: Seq<char>) -> bool {
    SPECIAL@.is_prefix_of(title) || CATEGORY@.is_prefix_of(title) || FILE@.is_prefix_of(title)
}

/// The title of the article that `href` refers to, where it refers to an
/// article of the same site.
pub open spec fn linked_title(href: Seq<char>) -> Option<Seq<char>> {
    let title = href.skip(ARTICLE_PATH@.len() as int);
    if ARTICLE_PATH@.is_prefix_of(href) && !is_reserved(title) {
        Some(title)
    } else {
        None
    }
}

/// The article that an anchor with the target `href` leads to from a page
/// of `origin`'s site: the article of that title on the same site.
pub open spec fn linked_article(origin: AddressView, href: Seq<char>) -> Option<AddressView> {
    match linked_title(href) {
        Some(title) => Some(
            AddressView { language: origin.language, domain: origin.domain, title },
        ),
        None => None,
    }
}

/// The article that `element` links to from a page of `origin`'s site.
pub open spec fn target(origin: AddressView, element: ElementView) -> Option<AddressView> {
    match element.attribute {
        Some(href) => linked_article(origin, href),
        None => None,
    }
}

/// The articles that `elements` link to, each once, in the order in which
/// they are first linked.
pub open spec fn links_of(origin: AddressView, elements: Seq<ElementView>) -> Seq<AddressView>
    decreases elements.len(),
{
    if elements.len() == 0 {
        Seq::empty()
    } else {
        let earlier = links_of(origin, elements.drop_last());
        match target(origin, elements.last()) {
            Some(address) => if earlier.contains(address) {
                earlier
            } else {
                earlier.push(address)
            },
            None => earlier,
        }
    }
}

/// The links of a page are a set. No article stands twice among them, and
/// an article is among them exactly when one of the elements links to it.
pub proof fn law_links_are_a_set(origin: AddressView, elements: Seq<ElementView>)
    ensures
        links_of(origin, elements).no_duplicates(),
        forall|address: AddressView|
            links_of(origin, elements).contains(address) <==> exists|i: int|
                0 <= i < elements.len() && #[trigger] target(origin, elements[i]) == Some(address),
    decreases elements.len(),
{
    if elements.len() > 0 {
        let links = links_of(origin, elements);
        let read = elements.drop_last();
        let earlier = links_of(origin, read);
        law_links_are_a_set(origin, read);
        assert forall|address: AddressView| links.contains(address) implies exists|i: int|
            0 <= i < elements.len() && #[trigger] target(origin, elements[i]) == Some(
                address,
            ) by {
            if earlier.contains(address) {
                let i = choose|i: int|
                    0 <= i < read.len() && #[trigger] target(origin, read[i]) == Some(address);
                assert(target(origin, elements[i]) == Some(address));
            } else {
                assert(links[links.index_of(address)] == address);
                assert(target(origin, elements[elements.len() - 1]) == Some(address));
            }
        }
        assert forall|address: AddressView|
            (exists|i: int|
                0 <= i < elements.len() && #[trigger] target(origin, elements[i]) == Some(
                    address,
                )) implies links.contains(address) by {
            let i = choose|i: int|
                0 <= i < elements.len() && #[trigger] target(origin, elements[i]) == Some(address);
            if i < read.len() {
                assert(target(origin, read[i]) == Some(address));
            }
            if earlier.contains(address) {
                assert(links[earlier.index_of(address)] == address);
            } else {
                assert(links[earlier.len() as int] == address);
            }
        }
    }
}

/// Whether `title` names a special page, a category or a file.
pub fn reserved(title: &str) -> (yes: bool)
    ensures
        yes == is_reserved(title@),
{
    starts_with(title, SPECIAL) || starts_with(title, CATEGORY) || starts_with(title, FILE)
}

/// The article that an anchor with target `href` leads to from a page of
/// `origin`'s site, if it leads to an article.
pub fn article_at(href: &str, origin: &Address) -> (found: Option<Address>)
    ensures
        found.deep_view() == linked_article(origin@, href@),
{
    if !starts_with(href, ARTICLE_PATH) {
        return None;
    }
    let title = tail(href, ARTICLE_PATH.unicode_len());
    if reserved(title.as_str()) {
        return None;
    }
    Some(Address { language: origin.language.clone(), domain: origin.domain.clone(), title })
}

/// The links among `elements`, read on a page of `origin`'s site.
pub fn links_among(elements: &Vec<Element>, origin: &Address) -> (links: Vec<Address>)
    ensures
        links.deep_view() == links_of(origin@, elements.deep_view()),
        links.deep_view().no_duplicates(),
{
    proof {
        law_links_are_a_set(origin@, elements.deep_view());
    }
    let mut links: Vec<Address> = Vec::new();
    let mut i: usize = 0;
    while i < elements.len()
        invariant
            i <= elements.len(),
            links.deep_view() == links_of(origin@, elements.deep_view().take(i as int)),
        decreases elements.len() - i,
    {
        assert(elements.deep_view().take(i + 1).drop_last() == elements.deep_view().take(
            i as int,
        ));
        match &elements[i].attribute {
            Some(href) => {
                match article_at(href.as_str(), origin) {
                    Some(address) => {
                        if !holds(&links, &address) {
                            links.push(address);
                        }
                    },
                    None => {},
                }
            },
            None => {},
        }
        i += 1;
    }
    assert(elements.deep_view().take(i as int) == elements.deep_view());
    links
}

/// The articles that the page `page`, fetched at `origin`, links to from
/// the paragraphs of its body: each once, in the order of first mention.
pub fn extract_links(page: &str, origin: &Address) -> (outcome: Result<
    Vec<Address>,
    ExtractionError,
>)
    ensures
        match selection(page@, PARAGRAPH_ANCHORS@, TARGET@) {
            Some(elements) => outcome matches Ok(links) && links.deep_view() == links_of(
                origin@,
                elements,
            ),
            None => outcome matches Err(e) && e == ExtractionError::Selector,
        },
{
    match query(page, PARAGRAPH_ANCHORS, TARGET) {
        Ok(elements) => Ok(links_among(&elements, origin)),
        Err(e) => Err(e),
    }
}

} // verus!
