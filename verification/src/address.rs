//! Article addresses.

use vstd::prelude::*;
use vstd::string::*;
use crate::pattern::{capture, find};
use crate::text::{starts_with, tail};

verus! {

/// The mathematical value of an [`Address`].
pub struct AddressView {
    pub language: Seq<char>,
    pub domain: Seq<char>,
    pub title: Seq<char>,
}

/// Identifies one article: the language code of its site, the site's base
/// domain and the title as it stands in the path, underscores included.
#[derive(Debug)]
pub struct Address {
    pub language: String,
    pub domain: String,
    pub title: String,
}

impl View for Address {
    type V = AddressView;

    open spec fn view(&self) -> AddressView {
        AddressView { language: self.language@, domain: self.domain@, title: self.title@ }
    }
}

impl DeepView for Address {
    type V = AddressView;

    open spec fn deep_view(&self) -> AddressView {
        self@
    }
}

impl Clone for Address {
    fn clone(&self) -> (copy: Self)
        ensures
            copy == *self,
    {
        Address {
            language: self.language.clone(),
            domain: self.domain.clone(),
            title: self.title.clone(),
        }
    }
}

impl PartialEq for Address {
    fn eq(&self, other: &Self) -> (same: bool) {
        self.language == other.language && self.domain == other.domain && self.title
            == other.title
    }
}

impl Eq for Address {

}

impl vstd::std_specs::cmp::PartialEqSpecImpl for Address {
    open spec fn obeys_eq_spec() -> bool {
        true
    }

    open spec fn eq_spec(&self, other: &Self) -> bool {
        self@ == other@
    }
}

/// Why a text is not taken for an address.
#[derive(Debug, Clone, Copy, PartialEq, Eq, Structural)]
pub enum AddressError {
    /// The pattern engine refused the pattern of the language code.
    Pattern,
    /// The text is not the address of an article.
    Unrecognized,
}

/// The pattern by which the language code is read off an address.
pub const LANGUAGE_PATTERN: &'static str = "https://([a-z]{2,3})\\.wikipedia\\.org/wiki/";

/// The only base domain that [`Address::parse`] accepts.
pub const HOME_DOMAIN: &'static str = "wikipedia.org";

/// What every address begins with.
pub const SCHEME: &'static str = "https://";

/// Stands between the language code and the base domain.
pub const DOT: &'static str = ".";

/// The path under which a site keeps its articles.
pub const ARTICLE_PATH: &'static str = "/wiki/";

/// What every address of the site `language`, `domain` begins with.
pub open spec fn site_of(language: Seq<char>, domain: Seq<char>) -> Seq<char> {
    SCHEME@ + language + DOT@ + domain + ARTICLE_PATH@
}

/// The address written out, as it is fetched.
pub open spec fn url_of(address: AddressView) -> Seq<char> {
    site_of(address.language, address.domain) + address.title
}

/// The article of the home domain that `url` names in the language
/// `language`, if it names one.
pub open spec fn located(url: Seq<char>, language: Seq<char>) -> Option<AddressView> {
    let site = site_of(language, HOME_DOMAIN@);
    if site.is_prefix_of(url) {
        Some(AddressView { language, domain: HOME_DOMAIN@, title: url.skip(site.len() as int) })
    } else {
        None
    }
}

/// What [`Address::parse`] makes of `url`, given what the pattern of the
/// language code captured in it.
pub open spec fn parsed(url: Seq<char>, language: Option<Option<Seq<char>>>) -> Result<
    AddressView,
    AddressError,
> {
    match language {
        None => Err(AddressError::Pattern),
        Some(None) => Err(AddressError::Unrecognized),
        Some(Some(language)) => match located(url, language) {
            Some(address) => Ok(address),
            None => Err(AddressError::Unrecognized),
        },
    }
}

/// An address is written out as it was read: the article that a text names
/// has that text as its address.
pub proof fn law_located_is_written_back(url: Seq<char>, language: Seq<char>)
    ensures
        located(url, language) matches Some(address) ==> url_of(address) == url,
{
}

/// An address is read as it was written out: an article of the home domain
/// is the one that its address names in its language.
pub proof fn law_written_is_located(address: AddressView)
    requires
        address.domain == HOME_DOMAIN@,
    ensures
        located(url_of(address), address.language) == Some(address),
{
    let site = site_of(address.language, HOME_DOMAIN@);
    assert(url_of(address).skip(site.len() as int) =~= address.title);
}

/// The mathematical value of the outcome of [`Address::parse`].
pub open spec fn outcome_view(outcome: Result<Address, AddressError>) -> Result<
    AddressView,
    AddressError,
> {
    match outcome {
        Ok(address) => Ok(address@),
        Err(e) => Err(e),
    }
}

impl Address {
    /// The article `title` of the site `language`, `domain`.
    pub fn new(language: &str, domain: &str, title: &str) -> (address: Address)
        ensures
            address@ == (AddressView { language: language@, domain: domain@, title: title@ }),
    {
        Address {
            language: String::from_str(language),
            domain: String::from_str(domain),
            title: String::from_str(title),
        }
    }

    /// The address written out, as it is fetched.
    pub fn url(&self) -> (url: String)
        ensures
            url@ == url_of(self@),
    {
        let mut url = String::from_str(SCHEME);
        url.append(self.language.as_str());
        url.append(DOT);
        url.append(self.domain.as_str());
        url.append(ARTICLE_PATH);
        url.append(self.title.as_str());
        url
    }

    /// The article of the home domain that `url` names in the language
    /// `language`: `url` is the site of that language followed by a title.
    pub fn locate(url: &str, language: &str) -> (found: Option<Address>)
        ensures
            found.deep_view() == located(url@, language@),
            found matches Some(address) ==> url_of(address@) == url@,
    {
        proof {
            law_located_is_written_back(url@, language@);
        }
        let mut site = String::from_str(SCHEME);
        site.append(language);
        site.append(DOT);
        site.append(HOME_DOMAIN);
        site.append(ARTICLE_PATH);
        if !starts_with(url, site.as_str()) {
            return None;
        }
        let title = tail(url, site.as_str().unicode_len());
        Some(
            Address {
                language: String::from_str(language),
                domain: String::from_str(HOME_DOMAIN),
                title,
            },
        )
    }

    /// Reads `url` as the address of an article. The language code is what
    /// the pattern of the language code captures in `url`; `url` is then held
    /// to be the site of that language followed by a title.
    pub fn parse(url: &str) -> (outcome: Result<Address, AddressError>)
        ensures
            outcome_view(outcome) == parsed(url@, capture(LANGUAGE_PATTERN@, url@, 1)),
            outcome matches Ok(address) ==> url_of(address@) == url@,
    {
        match find(LANGUAGE_PATTERN, url, 1) {
            Err(_) => Err(AddressError::Pattern),
            Ok(None) => Err(AddressError::Unrecognized),
            Ok(Some(language)) => match Address::locate(url, language.as_str()) {
                Some(address) => Ok(address),
                None => Err(AddressError::Unrecognized),
            },
        }
    }
}

/// Whether `wanted` is among `list`.
pub fn holds(list: &Vec<Address>, wanted: &Address) -> (yes: bool)
    ensures
        yes == list.deep_view().contains(wanted@),
{
    let mut i: usize = 0;
    while i < list.len()
        invariant
            i <= list.len(),
            forall|j: int| 0 <= j < i ==> list.deep_view()[j] != wanted@,
        decreases list.len() - i,
    {
        if list[i] == *wanted {
            assert(list.deep_view()[i as int] == wanted@);
            return true;
        }
        i += 1;
    }
    false
}

} // verus!
