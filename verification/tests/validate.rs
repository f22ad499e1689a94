use wikiracer::address::Address;
use wikiracer::links::extract_links;
use wikiracer::document::ExtractionError;
use wikiracer::search::SearchError;
use wikiracer::validate::{
    is_orphan, validate, validate_fetched, validate_pages, ValidationError,
};

fn article(language: &str, title: &str) -> Address {
    Address {
        language: language.to_string(),
        domain: "wikipedia.org".to_string(),
        title: title.to_string(),
    }
}

const ORPHAN: &str = "<html><body>\
    <table class=\"box-Orphan plainlinks metadata ambox ambox-style ambox-Orphan\">\
    <tr><td>This article is an orphan.</td></tr></table><p>text</p></body></html>";

#[test]
fn a_well_posed_pair_passes() {
    let links = vec![article("en", "A")];
    assert_eq!(validate(&article("en", "Start"), &article("en", "End"), &links, false), Ok(()));
}

#[test]
fn different_languages_are_refused() {
    let links = vec![article("en", "A")];
    assert_eq!(
        validate(&article("en", "Start"), &article("de", "End"), &links, false),
        Err(ValidationError::LanguageMismatch)
    );
}

#[test]
fn a_start_without_links_is_refused() {
    assert_eq!(
        validate(&article("en", "Start"), &article("en", "End"), &Vec::new(), false),
        Err(ValidationError::DeadEnd)
    );
}

#[test]
fn an_orphan_end_is_refused() {
    let links = vec![article("en", "A")];
    assert_eq!(
        validate(&article("en", "Start"), &article("en", "End"), &links, true),
        Err(ValidationError::OrphanTarget)
    );
}

#[test]
fn the_first_check_that_fails_decides() {
    let start = article("en", "Start");
    assert_eq!(
        validate(&start, &article("de", "End"), &Vec::new(), false),
        Err(ValidationError::LanguageMismatch)
    );
    assert_eq!(
        validate(&start, &article("de", "End"), &Vec::new(), true),
        Err(ValidationError::LanguageMismatch)
    );
    assert_eq!(
        validate(&start, &article("en", "End"), &Vec::new(), true),
        Err(ValidationError::DeadEnd)
    );
}

#[test]
fn the_language_alone_is_compared() {
    let start = Address {
        language: "en".to_string(),
        domain: "example.net".to_string(),
        title: "Start".to_string(),
    };
    let links = vec![article("en", "A")];
    assert_eq!(validate(&start, &article("en", "End"), &links, false), Ok(()));
}

#[test]
fn the_pages_decide_a_dead_end() {
    let start = article("en", "Start");
    let page = "<html><body><div><a href=\"/wiki/A\">a</a></div><p>no links</p></body></html>";
    let links = extract_links(page, &start).unwrap();
    assert_eq!(
        validate(&start, &article("en", "End"), &links, is_orphan(ORPHAN).unwrap()),
        Err(ValidationError::DeadEnd)
    );
}

#[test]
fn the_notice_of_an_orphan_is_seen() {
    assert_eq!(is_orphan(ORPHAN), Ok(true));
    assert_eq!(is_orphan("<html><body><p>text</p></body></html>"), Ok(false));
    assert_eq!(is_orphan(""), Ok(false));
    assert_eq!(
        is_orphan("<table class=\"plainlinks metadata ambox ambox-style\"></table>"),
        Ok(false)
    );
    assert_eq!(
        is_orphan("<div class=\"plainlinks metadata ambox ambox-style ambox-Orphan\"></div>"),
        Ok(false)
    );
}

const LINKED: &str = "<html><body><p>see <a href=\"/wiki/A\">a</a></p></body></html>";

const UNLINKED: &str = "<html><body><div><a href=\"/wiki/A\">a</a></div>\
    <p>see <a href=\"/wiki/File:A.png\">a</a></p></body></html>";

#[test]
fn the_pages_of_a_well_posed_pair_pass() {
    let outcome = validate_pages(&article("en", "Start"), &article("en", "End"), LINKED, LINKED);
    assert_eq!(outcome, Ok(Ok(())));
}

#[test]
fn each_check_fails_on_its_page() {
    let start = article("en", "Start");
    let end = article("en", "End");
    assert_eq!(
        validate_pages(&start, &article("fr", "End"), LINKED, LINKED),
        Ok(Err(ValidationError::LanguageMismatch))
    );
    assert_eq!(
        validate_pages(&start, &end, UNLINKED, LINKED),
        Ok(Err(ValidationError::DeadEnd))
    );
    assert_eq!(
        validate_pages(&start, &end, LINKED, ORPHAN),
        Ok(Err(ValidationError::OrphanTarget))
    );
    assert_eq!(validate_pages(&start, &end, ORPHAN, LINKED), Ok(Err(ValidationError::DeadEnd)));
}

#[test]
fn the_language_is_checked_before_the_pages() {
    let start = article("en", "Start");
    let end = article("de", "End");
    assert_eq!(
        validate_pages(&start, &end, UNLINKED, LINKED),
        Ok(Err(ValidationError::LanguageMismatch))
    );
    assert_eq!(
        validate_pages(&start, &end, UNLINKED, ORPHAN),
        Ok(Err(ValidationError::LanguageMismatch))
    );
    assert_eq!(
        validate_pages(&start, &end, LINKED, ORPHAN),
        Ok(Err(ValidationError::LanguageMismatch))
    );
}

#[test]
fn a_dead_end_is_seen_before_an_orphan() {
    let start = article("en", "Start");
    let end = article("en", "End");
    assert_eq!(validate_pages(&start, &end, UNLINKED, ORPHAN), Ok(Err(ValidationError::DeadEnd)));
    assert_eq!(validate_pages(&start, &end, "", ORPHAN), Ok(Err(ValidationError::DeadEnd)));
}

#[test]
fn a_failed_fetch_is_reported_when_its_check_is_due() {
    let start = article("en", "Start");
    let end = article("en", "End");
    assert_eq!(validate_fetched(&start, &end, None, Some(LINKED)), Err(SearchError::Fetch));
    assert_eq!(validate_fetched(&start, &end, None, None), Err(SearchError::Fetch));
    assert_eq!(validate_fetched(&start, &end, Some(LINKED), None), Err(SearchError::Fetch));
    assert_eq!(
        validate_fetched(&start, &end, Some(UNLINKED), None),
        Ok(Err(ValidationError::DeadEnd))
    );
    assert_eq!(
        validate_fetched(&start, &article("de", "End"), None, None),
        Ok(Err(ValidationError::LanguageMismatch))
    );
}

#[test]
fn fetched_pages_are_checked_as_pages_are() {
    let start = article("en", "Start");
    let end = article("en", "End");
    assert_eq!(validate_fetched(&start, &end, Some(LINKED), Some(LINKED)), Ok(Ok(())));
    assert_eq!(
        validate_fetched(&start, &end, Some(LINKED), Some(ORPHAN)),
        Ok(Err(ValidationError::OrphanTarget))
    );
    assert_eq!(
        validate_fetched(&start, &end, Some(UNLINKED), Some(ORPHAN)),
        Ok(Err(ValidationError::DeadEnd))
    );
    assert_eq!(
        validate_fetched(&start, &article("fr", "End"), Some(UNLINKED), Some(ORPHAN)),
        Ok(Err(ValidationError::LanguageMismatch))
    );
    assert_ne!(SearchError::Fetch, SearchError::Extraction(ExtractionError::MissingHeading));
}
