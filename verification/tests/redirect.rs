use wikiracer::address::Address;
use wikiracer::document::{Element, ExtractionError};
use wikiracer::redirect::{render, resolve, resolve_among, resolve_fetched, slug};
use wikiracer::search::SearchError;

fn article(title: &str) -> Address {
    Address {
        language: "en".to_string(),
        domain: "wikipedia.org".to_string(),
        title: title.to_string(),
    }
}

fn page(heading: &str) -> String {
    format!(
        "<html><head><title>t</title></head><body><h1 id=\"firstHeading\">{}</h1>\
         <p>text <a href=\"/wiki/A\">a</a></p><h1>Other</h1></body></html>",
        heading
    )
}

#[test]
fn spaces_become_underscores() {
    assert_eq!(slug("Rust (programming language)"), "Rust_(programming_language)");
    assert_eq!(slug("Rust"), "Rust");
    assert_eq!(slug(""), "");
    assert_eq!(slug(" "), "_");
    assert_eq!(slug("  a  "), "__a__");
    assert_eq!(slug("a_b c"), "a_b_c");
    assert_eq!(slug("Zürich See"), "Zürich_See");
    assert_eq!(slug("lower Case"), "lower_Case");
}

#[test]
fn a_redirect_is_resolved_to_the_title_of_its_page() {
    let resolved = resolve(&article("USA"), &page("United States"));
    assert_eq!(resolved, Ok(article("United_States")));
}

#[test]
fn a_resolved_address_stays_on_its_site() {
    let address = Address {
        language: "de".to_string(),
        domain: "example.net".to_string(),
        title: "BRD".to_string(),
    };
    assert_eq!(
        resolve(&address, &page("Deutschland")),
        Ok(Address {
            language: "de".to_string(),
            domain: "example.net".to_string(),
            title: "Deutschland".to_string(),
        })
    );
}

#[test]
fn a_canonical_address_is_resolved_to_itself() {
    let address = article("United_States");
    let once = resolve(&address, &page("United States")).unwrap();
    assert_eq!(once, address);
    assert_eq!(resolve(&once, &page("United States")), Ok(address));
}

#[test]
fn the_heading_is_the_whole_text_of_the_first_heading() {
    assert_eq!(
        resolve(&article("X"), &page("<span class=\"mw-page-title-main\">Rust Belt</span>")),
        Ok(article("Rust_Belt"))
    );
    assert_eq!(resolve(&article("X"), &page("<i>Alien</i> (film)")), Ok(article("Alien_(film)")));
    assert_eq!(
        resolve(&article("X"), &page("The <i>Big <b>Sleep</b></i> (1946 <span>film</span>)")),
        Ok(article("The_Big_Sleep_(1946_film)"))
    );
}

#[test]
fn a_heading_with_markup_is_rendered_whole() {
    let address = Address {
        language: "en".to_string(),
        domain: "wikipedia.org".to_string(),
        title: "H".to_string(),
    };
    let resolved =
        resolve(&address, "<html><body><h1><i>Homo</i> sapiens</h1></body></html>").unwrap();
    assert_eq!(resolved, article("Homo_sapiens"));
    assert_eq!(resolved.url(), "https://en.wikipedia.org/wiki/Homo_sapiens");
}

#[test]
fn a_canonical_address_with_markup_in_its_heading_is_resolved_to_itself() {
    let address = article("Alien_(film)");
    assert_eq!(resolve(&address, &page("<i>Alien</i> (film)")), Ok(address));
}

#[test]
fn texts_render_one_after_the_other() {
    assert_eq!(render(&vec!["Homo".to_string(), " sapiens".to_string()]), "Homo sapiens");
    assert_eq!(render(&vec!["a".to_string(), "".to_string(), "b".to_string()]), "ab");
    assert_eq!(render(&vec![" ".to_string()]), " ");
    assert_eq!(render(&Vec::new()), "");
}

#[test]
fn a_page_without_heading_is_not_resolved() {
    assert_eq!(
        resolve(&article("X"), "<html><body><p>text</p></body></html>"),
        Err(ExtractionError::MissingHeading)
    );
    assert_eq!(resolve(&article("X"), ""), Err(ExtractionError::MissingHeading));
    assert_eq!(
        resolve(&article("X"), "<h1></h1><h1>Second</h1>"),
        Err(ExtractionError::MissingHeading)
    );
}

#[test]
fn headings_are_resolved_from_what_was_read_of_them() {
    let headings = vec![
        Element { attribute: None, texts: vec!["A B".to_string(), " C".to_string()] },
        Element { attribute: None, texts: vec!["D".to_string()] },
    ];
    assert_eq!(resolve_among(&article("X"), &headings), Ok(article("A_B_C")));
    assert_eq!(resolve_among(&article("X"), &Vec::new()), Err(ExtractionError::MissingHeading));
    let empty = vec![
        Element { attribute: Some("id".to_string()), texts: Vec::new() },
        Element { attribute: None, texts: vec!["D".to_string()] },
    ];
    assert_eq!(resolve_among(&article("X"), &empty), Err(ExtractionError::MissingHeading));
    let blank = vec![Element { attribute: None, texts: vec!["".to_string()] }];
    assert_eq!(resolve_among(&article("X"), &blank), Ok(article("")));
}

#[test]
fn a_failed_fetch_resolves_nothing() {
    assert_eq!(resolve_fetched(&article("X"), None), Err(SearchError::Fetch));
    assert_eq!(
        resolve_fetched(&article("X"), Some("<p>no heading</p>")),
        Err(SearchError::Extraction(ExtractionError::MissingHeading))
    );
    assert_eq!(
        resolve_fetched(&article("USA"), Some(&page("United <b>States</b>"))),
        Ok(article("United_States"))
    );
}
