use wikiracer::address::Address;
use wikiracer::document::{query, Element, ExtractionError};
use wikiracer::links::{article_at, extract_links, links_among, reserved};

fn article(title: &str) -> Address {
    Address {
        language: "en".to_string(),
        domain: "wikipedia.org".to_string(),
        title: title.to_string(),
    }
}

fn anchor(href: Option<&str>) -> Element {
    Element { attribute: href.map(str::to_string), texts: Vec::new() }
}

#[test]
fn links_are_read_from_paragraphs_only() {
    let page = "<html><body><div><a href=\"/wiki/Nav\">n</a></div>\
        <table><tr><td><a href=\"/wiki/Box\">b</a></td></tr></table>\
        <p>x <a href=\"/wiki/Rust\">r</a> and <b><a href=\"/wiki/Go\">g</a></b></p>\
        <ul><li><a href=\"/wiki/Ref\">ref</a></li></ul></body></html>";
    let links = extract_links(page, &article("Start")).unwrap();
    assert_eq!(links, vec![article("Rust"), article("Go")]);
}

#[test]
fn links_keep_the_order_of_the_page_and_come_once() {
    let page = "<p><a href=\"/wiki/B\">1</a><a href=\"/wiki/A\">2</a></p>\
        <p><a href=\"/wiki/B\">3</a><a href=\"/wiki/C\">4</a><a href=\"/wiki/A\">5</a></p>";
    let links = extract_links(page, &article("Start")).unwrap();
    assert_eq!(links, vec![article("B"), article("A"), article("C")]);
}

#[test]
fn links_that_leave_the_articles_are_no_links() {
    let page = "<p><a href=\"https://example.org/wiki/Out\">o</a>\
        <a href=\"#cite_note-1\">[1]</a>\
        <a href=\"/w/index.php?title=Edit\">e</a>\
        <a href=\"/wiki/File:Map.png\">f</a>\
        <a href=\"/wiki/Category:Maps\">c</a>\
        <a href=\"/wiki/Special:Random\">s</a>\
        <a name=\"here\">no target</a>\
        <a href=\"/wiki/Map\">m</a></p>";
    let links = extract_links(page, &article("Start")).unwrap();
    assert_eq!(links, vec![article("Map")]);
}

#[test]
fn links_stay_on_the_site_of_their_page() {
    let origin = Address {
        language: "de".to_string(),
        domain: "example.net".to_string(),
        title: "Anfang".to_string(),
    };
    let links = extract_links("<p><a href=\"/wiki/Ziel\">z</a></p>", &origin).unwrap();
    assert_eq!(
        links,
        vec![Address {
            language: "de".to_string(),
            domain: "example.net".to_string(),
            title: "Ziel".to_string(),
        }]
    );
}

#[test]
fn a_page_without_paragraph_links_has_no_links() {
    assert_eq!(extract_links("", &article("Start")), Ok(Vec::new()));
    assert_eq!(extract_links("<p>plain text</p>", &article("Start")), Ok(Vec::new()));
    assert_eq!(
        extract_links("<div><a href=\"/wiki/A\">a</a></div>", &article("Start")),
        Ok(Vec::new())
    );
}

#[test]
fn a_title_is_taken_as_it_stands() {
    let origin = article("Start");
    assert_eq!(article_at("/wiki/Rust_(language)", &origin), Some(article("Rust_(language)")));
    assert_eq!(article_at("/wiki/Rust#History", &origin), Some(article("Rust#History")));
    assert_eq!(
        article_at("/wiki/Star_Trek:_Voyager", &origin),
        Some(article("Star_Trek:_Voyager"))
    );
    assert_eq!(article_at("/wiki/", &origin), Some(article("")));
    assert_eq!(article_at("/wiki", &origin), None);
    assert_eq!(article_at("wiki/Rust", &origin), None);
    assert_eq!(article_at("/Wiki/Rust", &origin), None);
    assert_eq!(article_at("", &origin), None);
    assert_eq!(article_at("/wiki/File:Rust.svg", &origin), None);
}

#[test]
fn reserved_titles_are_told_by_their_beginning() {
    assert!(reserved("Special:Search"));
    assert!(reserved("Category:Languages"));
    assert!(reserved("File:Logo.svg"));
    assert!(reserved("File:"));
    assert!(!reserved("Files"));
    assert!(!reserved("special:Search"));
    assert!(!reserved("A_File:_x"));
    assert!(!reserved(""));
}

#[test]
fn links_among_elements_skip_what_has_no_target() {
    let elements = vec![
        anchor(None),
        anchor(Some("/wiki/A")),
        anchor(Some("/other")),
        anchor(Some("/wiki/B")),
        anchor(Some("/wiki/A")),
    ];
    assert_eq!(links_among(&elements, &article("Start")), vec![article("A"), article("B")]);
    assert_eq!(links_among(&Vec::new(), &article("Start")), Vec::new());
}

#[test]
fn a_query_reads_attribute_and_every_text() {
    let page = "<h1 id=\"top\"><i>Big</i> title <b>in <u>parts</u></b>.</h1>\
        <h1>second</h1><h1 id=\"none\"></h1>";
    let found = query(page, "h1", "id").unwrap();
    assert_eq!(found.len(), 3);
    assert_eq!(found[0].attribute, Some("top".to_string()));
    assert_eq!(found[0].texts, vec!["Big", " title ", "in ", "parts", "."]);
    assert_eq!(found[0].texts.concat(), "Big title in parts.");
    assert_eq!(found[1].attribute, None);
    assert_eq!(found[1].texts, vec!["second"]);
    assert_eq!(found[2].attribute, Some("none".to_string()));
    assert_eq!(found[2].texts, Vec::<String>::new());
}

#[test]
fn a_query_with_a_broken_selector_fails() {
    assert_eq!(query("<p>x</p>", "p >", "id").err(), Some(ExtractionError::Selector));
    assert_eq!(query("<p>x</p>", "", "id").err(), Some(ExtractionError::Selector));
}
