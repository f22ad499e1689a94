use wikiracer::address::{holds, Address, AddressError, LANGUAGE_PATTERN};
use wikiracer::pattern::{find, PatternError};
use wikiracer::text::{starts_with, tail};

fn article(language: &str, title: &str) -> Address {
    Address {
        language: language.to_string(),
        domain: "wikipedia.org".to_string(),
        title: title.to_string(),
    }
}

#[test]
fn an_address_is_read_off_its_url() {
    assert_eq!(
        Address::parse("https://en.wikipedia.org/wiki/Rust_(programming_language)"),
        Ok(article("en", "Rust_(programming_language)"))
    );
    assert_eq!(
        Address::parse("https://als.wikipedia.org/wiki/Z%C3%BCrich"),
        Ok(article("als", "Z%C3%BCrich"))
    );
    assert_eq!(Address::parse("https://de.wikipedia.org/wiki/"), Ok(article("de", "")));
}

#[test]
fn a_text_that_is_no_article_address_is_refused() {
    for url in [
        "",
        "Rust",
        "http://en.wikipedia.org/wiki/Rust",
        "https://en.wikipedia.org/Rust",
        "https://e.wikipedia.org/wiki/Rust",
        "https://simple.wikipedia.org/wiki/Rust",
        "https://EN.wikipedia.org/wiki/Rust",
        "https://en.wikipedia.com/wiki/Rust",
        "see https://en.wikipedia.org/wiki/Rust",
    ] {
        assert_eq!(Address::parse(url), Err(AddressError::Unrecognized), "{}", url);
    }
}

#[test]
fn an_address_is_written_out_as_it_was_read() {
    let url = "https://fr.wikipedia.org/wiki/Paris#Histoire";
    assert_eq!(Address::parse(url).unwrap().url(), url);
    assert_eq!(article("en", "A_B").url(), "https://en.wikipedia.org/wiki/A_B");
    let other = Address {
        language: "xx".to_string(),
        domain: "example.net".to_string(),
        title: "T".to_string(),
    };
    assert_eq!(other.url(), "https://xx.example.net/wiki/T");
}

#[test]
fn an_address_is_located_in_the_language_given() {
    assert_eq!(Address::locate("https://en.wikipedia.org/wiki/A", "en"), Some(article("en", "A")));
    assert_eq!(Address::locate("https://en.wikipedia.org/wiki/A", "de"), None);
    assert_eq!(Address::locate("https://en.wikipedia.org/wiki", "en"), None);
    assert_eq!(Address::locate("xhttps://en.wikipedia.org/wiki/A", "en"), None);
}

#[test]
fn addresses_are_equal_when_all_three_parts_are() {
    assert_eq!(article("en", "A"), article("en", "A"));
    assert_ne!(article("en", "A"), article("en", "a"));
    assert_ne!(article("en", "A"), article("de", "A"));
    let elsewhere = Address {
        language: "en".to_string(),
        domain: "wikipedia.com".to_string(),
        title: "A".to_string(),
    };
    assert_ne!(article("en", "A"), elsewhere);
    assert_eq!(elsewhere.clone(), elsewhere);
}

#[test]
fn an_address_is_found_in_a_list_that_holds_it() {
    let list = vec![article("en", "A"), article("en", "B")];
    assert!(holds(&list, &article("en", "B")));
    assert!(!holds(&list, &article("de", "B")));
    assert!(!holds(&Vec::new(), &article("en", "A")));
}

#[test]
fn the_language_pattern_captures_the_language_code() {
    assert_eq!(
        find(LANGUAGE_PATTERN, "https://en.wikipedia.org/wiki/Rust", 1),
        Ok(Some("en".to_string()))
    );
    assert_eq!(
        find(LANGUAGE_PATTERN, "go to https://nds.wikipedia.org/wiki/X now", 1),
        Ok(Some("nds".to_string()))
    );
    assert_eq!(
        find(LANGUAGE_PATTERN, "https://en.wikipedia.org/wiki/Rust", 0),
        Ok(Some("https://en.wikipedia.org/wiki/".to_string()))
    );
    assert_eq!(find(LANGUAGE_PATTERN, "https://en.wikipedia.org/wiki/Rust", 2), Ok(None));
    assert_eq!(find(LANGUAGE_PATTERN, "https://enxwikipedia.org/wiki/Rust", 1), Ok(None));
    assert_eq!(find("a(b)?c", "ac", 1), Ok(None));
}

#[test]
fn a_broken_pattern_is_refused() {
    assert_eq!(find("(", "text", 0), Err(PatternError::Refused));
    assert_eq!(find("[a-", "text", 0), Err(PatternError::Refused));
}

#[test]
fn a_text_begins_with_its_prefixes() {
    assert!(starts_with("/wiki/Rust", "/wiki/"));
    assert!(starts_with("/wiki/", "/wiki/"));
    assert!(starts_with("abc", ""));
    assert!(starts_with("", ""));
    assert!(!starts_with("/wiki", "/wiki/"));
    assert!(!starts_with("", "a"));
    assert!(!starts_with("a/wiki/", "/wiki/"));
    assert!(starts_with("Zürich", "Zü"));
    assert!(!starts_with("Zürich", "Zu"));
}

#[test]
fn the_tail_of_a_text_is_counted_in_characters() {
    assert_eq!(tail("/wiki/Rust", 6), "Rust");
    assert_eq!(tail("Zürich", 2), "rich");
    assert_eq!(tail("abc", 0), "abc");
    assert_eq!(tail("abc", 3), "");
    assert_eq!(tail("abc", 4), "");
}
