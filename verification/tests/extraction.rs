use scraper_engine::extract::{extract, extract_field, Page};
use scraper_engine::text::{join_texts, trim_str};

fn pairs(entries: &[(&str, &str)]) -> Vec<(String, String)> {
    entries.iter().map(|(k, v)| (k.to_string(), v.to_string())).collect()
}

#[test]
fn invalid_selector_yields_sentinel() {
    let page = "<html><body><h1>Headline</h1></body></html>";
    let selectors = pairs(&[("bad", "###bad[["), ("title", "h1")]);
    let data = extract(page, &selectors);
    assert_eq!(data.len(), 2);
    assert_eq!(data[0], ("bad".to_string(), "Invalid CSS Selector".to_string()));
    assert_eq!(data[1], ("title".to_string(), "Headline".to_string()));
}

#[test]
fn unmatched_selector_yields_empty_string() {
    let page = "<html><body><p>text</p></body></html>";
    let selectors = pairs(&[("missing", "#nope")]);
    let data = extract(page, &selectors);
    assert_eq!(data, pairs(&[("missing", "")]));
}

#[test]
fn found_but_empty_element_yields_empty_string() {
    let page = "<html><body><div id=\"empty\"></div></body></html>";
    let selectors = pairs(&[("field", "#empty")]);
    let data = extract(page, &selectors);
    assert_eq!(data, pairs(&[("field", "")]));
}

#[test]
fn descendant_texts_are_trimmed_and_joined_with_single_space() {
    let page = "<div id=\"x\"><span>  Hello </span><span>World  </span></div>";
    let doc = Page::parse(page);
    assert_eq!(extract_field(&doc, "#x"), "Hello World");
}

#[test]
fn whitespace_only_text_nodes_are_dropped() {
    let page = "<div id=\"x\"><span>   </span><span>kept</span><span>\t\n</span></div>";
    let doc = Page::parse(page);
    assert_eq!(extract_field(&doc, "#x"), "kept");
}

#[test]
fn first_match_in_document_order_wins() {
    let page = "<ul><li>first</li><li>second</li><li>third</li></ul>";
    let doc = Page::parse(page);
    assert_eq!(extract_field(&doc, "li"), "first");
}

#[test]
fn nested_descendant_text_is_collected() {
    let page = "<article><h2>Top <em>inner</em></h2><p>after</p></article>";
    let doc = Page::parse(page);
    assert_eq!(extract_field(&doc, "article"), "Top inner after");
}

#[test]
fn malformed_markup_is_parsed_leniently() {
    let page = "<div id=\"a\"><p>unclosed";
    let doc = Page::parse(page);
    assert_eq!(extract_field(&doc, "#a"), "unclosed");
}

#[test]
fn class_selector_matches() {
    let page = "<h1 class=\"product-title\">  Wireless Mouse </h1>";
    let doc = Page::parse(page);
    assert_eq!(extract_field(&doc, "h1.product-title"), "Wireless Mouse");
}

#[test]
fn extraction_covers_every_requested_field_in_order() {
    let page = "<html><body><h1>A</h1><p class=\"b\">B</p></body></html>";
    let selectors = pairs(&[("one", "h1"), ("two", "p.b"), ("three", "#none"), ("four", "(((")]);
    let data = extract(page, &selectors);
    let keys: Vec<&String> = data.iter().map(|(k, _)| k).collect();
    assert_eq!(keys, ["one", "two", "three", "four"]);
    assert_eq!(data[0].1, "A");
    assert_eq!(data[1].1, "B");
    assert_eq!(data[2].1, "");
    assert_eq!(data[3].1, "Invalid CSS Selector");
}

#[test]
fn join_texts_trims_each_piece() {
    let pieces = vec!["  Hello ".to_string(), "World  ".to_string()];
    assert_eq!(join_texts(&pieces), "Hello World");
}

#[test]
fn join_texts_of_nothing_is_empty() {
    let pieces: Vec<String> = Vec::new();
    assert_eq!(join_texts(&pieces), "");
}

#[test]
fn join_texts_skips_whitespace_only_pieces() {
    let pieces = vec!["  ".to_string(), "a".to_string(), "\n".to_string(), "b".to_string()];
    assert_eq!(join_texts(&pieces), "a b");
}

#[test]
fn trim_str_removes_unicode_whitespace() {
    assert_eq!(trim_str("\u{00A0}\t padded \u{3000}\n"), "padded");
    assert_eq!(trim_str(""), "");
    assert_eq!(trim_str("   "), "");
    assert_eq!(trim_str("solid"), "solid");
    assert_eq!(trim_str("inner  space kept  "), "inner  space kept");
}
