//! The pattern extractors on concrete detail documents.

use exhibitor_harvest::extract::{
    enrich_record, extract_address, extract_booth, extract_categories, extract_website,
};
use exhibitor_harvest::record::Exhibitor;

#[test]
fn website_simple() {
    let body = "var data = { websiteValue: \"https://example.com\" };";
    assert_eq!(extract_website(body), Some(String::from("https://example.com")));
}

#[test]
fn website_unescapes_path_separators() {
    let body = "websiteValue: \"https:\\/\\/example.com\\/page\"";
    assert_eq!(extract_website(body), Some(String::from("https://example.com/page")));
}

#[test]
fn website_absent() {
    assert_eq!(extract_website("nothing to see here"), None);
}

#[test]
fn website_empty_quotes_rejected_then_later_match_wins() {
    // The first occurrence carries an empty URI, which the pattern refuses;
    // the scan goes on and takes the next full match.
    let body = "websiteValue: \"\" junk websiteValue: \"https://a.example\"";
    assert_eq!(extract_website(body), Some(String::from("https://a.example")));
}

#[test]
fn address_assembly_scenario() {
    let body = "addressValues: {\"ADDRESS1\":\"123 Main\",\"CITY\":\"Reno\",\"STATE\":\"-\",\"ZIP\":\"89501\",\"COUNTRY\":\"USA\"}";
    assert_eq!(extract_address(body), Some(String::from("123 Main, Reno, 89501, USA")));
}

#[test]
fn address_empty_parts_skipped() {
    let body = "addressValues: {\"ADDRESS1\":\"1 Way\",\"ADDRESS2\":\"\",\"CITY\":\"Oslo\"}";
    assert_eq!(extract_address(body), Some(String::from("1 Way, Oslo")));
}

#[test]
fn address_malformed_fragment_is_absent() {
    // A non-string value makes the fragment malformed, which counts as absent.
    let body = "addressValues: {\"ADDRESS1\":1}";
    assert_eq!(extract_address(body), None);
}

#[test]
fn address_absent() {
    assert_eq!(extract_address("no address markers at all"), None);
}

#[test]
fn booth_primary_pattern() {
    let body = "<a>LVCC, Central Hall &mdash; 17214</a>";
    let (venue, full) = extract_booth(body).unwrap();
    assert_eq!(venue, "LVCC, Central Hall");
    assert_eq!(full, "LVCC, Central Hall - 17214");
}

#[test]
fn booth_plain_hyphen_and_letter_code() {
    let body = "Venetian Tower - 2041A and more";
    let (venue, full) = extract_booth(body).unwrap();
    assert_eq!(venue, "Venetian Tower");
    assert_eq!(full, "Venetian Tower - 2041A");
}

#[test]
fn booth_em_dash_separator() {
    let body = "LVCC West \u{2014} 3001";
    let (venue, full) = extract_booth(body).unwrap();
    assert_eq!(venue, "LVCC West");
    assert_eq!(full, "LVCC West - 3001");
}

#[test]
fn booth_hospitality_fallback() {
    let body = "<span>Westin Hospitality Suites Floor 2</span>";
    let (venue, full) = extract_booth(body).unwrap();
    assert_eq!(venue, "Westin Hospitality Suites Floor 2");
    assert_eq!(full, venue);
}

#[test]
fn booth_absent() {
    assert_eq!(extract_booth("no venue mentioned"), None);
}

#[test]
fn categories_filtering_scenario() {
    // Four captures: the placeholder heading, a two-character token, a
    // one-character token and one real category. Only inner text longer than
    // two characters and different from the heading survives.
    let body = "searchtype/category/search/1/show/all\">Product Categories< searchtype/category/search/2/show/all\">AI< searchtype/category/search/3/show/all\">X< searchtype/category/search/4/show/all\">Robotics<";
    assert_eq!(extract_categories(body), Some(String::from("Robotics")));
}

#[test]
fn categories_keep_order_and_duplicates() {
    let body = "searchtype/category/search/10/show/all\">Drones< searchtype/category/search/11/show/all\">Gaming< searchtype/category/search/12/show/all\">Drones<";
    assert_eq!(extract_categories(body), Some(String::from("Drones; Gaming; Drones")));
}

#[test]
fn categories_absent() {
    assert_eq!(extract_categories("no links"), None);
}

#[test]
fn enrichment_sets_all_found_fields() {
    let mut ex = Exhibitor::default();
    let body = "websiteValue: \"https:\\/\\/x.example\" addressValues: {\"CITY\":\"Reno\"} <a>Aria Hall - 99</a> searchtype/category/search/5/show/all\">Sensors<";
    enrich_record(&mut ex, body);
    assert_eq!(ex.website, "https://x.example");
    assert_eq!(ex.address, "Reno");
    assert_eq!(ex.booth_venue, "Aria Hall");
    assert_eq!(ex.booth_full, "Aria Hall - 99");
    assert_eq!(ex.product_categories, "Sensors");
}

#[test]
fn enrichment_non_destructive_on_blank_document() {
    let mut ex = Exhibitor::default();
    ex.name = String::from("Acme");
    ex.exhid = String::from("A1");
    ex.description = String::from("desc");
    ex.booth_number = String::from("17214");
    let before_name = ex.name.clone();
    let before_id = ex.exhid.clone();
    let before_desc = ex.description.clone();
    let before_booth = ex.booth_number.clone();
    enrich_record(&mut ex, "a body in which no extractor finds anything");
    assert_eq!(ex.name, before_name);
    assert_eq!(ex.exhid, before_id);
    assert_eq!(ex.description, before_desc);
    assert_eq!(ex.booth_number, before_booth);
    assert_eq!(ex.website, "");
    assert_eq!(ex.address, "");
    assert_eq!(ex.booth_venue, "");
    assert_eq!(ex.booth_full, "");
    assert_eq!(ex.product_categories, "");
}
