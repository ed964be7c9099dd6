//! The record model: normalization, identity derivation and raw parsing.

use exhibitor_harvest::record::{clean_booth, detail_reference, parse_exhibitor, RawFields};
use exhibitor_harvest::text::normalize_tokens;

fn raw(name: &str, exhid: &str) -> RawFields {
    RawFields {
        name: String::from(name),
        exhid: String::from(exhid),
        description: String::new(),
        booths: Vec::new(),
        halls: Vec::new(),
        seek_funding: String::new(),
        funding_amount: String::new(),
        revenue: String::new(),
        investment_stage: String::new(),
    }
}

#[test]
fn clean_booth_removes_contamination_and_trims() {
    assert_eq!(clean_booth("  randomstring17214 "), "17214");
    assert_eq!(clean_booth("17214"), "17214");
    assert_eq!(clean_booth("randomstring"), "");
}

#[test]
fn normalization_joins_survivors_in_order() {
    let tokens = vec![
        String::from(" 100 "),
        String::from("randomstring"),
        String::from("200randomstring"),
        String::from("   "),
    ];
    assert_eq!(normalize_tokens(&tokens), "100; 200");
}

#[test]
fn normalization_is_deterministic() {
    let tokens = vec![String::from(" a "), String::from("b")];
    let first = normalize_tokens(&tokens);
    let second = normalize_tokens(&tokens);
    assert_eq!(first, second);
    assert_eq!(first, "a; b");
}

#[test]
fn detail_reference_is_a_function_of_identity() {
    let a = detail_reference("T0007");
    let b = detail_reference("T0007");
    assert_eq!(a, b);
    assert_eq!(
        a,
        "https://exhibitors.ces.tech/8_0/exhibitor/exhibitor-details.cfm?exhid=T0007"
    );
}

#[test]
fn parse_exhibitor_populates_fields() {
    let mut r = raw("Acme Robotics", "T0042");
    r.description = String::from("Robots for every home.");
    r.booths = vec![String::from("randomstring100"), String::from("200")];
    r.halls = vec![String::from("H1"), String::from("H2")];
    r.funding_amount = String::from("1;2;3");
    r.revenue = String::from("a;b");
    let ex = parse_exhibitor(&r);
    assert_eq!(ex.name, "Acme Robotics");
    assert_eq!(ex.exhid, "T0042");
    assert_eq!(
        ex.detail_url,
        "https://exhibitors.ces.tech/8_0/exhibitor/exhibitor-details.cfm?exhid=T0042"
    );
    assert_eq!(ex.description, "Robots for every home.");
    assert_eq!(ex.booth_number, "100; 200");
    assert_eq!(ex.hall_ids, "H1; H2");
    assert_eq!(ex.funding_amount, "1,2,3");
    assert_eq!(ex.revenue, "a,b");
    assert_eq!(ex.website, "");
    assert_eq!(ex.address, "");
    assert_eq!(ex.booth_venue, "");
    assert_eq!(ex.booth_full, "");
    assert_eq!(ex.product_categories, "");
}

#[test]
fn parse_exhibitor_empty_raw_degrades_to_empty_fields() {
    let ex = parse_exhibitor(&raw("", ""));
    assert_eq!(ex.name, "");
    assert_eq!(ex.exhid, "");
    assert_eq!(ex.booth_number, "");
    assert_eq!(ex.hall_ids, "");
    assert_eq!(
        ex.detail_url,
        "https://exhibitors.ces.tech/8_0/exhibitor/exhibitor-details.cfm?exhid="
    );
}
