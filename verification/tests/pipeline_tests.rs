//! The batch pipeline: page assembly, deduplication, batch enrichment and
//! the summary counters, including the end-to-end scenario.

use exhibitor_harvest::pipeline::{
    assemble_page, dedup_by_identity, enrich_all, page_query, summarize, PageError,
};
use exhibitor_harvest::record::{parse_exhibitor, Exhibitor, RawFields};

fn raw(name: &str, exhid: &str) -> RawFields {
    RawFields {
        name: String::from(name),
        exhid: String::from(exhid),
        description: String::new(),
        booths: Vec::new(),
        halls: Vec::new(),
        seek_funding: String::new(),
        funding_amount: String::new(),
        revenue: String::new(),
        investment_stage: String::new(),
    }
}

fn record(name: &str, exhid: &str) -> Exhibitor {
    parse_exhibitor(&raw(name, exhid))
}

#[test]
fn unsuccessful_page_is_the_page_error() {
    let r = assemble_page(false, 10, &Vec::new(), &Vec::new());
    assert_eq!(r.unwrap_err(), PageError::Unsuccessful);
}

#[test]
fn page_merges_featured_without_intra_page_duplicates() {
    let primary = vec![raw("A", "1"), raw("B", "2")];
    let featured = vec![raw("B again", "2"), raw("C", "3"), raw("C again", "3")];
    let (batch, total) = assemble_page(true, 57, &primary, &featured).unwrap();
    assert_eq!(total, 57);
    let names: Vec<&str> = batch.iter().map(|e| e.name.as_str()).collect();
    assert_eq!(names, vec!["A", "B", "C"]);
}

#[test]
fn dedup_keeps_first_occurrence_in_order() {
    let records = vec![
        record("A first", "1"),
        record("B", "2"),
        record("A second", "1"),
        record("C", "3"),
        record("B second", "2"),
    ];
    let out = dedup_by_identity(records);
    let names: Vec<&str> = out.iter().map(|e| e.name.as_str()).collect();
    assert_eq!(names, vec!["A first", "B", "C"]);
}

#[test]
fn enrich_all_returns_every_record_despite_failures() {
    let mut records = vec![record("A", "1"), record("B", "2"), record("C", "3")];
    let outcomes = vec![
        None,
        Some(String::from("websiteValue: \"https://b.example\"")),
        None,
    ];
    enrich_all(&mut records, &outcomes);
    assert_eq!(records.len(), 3);
    assert_eq!(records[0].exhid, "1");
    assert_eq!(records[1].exhid, "2");
    assert_eq!(records[2].exhid, "3");
    assert_eq!(records[0].website, "");
    assert_eq!(records[1].website, "https://b.example");
    assert_eq!(records[2].website, "");
}

#[test]
fn enrich_all_all_failures_changes_nothing() {
    let mut records = vec![record("A", "1"), record("B", "2")];
    let outcomes: Vec<Option<String>> = vec![None, None];
    enrich_all(&mut records, &outcomes);
    assert_eq!(records.len(), 2);
    assert_eq!(records[0].name, "A");
    assert_eq!(records[1].name, "B");
}

#[test]
fn summary_counts_fields() {
    let mut a = record("A", "1");
    a.description = String::from("a description of more than twenty characters");
    a.website = String::from("https://a.example");
    let mut b = record("B", "2");
    b.description = String::from("short");
    b.address = String::from("Reno");
    let records = vec![a, b];
    let s = summarize(&records);
    assert_eq!(s.total_count, 2);
    assert_eq!(s.with_description, 1);
    assert_eq!(s.with_website, 1);
    assert_eq!(s.with_address, 1);
    assert_eq!(s.with_booth_venue, 0);
    assert_eq!(s.with_booth_full, 0);
    assert_eq!(s.with_categories, 0);
}

#[test]
fn page_query_renders_offsets() {
    assert_eq!(
        page_query(0, 100),
        "https://exhibitors.ces.tech/8_0/ajax/remote-proxy.cfm?action=search&searchtype=exhibitorgallery&searchsize=100&start=0"
    );
    assert_eq!(
        page_query(300, 1),
        "https://exhibitors.ces.tech/8_0/ajax/remote-proxy.cfm?action=search&searchtype=exhibitorgallery&searchsize=1&start=300"
    );
}

#[test]
fn end_to_end_two_pages_with_cross_page_duplicate() {
    // Two pages of two records each, total four, one identity shared across
    // the pages: three deduplicated records reach enrichment, and all three
    // appear in the final set with correct summary counts.
    let (page1, total1) = assemble_page(
        true,
        4,
        &vec![raw("A", "1"), raw("B", "2")],
        &Vec::new(),
    )
    .unwrap();
    let (page2, total2) = assemble_page(
        true,
        4,
        &vec![raw("B on page two", "2"), raw("C", "3")],
        &Vec::new(),
    )
    .unwrap();
    assert_eq!(total1, 4);
    assert_eq!(total2, 4);
    let mut all: Vec<Exhibitor> = Vec::new();
    all.extend(page1);
    all.extend(page2);
    assert_eq!(all.len(), 4);
    let mut deduped = dedup_by_identity(all);
    assert_eq!(deduped.len(), 3);
    let outcomes = vec![
        Some(String::from("websiteValue: \"https://a.example\"")),
        None,
        Some(String::from("addressValues: {\"CITY\":\"Reno\"}")),
    ];
    enrich_all(&mut deduped, &outcomes);
    assert_eq!(deduped.len(), 3);
    let mut ids: Vec<&str> = deduped.iter().map(|e| e.exhid.as_str()).collect();
    ids.sort();
    assert_eq!(ids, vec!["1", "2", "3"]);
    let s = summarize(&deduped);
    assert_eq!(s.total_count, 3);
    assert_eq!(s.with_website, 1);
    assert_eq!(s.with_address, 1);
    assert_eq!(s.with_description, 0);
}
