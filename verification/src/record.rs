//! The canonical exhibitor record, the raw keyed document it is built from,
//! and the field-population rules: token normalization, detail-reference
//! derivation and the mapping of one raw search hit into a fresh record.

use vstd::prelude::*;
use vstd::string::*;

use crate::text::{clean_token, normalize_tokens, spec_clean_token, spec_normalize_tokens};

verus! {

/// One exhibitor entity. Every field defaults to the empty string; the
/// enrichment fields stay empty until the detail document is mined.
#[derive(Debug)]
pub struct Exhibitor {
    pub name: String,
    pub exhid: String,
    pub detail_url: String,
    pub booth_venue: String,
    pub booth_number: String,
    pub booth_full: String,
    pub description: String,
    pub website: String,
    pub address: String,
    pub product_categories: String,
    pub hall_ids: String,
    pub seek_funding: String,
    pub funding_amount: String,
    pub revenue: String,
    pub investment_stage: String,
    pub scraped_at: String,
}

/// The mathematical image of an [`Exhibitor`]: one character sequence per field.
pub struct ExhibitorView {
    pub name: Seq<char>,
    pub exhid: Seq<char>,
    pub detail_url: Seq<char>,
    pub booth_venue: Seq<char>,
    pub booth_number: Seq<char>,
    pub booth_full: Seq<char>,
    pub description: Seq<char>,
    pub website: Seq<char>,
    pub address: Seq<char>,
    pub product_categories: Seq<char>,
    pub hall_ids: Seq<char>,
    pub seek_funding: Seq<char>,
    pub funding_amount: Seq<char>,
    pub revenue: Seq<char>,
    pub investment_stage: Seq<char>,
    pub scraped_at: Seq<char>,
}

impl View for Exhibitor {
    type V = ExhibitorView;

    open spec fn view(&self) -> ExhibitorView {
        ExhibitorView {
            name: self.name@,
            exhid: self.exhid@,
            detail_url: self.detail_url@,
            booth_venue: self.booth_venue@,
            booth_number: self.booth_number@,
            booth_full: self.booth_full@,
            description: self.description@,
            website: self.website@,
            address: self.address@,
            product_categories: self.product_categories@,
            hall_ids: self.hall_ids@,
            seek_funding: self.seek_funding@,
            funding_amount: self.funding_amount@,
            revenue: self.revenue@,
            investment_stage: self.investment_stage@,
            scraped_at: self.scraped_at@,
        }
    }
}

/// The view of a record all of whose fields are empty.
pub open spec fn empty_exhibitor_view() -> ExhibitorView {
    ExhibitorView {
        name: Seq::empty(),
        exhid: Seq::empty(),
        detail_url: Seq::empty(),
        booth_venue: Seq::empty(),
        booth_number: Seq::empty(),
        booth_full: Seq::empty(),
        description: Seq::empty(),
        website: Seq::empty(),
        address: Seq::empty(),
        product_categories: Seq::empty(),
        hall_ids: Seq::empty(),
        seek_funding: Seq::empty(),
        funding_amount: Seq::empty(),
        revenue: Seq::empty(),
        investment_stage: Seq::empty(),
        scraped_at: Seq::empty(),
    }
}

impl Default for Exhibitor {
    /// A record with every field empty.
    fn default() -> (r: Exhibitor)
        ensures
            r@ == empty_exhibitor_view(),
    {
        Exhibitor {
            name: String::new(),
            exhid: String::new(),
            detail_url: String::new(),
            booth_venue: String::new(),
            booth_number: String::new(),
            booth_full: String::new(),
            description: String::new(),
            website: String::new(),
            address: String::new(),
            product_categories: String::new(),
            hall_ids: String::new(),
            seek_funding: String::new(),
            funding_amount: String::new(),
            revenue: String::new(),
            investment_stage: String::new(),
            scraped_at: String::new(),
        }
    }
}

/// One raw keyed document, as a search page delivers it: the fields the
/// pipeline reads, with absent keys already degraded to empty values.
pub struct RawFields {
    pub name: String,
    pub exhid: String,
    pub description: String,
    pub booths: Vec<String>,
    pub halls: Vec<String>,
    pub seek_funding: String,
    pub funding_amount: String,
    pub revenue: String,
    pub investment_stage: String,
}

/// The mathematical image of a [`RawFields`] document.
pub struct RawFieldsView {
    pub name: Seq<char>,
    pub exhid: Seq<char>,
    pub description: Seq<char>,
    pub booths: Seq<Seq<char>>,
    pub halls: Seq<Seq<char>>,
    pub seek_funding: Seq<char>,
    pub funding_amount: Seq<char>,
    pub revenue: Seq<char>,
    pub investment_stage: Seq<char>,
}

impl View for RawFields {
    type V = RawFieldsView;

    open spec fn view(&self) -> RawFieldsView {
        RawFieldsView {
            name: self.name@,
            exhid: self.exhid@,
            description: self.description@,
            booths: self.booths.deep_view(),
            halls: self.halls.deep_view(),
            seek_funding: self.seek_funding@,
            funding_amount: self.funding_amount@,
            revenue: self.revenue@,
            investment_stage: self.investment_stage@,
        }
    }
}

/// Removes a stray contamination substring from a booth token and trims it.
pub fn clean_booth(booth: &str) -> (r: String)
    ensures
        r@ == spec_clean_token(booth@),
{
    clean_token(booth)
}

/// The fixed stem every detail-document reference starts with.
pub open spec fn detail_url_stem() -> Seq<char> {
    "https://exhibitors.ces.tech/8_0/exhibitor/exhibitor-details.cfm?exhid="@
}

/// The reference of a record's detail document: a function of the identity alone.
pub open spec fn spec_detail_reference(exhid: Seq<char>) -> Seq<char> {
    detail_url_stem() + exhid
}

/// Derives the detail-document reference from an identity.
pub fn detail_reference(exhid: &str) -> (r: String)
    ensures
        r@ == spec_detail_reference(exhid@),
{
    "https://exhibitors.ces.tech/8_0/exhibitor/exhibitor-details.cfm?exhid=".to_owned().concat(
        exhid,
    )
}

/// Two equal identities always derive the same detail reference: the
/// reference depends on the identity and on nothing else.
pub proof fn lemma_detail_reference_stable(a: Seq<char>, b: Seq<char>)
    requires
        a == b,
    ensures
        spec_detail_reference(a) == spec_detail_reference(b),
{
}

/// `s` with every semicolon replaced by a comma.
pub open spec fn spec_semi_to_comma(s: Seq<char>) -> Seq<char> {
    s.map_values(|c: char| if c == ';' { ',' } else { c })
}

fn semi_to_comma_from(s: &str, i: usize) -> (r: String)
    requires
        i <= s@.len(),
    ensures
        r@ == spec_semi_to_comma(s@.skip(i as int)),
    decreases s@.len() - i,
{
    let n = s.unicode_len();
    if i >= n {
        proof {
            assert(spec_semi_to_comma(s@.skip(i as int)) =~= Seq::<char>::empty());
        }
        String::new()
    } else {
        let rest = semi_to_comma_from(s, i + 1);
        let c = s.get_char(i);
        if c == ';' {
            proof {
                reveal_strlit(",");
                assert(","@ + rest@ =~= spec_semi_to_comma(s@.skip(i as int)));
            }
            ",".to_owned().concat(rest.as_str())
        } else {
            proof {
                assert(s@.subrange(i as int, i as int + 1) =~= seq![s@[i as int]]);
                assert(seq![s@[i as int]] + rest@ =~= spec_semi_to_comma(s@.skip(i as int)));
            }
            s.substring_char(i, i + 1).to_owned().concat(rest.as_str())
        }
    }
}

/// Replaces every semicolon in `s` by a comma, so the value cannot collide
/// with the record's own semicolon-joined list fields.
pub fn semi_to_comma(s: &str) -> (r: String)
    ensures
        r@ == spec_semi_to_comma(s@),
{
    proof {
        assert(s@.skip(0) =~= s@);
    }
    semi_to_comma_from(s, 0)
}

/// Relies on chrono's `Utc::now` and `DateTime::to_rfc3339` for the capture
/// timestamp; nothing is assumed of the clock's reading.
#[verifier::external_body]
fn current_timestamp() -> String {
    chrono::Utc::now().to_rfc3339()
}

/// A freshly parsed record matches its raw document: every field is the
/// stated function of the raw fields, the enrichment fields are empty, and
/// only the capture timestamp is left open (the clock fills it).
pub open spec fn record_matches_raw(r: ExhibitorView, raw: RawFieldsView) -> bool {
    &&& r.name == raw.name
    &&& r.exhid == raw.exhid
    &&& r.detail_url == spec_detail_reference(raw.exhid)
    &&& r.description == raw.description
    &&& r.booth_number == spec_normalize_tokens(raw.booths)
    &&& r.hall_ids == spec_normalize_tokens(raw.halls)
    &&& r.seek_funding == raw.seek_funding
    &&& r.funding_amount == spec_semi_to_comma(raw.funding_amount)
    &&& r.revenue == spec_semi_to_comma(raw.revenue)
    &&& r.investment_stage == raw.investment_stage
    &&& r.booth_venue == Seq::<char>::empty()
    &&& r.booth_full == Seq::<char>::empty()
    &&& r.website == Seq::<char>::empty()
    &&& r.address == Seq::<char>::empty()
    &&& r.product_categories == Seq::<char>::empty()
}

/// Maps one raw keyed document into a record with empty enrichment fields.
/// The capture timestamp is stamped here, once, from the clock.
pub fn parse_exhibitor(raw: &RawFields) -> (r: Exhibitor)
    ensures
        record_matches_raw(r@, raw@),
{
    Exhibitor {
        name: raw.name.clone(),
        exhid: raw.exhid.clone(),
        detail_url: detail_reference(raw.exhid.as_str()),
        booth_venue: String::new(),
        booth_number: normalize_tokens(&raw.booths),
        booth_full: String::new(),
        description: raw.description.clone(),
        website: String::new(),
        address: String::new(),
        product_categories: String::new(),
        hall_ids: normalize_tokens(&raw.halls),
        seek_funding: raw.seek_funding.clone(),
        funding_amount: semi_to_comma(raw.funding_amount.as_str()),
        revenue: semi_to_comma(raw.revenue.as_str()),
        investment_stage: raw.investment_stage.clone(),
        scraped_at: current_timestamp(),
    }
}

} // verus!
