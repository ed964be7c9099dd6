//! The batch pipeline around the record model: assembling one page's two
//! result lists into a batch, deduplicating the accumulated batch by
//! identity, applying enrichment outcomes across a whole batch, and the
//! summary counters of the final set.

use vstd::prelude::*;
use vstd::string::*;

use crate::extract::{enrich_record, spec_enrich};
use crate::record::{
    parse_exhibitor, record_matches_raw, Exhibitor, ExhibitorView, RawFields, RawFieldsView,
};
use crate::text::{spec_dec_digits, str_eq, usize_to_string};

verus! {

/// The one page-level failure: the endpoint reported no success.
#[derive(Clone, Copy, Debug, PartialEq, Eq, Structural)]
pub enum PageError {
    Unsuccessful,
}

/// The identities of a sequence of raw documents.
pub open spec fn raw_ids(rs: Seq<RawFieldsView>) -> Seq<Seq<char>> {
    rs.map_values(|r: RawFieldsView| r.exhid)
}

/// The featured documents that join a batch already holding `batch_ids`:
/// one whose identity is already present is dropped, and an appended one's
/// identity guards the documents after it.
pub open spec fn spec_merge_featured(
    batch_ids: Seq<Seq<char>>,
    feats: Seq<RawFieldsView>,
) -> Seq<RawFieldsView>
    decreases feats.len(),
{
    if feats.len() == 0 {
        Seq::empty()
    } else {
        let f = feats[0];
        if batch_ids.contains(f.exhid) {
            spec_merge_featured(batch_ids, feats.drop_first())
        } else {
            seq![f] + spec_merge_featured(batch_ids.push(f.exhid), feats.drop_first())
        }
    }
}

/// Whether some record in `batch` already carries the identity `id`.
fn batch_contains_id(batch: &Vec<Exhibitor>, id: &str) -> (r: bool)
    ensures
        r == exists|k: int| 0 <= k < batch@.len() && batch@[k]@.exhid == id@,
{
    let mut k: usize = 0;
    while k < batch.len()
        invariant
            k <= batch@.len(),
            forall|t: int| 0 <= t < k ==> batch@[t]@.exhid != id@,
        decreases batch@.len() - k,
    {
        if str_eq(batch[k].exhid.as_str(), id) {
            return true;
        }
        k += 1;
    }
    false
}

/// Assembles one page's batch. A non-success response is the page-level
/// failure. On success, every primary hit becomes a record, in order; every
/// featured hit becomes a record appended after them unless a record of the
/// same identity already stands in this page's batch. The reported total is
/// passed through.
pub fn assemble_page(
    success: bool,
    total: usize,
    primary: &Vec<RawFields>,
    featured: &Vec<RawFields>,
) -> (r: Result<(Vec<Exhibitor>, usize), PageError>)
    ensures
        r is Ok <==> success,
        r matches Err(e) ==> e == PageError::Unsuccessful,
        r matches Ok(p) ==> ({
            let prim = primary@.map_values(|x: RawFields| x@);
            let feats = featured@.map_values(|x: RawFields| x@);
            let merged = spec_merge_featured(raw_ids(prim), feats);
            &&& p.1 == total
            &&& p.0@.len() == prim.len() + merged.len()
            &&& forall|q: int| 0 <= q < prim.len() ==> record_matches_raw(#[trigger] p.0@[q]@, prim[q])
            &&& forall|q: int|
                0 <= q < merged.len() ==> record_matches_raw(
                    #[trigger] p.0@[prim.len() + q]@,
                    merged[q],
                )
        }),
{
    if !success {
        return Err(PageError::Unsuccessful);
    }
    let ghost prim = primary@.map_values(|x: RawFields| x@);
    let ghost feats = featured@.map_values(|x: RawFields| x@);
    let mut batch: Vec<Exhibitor> = Vec::new();
    let mut idx: usize = 0;
    while idx < primary.len()
        invariant
            idx <= primary@.len(),
            batch@.len() == idx,
            prim == primary@.map_values(|x: RawFields| x@),
            forall|q: int| 0 <= q < idx ==> record_matches_raw(#[trigger] batch@[q]@, prim[q]),
        decreases primary@.len() - idx,
    {
        batch.push(parse_exhibitor(&primary[idx]));
        idx += 1;
    }
    let plen = primary.len();
    let ghost mut done: Seq<RawFieldsView> = Seq::empty();
    let ghost mut cur_ids: Seq<Seq<char>> = raw_ids(prim);
    proof {
        assert(feats.skip(0) =~= feats);
        assert(done + spec_merge_featured(cur_ids, feats) =~= spec_merge_featured(
            cur_ids,
            feats,
        ));
    }
    let mut j: usize = 0;
    while j < featured.len()
        invariant
            j <= featured@.len(),
            plen == primary@.len(),
            prim == primary@.map_values(|x: RawFields| x@),
            feats == featured@.map_values(|x: RawFields| x@),
            batch@.len() == plen + done.len(),
            forall|q: int| 0 <= q < plen ==> record_matches_raw(#[trigger] batch@[q]@, prim[q]),
            forall|q: int|
                0 <= q < done.len() ==> record_matches_raw(
                    #[trigger] batch@[plen + q]@,
                    done[q],
                ),
            cur_ids.len() == batch@.len(),
            forall|q: int| 0 <= q < batch@.len() ==> #[trigger] cur_ids[q] == batch@[q]@.exhid,
            spec_merge_featured(raw_ids(prim), feats) == done + spec_merge_featured(
                cur_ids,
                feats.skip(j as int),
            ),
        decreases featured@.len() - j,
    {
        let ghost f = feats[j as int];
        proof {
            assert(feats.skip(j as int)[0] == f);
            assert(feats.skip(j as int).drop_first() =~= feats.skip(j as int + 1));
        }
        let present = batch_contains_id(&batch, featured[j].exhid.as_str());
        proof {
            assert(cur_ids.contains(f.exhid) <==> exists|k: int|
                0 <= k < batch@.len() && batch@[k]@.exhid == f.exhid) by {
                if cur_ids.contains(f.exhid) {
                    let k = choose|k: int| 0 <= k < cur_ids.len() && cur_ids[k] == f.exhid;
                    assert(batch@[k]@.exhid == f.exhid);
                }
                if exists|k: int| 0 <= k < batch@.len() && batch@[k]@.exhid == f.exhid {
                    let k = choose|k: int| 0 <= k < batch@.len() && batch@[k]@.exhid == f.exhid;
                    assert(cur_ids[k] == f.exhid);
                }
            }
        }
        if !present {
            let ex = parse_exhibitor(&featured[j]);
            batch.push(ex);
            proof {
                let old_done = done;
                done = done.push(f);
                cur_ids = cur_ids.push(f.exhid);
                assert(old_done + (seq![f] + spec_merge_featured(
                    cur_ids,
                    feats.skip(j as int + 1),
                )) =~= done + spec_merge_featured(cur_ids, feats.skip(j as int + 1)));
                assert(forall|q: int|
                    0 <= q < done.len() - 1 ==> done[q] == old_done[q] && batch@[plen + q]
                        == batch@.drop_last()[plen + q]);
            }
        }
        j += 1;
    }
    proof {
        assert(feats.skip(featured@.len() as int) =~= Seq::<RawFieldsView>::empty());
        assert(spec_merge_featured(raw_ids(prim), feats) =~= done);
    }
    Ok((batch, total))
}

/// The deduplicated form of a record sequence: a record is kept if and only
/// if its identity was seen neither in `seen` nor earlier in the sequence;
/// order is preserved.
pub open spec fn spec_dedup(rs: Seq<ExhibitorView>, seen: Set<Seq<char>>) -> Seq<ExhibitorView>
    decreases rs.len(),
{
    if rs.len() == 0 {
        Seq::empty()
    } else if seen.contains(rs[0].exhid) {
        spec_dedup(rs.drop_first(), seen)
    } else {
        seq![rs[0]] + spec_dedup(rs.drop_first(), seen.insert(rs[0].exhid))
    }
}

/// The views of a record vector.
pub open spec fn views_of(rs: Seq<Exhibitor>) -> Seq<ExhibitorView> {
    rs.map_values(|e: Exhibitor| e@)
}

/// Keeps the first record of each identity, in input order, and drops every
/// later record whose identity was already seen.
pub fn dedup_by_identity(records: Vec<Exhibitor>) -> (r: Vec<Exhibitor>)
    ensures
        views_of(r@) == spec_dedup(views_of(records@), Set::empty()),
{
    let ghost orig = views_of(records@);
    let mut rest = records;
    let mut out: Vec<Exhibitor> = Vec::new();
    let ghost mut seen: Set<Seq<char>> = Set::empty();
    proof {
        assert(views_of(rest@).skip(0) =~= views_of(rest@));
        assert(spec_dedup(orig, Set::empty()) =~= views_of(out@) + spec_dedup(
            views_of(rest@),
            seen,
        ));
    }
    while rest.len() > 0
        invariant
            spec_dedup(orig, Set::empty()) == views_of(out@) + spec_dedup(views_of(rest@), seen),
            forall|id: Seq<char>| #[trigger]
                seen.contains(id) <==> (exists|k: int|
                    0 <= k < out@.len() && out@[k]@.exhid == id),
        decreases rest@.len(),
    {
        let ghost pre = views_of(rest@);
        let ex = rest.remove(0);
        proof {
            assert(views_of(rest@) =~= pre.drop_first());
            assert(pre[0] == ex@);
        }
        let present = batch_contains_id(&out, ex.exhid.as_str());
        proof {
            if present {
                assert(seen.contains(ex@.exhid));
            }
        }
        if !present {
            let ghost old_out = out@;
            out.push(ex);
            proof {
                seen = seen.insert(ex@.exhid);
                assert(views_of(out@) =~= views_of(old_out).push(ex@));
                assert(views_of(old_out) + (seq![ex@] + spec_dedup(views_of(rest@), seen))
                    =~= views_of(out@) + spec_dedup(views_of(rest@), seen));
                assert forall|id: Seq<char>| #[trigger] seen.contains(id) <==> (exists|k: int|
                    0 <= k < out@.len() && out@[k]@.exhid == id) by {
                    if seen.contains(id) {
                        if id == ex@.exhid {
                            assert(out@[out@.len() - 1]@.exhid == id);
                        } else {
                            let k = choose|k: int|
                                0 <= k < old_out.len() && old_out[k]@.exhid == id;
                            assert(out@[k]@.exhid == id);
                        }
                    }
                }
            }
        }
    }
    proof {
        assert(views_of(rest@) =~= Seq::<ExhibitorView>::empty());
        assert(spec_dedup(orig, Set::empty()) =~= views_of(out@));
    }
    out
}

proof fn lemma_dedup_distinct_from(rs: Seq<ExhibitorView>, seen: Set<Seq<char>>)
    ensures
        forall|i: int, j: int|
            0 <= i < j < spec_dedup(rs, seen).len() ==> #[trigger] spec_dedup(rs, seen)[i].exhid
                != #[trigger] spec_dedup(rs, seen)[j].exhid,
        forall|i: int|
            0 <= i < spec_dedup(rs, seen).len() ==> !seen.contains(
                #[trigger] spec_dedup(rs, seen)[i].exhid,
            ),
    decreases rs.len(),
{
    if rs.len() > 0 {
        let id0 = rs[0].exhid;
        if seen.contains(id0) {
            lemma_dedup_distinct_from(rs.drop_first(), seen);
            assert(spec_dedup(rs, seen) == spec_dedup(rs.drop_first(), seen));
        } else {
            lemma_dedup_distinct_from(rs.drop_first(), seen.insert(id0));
            let tail = spec_dedup(rs.drop_first(), seen.insert(id0));
            assert forall|i: int|
                0 <= i < spec_dedup(rs, seen).len() implies !seen.contains(
                spec_dedup(rs, seen)[i].exhid,
            ) by {
                if i > 0 {
                    assert(spec_dedup(rs, seen)[i] == tail[i - 1]);
                }
            }
            assert forall|i: int, j: int|
                0 <= i < j < spec_dedup(rs, seen).len() implies spec_dedup(rs, seen)[i].exhid
                != spec_dedup(rs, seen)[j].exhid by {
                assert(spec_dedup(rs, seen)[j] == tail[j - 1]);
                if i > 0 {
                    assert(spec_dedup(rs, seen)[i] == tail[i - 1]);
                } else {
                    assert(!seen.insert(id0).contains(tail[j - 1].exhid));
                }
            }
        }
    }
}

proof fn lemma_dedup_complete_from(rs: Seq<ExhibitorView>, seen: Set<Seq<char>>)
    ensures
        forall|i: int|
            0 <= i < rs.len() && !seen.contains(#[trigger] rs[i].exhid) ==> exists|j: int|
                0 <= j < spec_dedup(rs, seen).len() && spec_dedup(rs, seen)[j].exhid
                    == rs[i].exhid,
    decreases rs.len(),
{
    if rs.len() > 0 {
        let id0 = rs[0].exhid;
        let out = spec_dedup(rs, seen);
        if seen.contains(id0) {
            lemma_dedup_complete_from(rs.drop_first(), seen);
            assert(out == spec_dedup(rs.drop_first(), seen));
            assert forall|i: int|
                0 <= i < rs.len() && !seen.contains(rs[i].exhid) implies exists|j: int|
                0 <= j < out.len() && out[j].exhid == rs[i].exhid by {
                assert(i > 0);
                assert(rs.drop_first()[i - 1] == rs[i]);
            }
        } else {
            lemma_dedup_complete_from(rs.drop_first(), seen.insert(id0));
            let tail = spec_dedup(rs.drop_first(), seen.insert(id0));
            assert forall|i: int|
                0 <= i < rs.len() && !seen.contains(rs[i].exhid) implies exists|j: int|
                0 <= j < out.len() && out[j].exhid == rs[i].exhid by {
                if rs[i].exhid == id0 {
                    assert(out[0].exhid == rs[i].exhid);
                } else {
                    assert(i > 0);
                    assert(rs.drop_first()[i - 1] == rs[i]);
                    assert(!seen.insert(id0).contains(rs[i].exhid));
                    let j = choose|j: int|
                        0 <= j < tail.len() && tail[j].exhid == rs[i].exhid;
                    assert(out[j + 1] == tail[j]);
                }
            }
        }
    }
}

proof fn lemma_dedup_first_wins_from(rs: Seq<ExhibitorView>, seen: Set<Seq<char>>)
    ensures
        forall|j: int|
            0 <= j < spec_dedup(rs, seen).len() ==> exists|i: int|
                0 <= i < rs.len() && rs[i] == #[trigger] spec_dedup(rs, seen)[j] && (forall|
                    k: int,
                |
                    0 <= k < i ==> #[trigger] rs[k].exhid != rs[i].exhid),
    decreases rs.len(),
{
    if rs.len() > 0 {
        let id0 = rs[0].exhid;
        let out = spec_dedup(rs, seen);
        lemma_dedup_distinct_from(rs, seen);
        if seen.contains(id0) {
            lemma_dedup_first_wins_from(rs.drop_first(), seen);
            assert forall|j: int| 0 <= j < out.len() implies exists|i: int|
                0 <= i < rs.len() && rs[i] == #[trigger] out[j] && (forall|k: int|
                    0 <= k < i ==> #[trigger] rs[k].exhid != rs[i].exhid) by {
                assert(out == spec_dedup(rs.drop_first(), seen));
                assert(spec_dedup(rs.drop_first(), seen)[j] == out[j]);
                let i0 = choose|i0: int|
                    0 <= i0 < rs.drop_first().len() && rs.drop_first()[i0]
                        == spec_dedup(rs.drop_first(), seen)[j] && (forall|
                        k: int,
                    |
                        0 <= k < i0 ==> #[trigger] rs.drop_first()[k].exhid
                            != rs.drop_first()[i0].exhid);
                assert(rs[i0 + 1] == out[j]);
                assert(!seen.contains(out[j].exhid));
                assert forall|k: int| 0 <= k < i0 + 1 implies #[trigger] rs[k].exhid != rs[i0 + 1].exhid by {
                    if k > 0 {
                        assert(rs.drop_first()[k - 1] == rs[k]);
                    }
                }
            }
        } else {
            lemma_dedup_first_wins_from(rs.drop_first(), seen.insert(id0));
            let tail = spec_dedup(rs.drop_first(), seen.insert(id0));
            assert forall|j: int| 0 <= j < out.len() implies exists|i: int|
                0 <= i < rs.len() && rs[i] == #[trigger] out[j] && (forall|k: int|
                    0 <= k < i ==> #[trigger] rs[k].exhid != rs[i].exhid) by {
                if j == 0 {
                    assert(rs[0] == out[0]);
                } else {
                    assert(out[j] == tail[j - 1]);
                    assert(tail[j - 1] == spec_dedup(rs.drop_first(), seen.insert(id0))[j - 1]);
                    let i0 = choose|i0: int|
                        0 <= i0 < rs.drop_first().len() && rs.drop_first()[i0] == tail[j - 1] && (
                        forall|k: int|
                            0 <= k < i0 ==> #[trigger] rs.drop_first()[k].exhid
                                != rs.drop_first()[i0].exhid);
                    assert(rs[i0 + 1] == out[j]);
                    lemma_dedup_distinct_from(rs.drop_first(), seen.insert(id0));
                    assert(!seen.insert(id0).contains(tail[j - 1].exhid));
                    assert forall|k: int| 0 <= k < i0 + 1 implies #[trigger] rs[k].exhid != rs[i0 + 1].exhid by {
                        if k > 0 {
                            assert(rs.drop_first()[k - 1] == rs[k]);
                        }
                    }
                }
            }
        }
    }
}

/// The deduplication invariant, part one: the output's identities are
/// pairwise distinct — at most one record per identity survives.
pub proof fn lemma_dedup_distinct(rs: Seq<ExhibitorView>)
    ensures
        forall|i: int, j: int|
            0 <= i < j < spec_dedup(rs, Set::empty()).len() ==> #[trigger] spec_dedup(
                rs,
                Set::empty(),
            )[i].exhid != #[trigger] spec_dedup(rs, Set::empty())[j].exhid,
{
    lemma_dedup_distinct_from(rs, Set::empty());
}

/// The deduplication invariant, part two: every input identity is still
/// represented in the output — at least one record per identity survives.
/// The statement is given for each input position.
pub proof fn lemma_dedup_complete(rs: Seq<ExhibitorView>, i: int)
    requires
        0 <= i < rs.len(),
    ensures
        exists|j: int|
            0 <= j < spec_dedup(rs, Set::empty()).len() && spec_dedup(rs, Set::empty())[j].exhid
                == rs[i].exhid,
{
    lemma_dedup_complete_from(rs, Set::empty());
    assert(!Set::<Seq<char>>::empty().contains(rs[i].exhid));
}

/// The deduplication invariant, part three: each surviving record is the
/// first record of its identity in input order.
pub proof fn lemma_dedup_first_wins(rs: Seq<ExhibitorView>)
    ensures
        forall|j: int|
            0 <= j < spec_dedup(rs, Set::empty()).len() ==> exists|i: int|
                0 <= i < rs.len() && rs[i] == #[trigger] spec_dedup(rs, Set::empty())[j] && (
                forall|k: int| 0 <= k < i ==> #[trigger] rs[k].exhid != rs[i].exhid),
{
    lemma_dedup_first_wins_from(rs, Set::empty());
}

/// One record's enrichment outcome applied: a fetched document enriches the
/// record; a failed fetch leaves it as it was.
pub open spec fn spec_apply_outcome(v: ExhibitorView, o: Option<String>) -> ExhibitorView {
    match o {
        Some(body) => spec_enrich(v, body@),
        None => v,
    }
}

/// Applies one enrichment outcome to every record, in place: the record at
/// each position is enriched from its own document where the fetch
/// succeeded, and kept unchanged where it failed. No record is ever dropped:
/// the batch keeps its length, whatever the outcomes.
pub fn enrich_all(records: &mut Vec<Exhibitor>, outcomes: &Vec<Option<String>>)
    requires
        outcomes@.len() == old(records)@.len(),
    ensures
        final(records)@.len() == old(records)@.len(),
        forall|q: int|
            0 <= q < old(records)@.len() ==> #[trigger] final(records)@[q]@ == spec_apply_outcome(
                old(records)@[q]@,
                outcomes@[q],
            ),
{
    let n = records.len();
    let mut idx: usize = 0;
    while idx < n
        invariant
            idx <= n,
            n == old(records)@.len(),
            records@.len() == n,
            outcomes@.len() == n,
            forall|q: int|
                0 <= q < idx ==> #[trigger] records@[q]@ == spec_apply_outcome(
                    old(records)@[q]@,
                    outcomes@[q],
                ),
            forall|q: int| idx <= q < n ==> #[trigger] records@[q] == old(records)@[q],
        decreases n - idx,
    {
        if let Some(body) = &outcomes[idx] {
            enrich_record(&mut records[idx], body.as_str());
        }
        idx += 1;
    }
}

/// The summary counters of the final record set.
pub struct Summary {
    pub total_count: usize,
    pub with_description: usize,
    pub with_booth_venue: usize,
    pub with_booth_full: usize,
    pub with_website: usize,
    pub with_address: usize,
    pub with_categories: usize,
}

/// A description long enough to count as present.
pub open spec fn has_description(r: ExhibitorView) -> bool {
    r.description.len() > 20
}

pub open spec fn count_description(rs: Seq<ExhibitorView>) -> int
    decreases rs.len(),
{
    if rs.len() == 0 {
        0
    } else {
        count_description(rs.drop_last()) + if has_description(rs.last()) {
            1int
        } else {
            0int
        }
    }
}

pub open spec fn count_booth_venue(rs: Seq<ExhibitorView>) -> int
    decreases rs.len(),
{
    if rs.len() == 0 {
        0
    } else {
        count_booth_venue(rs.drop_last()) + if rs.last().booth_venue.len() > 0 {
            1int
        } else {
            0int
        }
    }
}

pub open spec fn count_booth_full(rs: Seq<ExhibitorView>) -> int
    decreases rs.len(),
{
    if rs.len() == 0 {
        0
    } else {
        count_booth_full(rs.drop_last()) + if rs.last().booth_full.len() > 0 {
            1int
        } else {
            0int
        }
    }
}

pub open spec fn count_website(rs: Seq<ExhibitorView>) -> int
    decreases rs.len(),
{
    if rs.len() == 0 {
        0
    } else {
        count_website(rs.drop_last()) + if rs.last().website.len() > 0 {
            1int
        } else {
            0int
        }
    }
}

pub open spec fn count_address(rs: Seq<ExhibitorView>) -> int
    decreases rs.len(),
{
    if rs.len() == 0 {
        0
    } else {
        count_address(rs.drop_last()) + if rs.last().address.len() > 0 {
            1int
        } else {
            0int
        }
    }
}

pub open spec fn count_categories(rs: Seq<ExhibitorView>) -> int
    decreases rs.len(),
{
    if rs.len() == 0 {
        0
    } else {
        count_categories(rs.drop_last()) + if rs.last().product_categories.len() > 0 {
            1int
        } else {
            0int
        }
    }
}

/// Counts the final set: the total and how many records carry each of the
/// interesting fields (a description counts only beyond twenty characters).
pub fn summarize(records: &Vec<Exhibitor>) -> (s: Summary)
    ensures
        s.total_count == records@.len(),
        s.with_description == count_description(views_of(records@)),
        s.with_booth_venue == count_booth_venue(views_of(records@)),
        s.with_booth_full == count_booth_full(views_of(records@)),
        s.with_website == count_website(views_of(records@)),
        s.with_address == count_address(views_of(records@)),
        s.with_categories == count_categories(views_of(records@)),
{
    let ghost all = views_of(records@);
    let n = records.len();
    let mut idx: usize = 0;
    let mut c_desc: usize = 0;
    let mut c_venue: usize = 0;
    let mut c_full: usize = 0;
    let mut c_web: usize = 0;
    let mut c_addr: usize = 0;
    let mut c_cat: usize = 0;
    while idx < n
        invariant
            idx <= n,
            n == records@.len(),
            all == views_of(records@),
            c_desc <= idx && c_desc == count_description(all.take(idx as int)),
            c_venue <= idx && c_venue == count_booth_venue(all.take(idx as int)),
            c_full <= idx && c_full == count_booth_full(all.take(idx as int)),
            c_web <= idx && c_web == count_website(all.take(idx as int)),
            c_addr <= idx && c_addr == count_address(all.take(idx as int)),
            c_cat <= idx && c_cat == count_categories(all.take(idx as int)),
        decreases n - idx,
    {
        proof {
            assert(all.take(idx as int + 1).drop_last() =~= all.take(idx as int));
            assert(all.take(idx as int + 1).last() == records@[idx as int]@);
        }
        if records[idx].description.unicode_len() > 20 {
            c_desc += 1;
        }
        if records[idx].booth_venue.unicode_len() > 0 {
            c_venue += 1;
        }
        if records[idx].booth_full.unicode_len() > 0 {
            c_full += 1;
        }
        if records[idx].website.unicode_len() > 0 {
            c_web += 1;
        }
        if records[idx].address.unicode_len() > 0 {
            c_addr += 1;
        }
        if records[idx].product_categories.unicode_len() > 0 {
            c_cat += 1;
        }
        idx += 1;
    }
    proof {
        assert(all.take(n as int) =~= all);
    }
    Summary {
        total_count: n,
        with_description: c_desc,
        with_booth_venue: c_venue,
        with_booth_full: c_full,
        with_website: c_web,
        with_address: c_addr,
        with_categories: c_cat,
    }
}

/// The search query for one page: the fixed endpoint and mode, the page
/// size, and the start offset.
pub open spec fn spec_page_query(start: int, size: int) -> Seq<char> {
    "https://exhibitors.ces.tech/8_0/ajax/remote-proxy.cfm?action=search&searchtype=exhibitorgallery&searchsize="@
        + spec_dec_digits(size) + "&start="@ + spec_dec_digits(start)
}

/// Builds the search query for the page starting at `start`.
pub fn page_query(start: usize, size: usize) -> (r: String)
    ensures
        r@ == spec_page_query(start as int, size as int),
{
    "https://exhibitors.ces.tech/8_0/ajax/remote-proxy.cfm?action=search&searchtype=exhibitorgallery&searchsize=".to_owned().concat(
        usize_to_string(size).as_str(),
    ).concat("&start=").concat(usize_to_string(start).as_str())
}

} // verus!
