//! The pattern extractors: each mines one typed field out of a detail
//! document's raw text, independently of the others. A pattern that does not
//! occur is no error — the field simply stays at its prior value. The
//! grammars are scanned at the first position where the whole pattern
//! matches, with the same greedy choices throughout.

use vstd::prelude::*;
use vstd::string::*;

use crate::flatjson::{parse_flat_map, spec_lookup, spec_parse_flat, lookup, pairs_view};
use crate::record::{Exhibitor, ExhibitorView};
use crate::text::{
    alpha_char, digit_run_end, find_char, is_alpha_char, join_with, match_at, match_lit_at,
    plain_run_end, skip_spaces, spec_digit_run_end, spec_find_char, spec_join, spec_plain_run_end,
    spec_skip_spaces, spec_trim, spec_unescape_seps, spec_word_space_run_end, str_eq, trim_str,
    unescape_seps, word_space_run_end,
};

verus! {

// ------------------------------------------------------------------
// Website: an assignment-style token embedding a quoted URI.
// ------------------------------------------------------------------

/// The website pattern matched at position `i`: the token, optional spaces,
/// then a quoted non-empty URI. The result is the capture range.
pub open spec fn spec_website_capture_at(text: Seq<char>, i: int) -> Option<(int, int)> {
    if match_at(text, "websiteValue:"@, i) {
        let j = spec_skip_spaces(text, i + "websiteValue:"@.len());
        if j < text.len() && text[j] == '"' {
            let q = spec_find_char(text, j + 1, '"');
            if q < text.len() && q > j + 1 {
                Some((j + 1, q))
            } else {
                None
            }
        } else {
            None
        }
    } else {
        None
    }
}

/// The first position where the whole website pattern matches, with its capture.
pub open spec fn spec_first_website(text: Seq<char>, i: int) -> Option<(int, int)>
    decreases text.len() - i when 0 <= i <= text.len()
{
    if i >= text.len() {
        None
    } else if spec_website_capture_at(text, i) is Some {
        spec_website_capture_at(text, i)
    } else {
        spec_first_website(text, i + 1)
    }
}

/// The extracted website: the first captured URI, with escaped path
/// separators undone.
pub open spec fn spec_extract_website(text: Seq<char>) -> Option<Seq<char>> {
    match spec_first_website(text, 0) {
        Some((a, b)) => Some(spec_unescape_seps(text.subrange(a, b))),
        None => None,
    }
}

fn website_capture_at(text: &str, i: usize) -> (r: Option<(usize, usize)>)
    requires
        i <= text@.len(),
    ensures
        match r {
            Some((a, b)) => spec_website_capture_at(text@, i as int) == Some((a as int, b as int))
                && i < a <= b <= text@.len(),
            None => spec_website_capture_at(text@, i as int) is None,
        },
{
    let n = text.unicode_len();
    proof {
        reveal_strlit("websiteValue:");
    }
    if !match_lit_at(text, "websiteValue:", i) {
        return None;
    }
    let j = skip_spaces(text, i + 13);
    if j < n && text.get_char(j) == '"' {
        let q = find_char(text, j + 1, '"');
        if q < n && q > j + 1 {
            Some((j + 1, q))
        } else {
            None
        }
    } else {
        None
    }
}

fn first_website_from(text: &str, i: usize) -> (r: Option<(usize, usize)>)
    requires
        i <= text@.len(),
    ensures
        match r {
            Some((a, b)) => spec_first_website(text@, i as int) == Some((a as int, b as int)) && a
                <= b <= text@.len(),
            None => spec_first_website(text@, i as int) is None,
        },
    decreases text@.len() - i,
{
    let n = text.unicode_len();
    if i >= n {
        None
    } else {
        match website_capture_at(text, i) {
            Some((a, b)) => Some((a, b)),
            None => first_website_from(text, i + 1),
        }
    }
}

/// Extracts the website field: the first quoted URI the pattern captures,
/// unescaped; `None` where the pattern never matches.
pub fn extract_website(text: &str) -> (r: Option<String>)
    ensures
        match r {
            Some(w) => spec_extract_website(text@) == Some(w@),
            None => spec_extract_website(text@) is None,
        },
{
    match first_website_from(text, 0) {
        Some((a, b)) => Some(unescape_seps(text.substring_char(a, b))),
        None => None,
    }
}

// ------------------------------------------------------------------
// Address: a flat object literal assigned to a known token.
// ------------------------------------------------------------------

/// The address pattern matched at position `i`: the token, optional spaces,
/// then a brace-delimited fragment with a non-empty interior. The result is
/// the fragment range, braces included.
pub open spec fn spec_address_capture_at(text: Seq<char>, i: int) -> Option<(int, int)> {
    if match_at(text, "addressValues:"@, i) {
        let j = spec_skip_spaces(text, i + "addressValues:"@.len());
        if j < text.len() && text[j] == '{' {
            let e = spec_find_char(text, j + 1, '}');
            if e < text.len() && e > j + 1 {
                Some((j, e + 1))
            } else {
                None
            }
        } else {
            None
        }
    } else {
        None
    }
}

/// The first position where the whole address pattern matches, with its capture.
pub open spec fn spec_first_address(text: Seq<char>, i: int) -> Option<(int, int)>
    decreases text.len() - i when 0 <= i <= text.len()
{
    if i >= text.len() {
        None
    } else if spec_address_capture_at(text, i) is Some {
        spec_address_capture_at(text, i)
    } else {
        spec_first_address(text, i + 1)
    }
}

/// One sub-part of the composite address: the value under `key`, kept only
/// when it is non-empty and not the `"-"` sentinel.
pub open spec fn spec_addr_part(
    pairs: Seq<(Seq<char>, Seq<char>)>,
    key: Seq<char>,
) -> Option<Seq<char>> {
    match spec_lookup(pairs, key) {
        Some(v) => if v.len() > 0 && v != "-"@ {
            Some(v)
        } else {
            None
        },
        None => None,
    }
}

/// Prepends an optional part to a part list.
pub open spec fn opt_cons(o: Option<Seq<char>>, rest: Seq<Seq<char>>) -> Seq<Seq<char>> {
    match o {
        Some(v) => seq![v] + rest,
        None => rest,
    }
}

/// The surviving address sub-parts, in the fixed key order.
pub open spec fn spec_address_parts(pairs: Seq<(Seq<char>, Seq<char>)>) -> Seq<Seq<char>> {
    opt_cons(
        spec_addr_part(pairs, "ADDRESS1"@),
        opt_cons(
            spec_addr_part(pairs, "ADDRESS2"@),
            opt_cons(
                spec_addr_part(pairs, "CITY"@),
                opt_cons(
                    spec_addr_part(pairs, "STATE"@),
                    opt_cons(
                        spec_addr_part(pairs, "ZIP"@),
                        opt_cons(spec_addr_part(pairs, "COUNTRY"@), Seq::empty()),
                    ),
                ),
            ),
        ),
    )
}

/// The composite address a parsed fragment yields.
pub open spec fn spec_assemble_address(pairs: Seq<(Seq<char>, Seq<char>)>) -> Seq<char> {
    spec_join(spec_address_parts(pairs), ", "@)
}

/// The extracted address: the first captured fragment, parsed as a flat
/// key-to-string mapping and assembled; `None` where the pattern never
/// matches or the fragment is malformed.
pub open spec fn spec_extract_address(text: Seq<char>) -> Option<Seq<char>> {
    match spec_first_address(text, 0) {
        Some((a, b)) => match spec_parse_flat(text.subrange(a, b)) {
            Some(pairs) => Some(spec_assemble_address(pairs)),
            None => None,
        },
        None => None,
    }
}

fn address_capture_at(text: &str, i: usize) -> (r: Option<(usize, usize)>)
    requires
        i <= text@.len(),
    ensures
        match r {
            Some((a, b)) => spec_address_capture_at(text@, i as int) == Some((a as int, b as int))
                && i < a <= b <= text@.len(),
            None => spec_address_capture_at(text@, i as int) is None,
        },
{
    let n = text.unicode_len();
    proof {
        reveal_strlit("addressValues:");
    }
    if !match_lit_at(text, "addressValues:", i) {
        return None;
    }
    let j = skip_spaces(text, i + 14);
    if j < n && text.get_char(j) == '{' {
        let e = find_char(text, j + 1, '}');
        if e < n && e > j + 1 {
            Some((j, e + 1))
        } else {
            None
        }
    } else {
        None
    }
}

fn first_address_from(text: &str, i: usize) -> (r: Option<(usize, usize)>)
    requires
        i <= text@.len(),
    ensures
        match r {
            Some((a, b)) => spec_first_address(text@, i as int) == Some((a as int, b as int)) && a
                <= b <= text@.len(),
            None => spec_first_address(text@, i as int) is None,
        },
    decreases text@.len() - i,
{
    let n = text.unicode_len();
    if i >= n {
        None
    } else {
        match address_capture_at(text, i) {
            Some((a, b)) => Some((a, b)),
            None => first_address_from(text, i + 1),
        }
    }
}

fn addr_part(pairs: &Vec<(String, String)>, key: &str) -> (r: Option<String>)
    ensures
        match r {
            Some(v) => spec_addr_part(pairs_view(pairs@), key@) == Some(v@),
            None => spec_addr_part(pairs_view(pairs@), key@) is None,
        },
{
    match lookup(pairs, key) {
        Some(v) => {
            if v.unicode_len() > 0 && !str_eq(v.as_str(), "-") {
                Some(v)
            } else {
                None
            }
        },
        None => None,
    }
}

fn assemble_address(pairs: &Vec<(String, String)>) -> (r: String)
    ensures
        r@ == spec_assemble_address(pairs_view(pairs@)),
{
    let mut parts: Vec<String> = Vec::new();
    if let Some(v) = addr_part(pairs, "ADDRESS1") {
        parts.push(v);
    }
    if let Some(v) = addr_part(pairs, "ADDRESS2") {
        parts.push(v);
    }
    if let Some(v) = addr_part(pairs, "CITY") {
        parts.push(v);
    }
    if let Some(v) = addr_part(pairs, "STATE") {
        parts.push(v);
    }
    if let Some(v) = addr_part(pairs, "ZIP") {
        parts.push(v);
    }
    if let Some(v) = addr_part(pairs, "COUNTRY") {
        parts.push(v);
    }
    proof {
        assert(parts.deep_view() =~= spec_address_parts(pairs_view(pairs@)));
    }
    join_with(&parts, ", ")
}

/// Extracts the composite address; `None` where the pattern never matches or
/// the captured fragment is malformed.
pub fn extract_address(text: &str) -> (r: Option<String>)
    ensures
        match r {
            Some(a) => spec_extract_address(text@) == Some(a@),
            None => spec_extract_address(text@) is None,
        },
{
    match first_address_from(text, 0) {
        Some((a, b)) => {
            match parse_flat_map(text.substring_char(a, b)) {
                Some(pairs) => Some(assemble_address(&pairs)),
                None => None,
            }
        },
        None => None,
    }
}

// ------------------------------------------------------------------
// Booth and venue: a known venue prefix, a dash-like separator and a code;
// a hospitality-suite label as the fallback.
// ------------------------------------------------------------------

/// The end of the venue literal matching at `i`, trying the fixed list in order.
pub open spec fn spec_venue_lit_end(text: Seq<char>, i: int) -> Option<int> {
    if match_at(text, "LVCC"@, i) {
        Some(i + "LVCC"@.len())
    } else if match_at(text, "Venetian"@, i) {
        Some(i + "Venetian"@.len())
    } else if match_at(text, "Westgate"@, i) {
        Some(i + "Westgate"@.len())
    } else if match_at(text, "Aria"@, i) {
        Some(i + "Aria"@.len())
    } else if match_at(text, "Wynn"@, i) {
        Some(i + "Wynn"@.len())
    } else if match_at(text, "Fontainebleau"@, i) {
        Some(i + "Fontainebleau"@.len())
    } else if match_at(text, "Resorts World"@, i) {
        Some(i + "Resorts World"@.len())
    } else {
        None
    }
}

/// The end of the dash-like separator at `j`: the `&mdash;` entity, an
/// em-dash or a plain hyphen.
pub open spec fn spec_sep_end(text: Seq<char>, j: int) -> Option<int> {
    if match_at(text, "&mdash;"@, j) {
        Some(j + "&mdash;"@.len())
    } else if 0 <= j < text.len() && (text[j] == '\u{2014}' || text[j] == '-') {
        Some(j + 1)
    } else {
        None
    }
}

/// The booth tail parsed at `k`: optional spaces, the separator, optional
/// spaces, then one or more digits and at most one trailing letter. The
/// result is the booth-code range.
pub open spec fn spec_booth_tail(text: Seq<char>, k: int) -> Option<(int, int)> {
    let j = spec_skip_spaces(text, k);
    match spec_sep_end(text, j) {
        Some(j2) => {
            let j3 = spec_skip_spaces(text, j2);
            let d = spec_digit_run_end(text, j3);
            if d > j3 {
                if d < text.len() && is_alpha_char(text[d]) {
                    Some((j3, d + 1))
                } else {
                    Some((j3, d))
                }
            } else {
                None
            }
        },
        None => None,
    }
}

/// The greedy split: the largest end `k` of the venue text, above `lo`, whose
/// tail parses. The result carries the chosen end and the booth-code range.
pub open spec fn spec_best_split(text: Seq<char>, k: int, lo: int) -> Option<(int, (int, int))>
    decreases k - lo when lo <= k
{
    if k <= lo {
        None
    } else if spec_booth_tail(text, k) is Some {
        Some((k, spec_booth_tail(text, k)->Some_0))
    } else {
        spec_best_split(text, k - 1, lo)
    }
}

/// The venue-and-booth pattern matched at `i`: a venue literal, a non-empty
/// run free of `&` and `<`, then the separator-and-code tail at the greediest
/// feasible split. The result carries the venue end and the code range.
pub open spec fn spec_booth_match_at(text: Seq<char>, i: int) -> Option<(int, (int, int))> {
    match spec_venue_lit_end(text, i) {
        Some(r0) => {
            let re = spec_plain_run_end(text, r0);
            if re > r0 {
                spec_best_split(text, re, r0)
            } else {
                None
            }
        },
        None => None,
    }
}

/// The first position where the venue-and-booth pattern matches, with the
/// match start, venue end and code range.
pub open spec fn spec_first_booth(text: Seq<char>, i: int) -> Option<(int, int, (int, int))>
    decreases text.len() - i when 0 <= i <= text.len()
{
    if i >= text.len() {
        None
    } else {
        match spec_booth_match_at(text, i) {
            Some((k, code)) => Some((i, k, code)),
            None => spec_first_booth(text, i + 1),
        }
    }
}

/// The greediest feasible start of the hospitality-suite label at or below
/// `j`, but not below `lo`.
pub open spec fn spec_best_suite(text: Seq<char>, j: int, lo: int) -> Option<int>
    decreases j - lo when lo <= j
{
    if match_at(text, "Hospitality Suite"@, j) {
        Some(j)
    } else if j <= lo {
        None
    } else {
        spec_best_suite(text, j - 1, lo)
    }
}

/// The hospitality-suite pattern matched at `i`: a markup close, a non-empty
/// run of word-or-space characters, the suite label with an optional plural,
/// anything up to the next markup open. The result is the label capture.
pub open spec fn spec_hosp_at(text: Seq<char>, i: int) -> Option<(int, int)> {
    if 0 <= i < text.len() && text[i] == '>' {
        let w = spec_word_space_run_end(text, i + 1);
        if w >= i + 2 {
            match spec_best_suite(text, w, i + 2) {
                Some(j) => {
                    let j2 = j + "Hospitality Suite"@.len();
                    let j3 = if j2 < text.len() && text[j2] == 's' {
                        j2 + 1
                    } else {
                        j2
                    };
                    let f = spec_find_char(text, j3, '<');
                    if f < text.len() {
                        Some((i + 1, f))
                    } else {
                        None
                    }
                },
                None => None,
            }
        } else {
            None
        }
    } else {
        None
    }
}

/// The first position where the hospitality-suite pattern matches.
pub open spec fn spec_first_hosp(text: Seq<char>, i: int) -> Option<(int, int)>
    decreases text.len() - i when 0 <= i <= text.len()
{
    if i >= text.len() {
        None
    } else if spec_hosp_at(text, i) is Some {
        spec_hosp_at(text, i)
    } else {
        spec_first_hosp(text, i + 1)
    }
}

/// The extracted venue and composite booth field. The primary pattern yields
/// the trimmed venue text and `"<venue> - <code>"`; the fallback yields the
/// trimmed suite label for both.
pub open spec fn spec_extract_booth(text: Seq<char>) -> Option<(Seq<char>, Seq<char>)> {
    match spec_first_booth(text, 0) {
        Some((i, k, (c0, c1))) => {
            let venue = spec_trim(text.subrange(i, k));
            Some((venue, venue + " - "@ + text.subrange(c0, c1)))
        },
        None => match spec_first_hosp(text, 0) {
            Some((a, b)) => {
                let v = spec_trim(text.subrange(a, b));
                Some((v, v))
            },
            None => None,
        },
    }
}

fn venue_lit_end(text: &str, i: usize) -> (r: Option<usize>)
    requires
        i <= text@.len(),
    ensures
        match r {
            Some(e) => spec_venue_lit_end(text@, i as int) == Some(e as int) && i < e
                <= text@.len(),
            None => spec_venue_lit_end(text@, i as int) is None,
        },
{
    let _n = text.unicode_len();
    proof {
        reveal_strlit("LVCC");
        reveal_strlit("Venetian");
        reveal_strlit("Westgate");
        reveal_strlit("Aria");
        reveal_strlit("Wynn");
        reveal_strlit("Fontainebleau");
        reveal_strlit("Resorts World");
    }
    if match_lit_at(text, "LVCC", i) {
        Some(i + 4)
    } else if match_lit_at(text, "Venetian", i) {
        Some(i + 8)
    } else if match_lit_at(text, "Westgate", i) {
        Some(i + 8)
    } else if match_lit_at(text, "Aria", i) {
        Some(i + 4)
    } else if match_lit_at(text, "Wynn", i) {
        Some(i + 4)
    } else if match_lit_at(text, "Fontainebleau", i) {
        Some(i + 13)
    } else if match_lit_at(text, "Resorts World", i) {
        Some(i + 13)
    } else {
        None
    }
}

fn booth_tail(text: &str, k: usize) -> (r: Option<(usize, usize)>)
    requires
        k <= text@.len(),
    ensures
        match r {
            Some((c0, c1)) => spec_booth_tail(text@, k as int) == Some((c0 as int, c1 as int))
                && c0 <= c1 <= text@.len(),
            None => spec_booth_tail(text@, k as int) is None,
        },
{
    let n = text.unicode_len();
    proof {
        reveal_strlit("&mdash;");
    }
    let j = skip_spaces(text, k);
    let sep_end: Option<usize> = if match_lit_at(text, "&mdash;", j) {
        Some(j + 7)
    } else if j < n && (text.get_char(j) == '\u{2014}' || text.get_char(j) == '-') {
        Some(j + 1)
    } else {
        None
    };
    match sep_end {
        Some(j2) => {
            let j3 = skip_spaces(text, j2);
            let d = digit_run_end(text, j3);
            if d > j3 {
                if d < n && alpha_char(text.get_char(d)) {
                    Some((j3, d + 1))
                } else {
                    Some((j3, d))
                }
            } else {
                None
            }
        },
        None => None,
    }
}

fn best_split(text: &str, k: usize, lo: usize) -> (r: Option<(usize, (usize, usize))>)
    requires
        lo <= k <= text@.len(),
    ensures
        match r {
            Some((k2, (c0, c1))) => spec_best_split(text@, k as int, lo as int) == Some(
                (k2 as int, (c0 as int, c1 as int)),
            ) && lo < k2 <= text@.len() && c0 <= c1 <= text@.len(),
            None => spec_best_split(text@, k as int, lo as int) is None,
        },
    decreases k,
{
    if k <= lo {
        None
    } else {
        match booth_tail(text, k) {
            Some(code) => Some((k, code)),
            None => best_split(text, k - 1, lo),
        }
    }
}

fn booth_match_at(text: &str, i: usize) -> (r: Option<(usize, (usize, usize))>)
    requires
        i <= text@.len(),
    ensures
        match r {
            Some((k, (c0, c1))) => spec_booth_match_at(text@, i as int) == Some(
                (k as int, (c0 as int, c1 as int)),
            ) && i <= k <= text@.len() && c0 <= c1 <= text@.len(),
            None => spec_booth_match_at(text@, i as int) is None,
        },
{
    match venue_lit_end(text, i) {
        Some(r0) => {
            let re = plain_run_end(text, r0);
            if re > r0 {
                best_split(text, re, r0)
            } else {
                None
            }
        },
        None => None,
    }
}

fn first_booth_from(text: &str, i: usize) -> (r: Option<(usize, usize, (usize, usize))>)
    requires
        i <= text@.len(),
    ensures
        match r {
            Some((s, k, (c0, c1))) => spec_first_booth(text@, i as int) == Some(
                (s as int, k as int, (c0 as int, c1 as int)),
            ) && s <= k <= text@.len() && c0 <= c1 <= text@.len(),
            None => spec_first_booth(text@, i as int) is None,
        },
    decreases text@.len() - i,
{
    let n = text.unicode_len();
    if i >= n {
        None
    } else {
        match booth_match_at(text, i) {
            Some((k, code)) => Some((i, k, code)),
            None => first_booth_from(text, i + 1),
        }
    }
}

fn best_suite(text: &str, j: usize, lo: usize) -> (r: Option<usize>)
    requires
        lo <= j <= text@.len(),
    ensures
        match r {
            Some(j2) => spec_best_suite(text@, j as int, lo as int) == Some(j2 as int) && lo <= j2
                <= text@.len() && match_at(text@, "Hospitality Suite"@, j2 as int),
            None => spec_best_suite(text@, j as int, lo as int) is None,
        },
    decreases j,
{
    proof {
        reveal_strlit("Hospitality Suite");
    }
    if match_lit_at(text, "Hospitality Suite", j) {
        Some(j)
    } else if j <= lo {
        None
    } else {
        best_suite(text, j - 1, lo)
    }
}

fn hosp_at(text: &str, i: usize) -> (r: Option<(usize, usize)>)
    requires
        i <= text@.len(),
    ensures
        match r {
            Some((a, b)) => spec_hosp_at(text@, i as int) == Some((a as int, b as int)) && a <= b
                <= text@.len(),
            None => spec_hosp_at(text@, i as int) is None,
        },
{
    let n = text.unicode_len();
    if i < n && text.get_char(i) == '>' {
        let w = word_space_run_end(text, i + 1);
        if w - i >= 2 {
            match best_suite(text, w, i + 2) {
                Some(j) => {
                    proof {
                        reveal_strlit("Hospitality Suite");
                    }
                    let j2 = j + 17;
                    let j3 = if j2 < n && text.get_char(j2) == 's' {
                        j2 + 1
                    } else {
                        j2
                    };
                    let f = find_char(text, j3, '<');
                    if f < n {
                        Some((i + 1, f))
                    } else {
                        None
                    }
                },
                None => None,
            }
        } else {
            None
        }
    } else {
        None
    }
}

fn first_hosp_from(text: &str, i: usize) -> (r: Option<(usize, usize)>)
    requires
        i <= text@.len(),
    ensures
        match r {
            Some((a, b)) => spec_first_hosp(text@, i as int) == Some((a as int, b as int)) && a
                <= b <= text@.len(),
            None => spec_first_hosp(text@, i as int) is None,
        },
    decreases text@.len() - i,
{
    let n = text.unicode_len();
    if i >= n {
        None
    } else {
        match hosp_at(text, i) {
            Some((a, b)) => Some((a, b)),
            None => first_hosp_from(text, i + 1),
        }
    }
}

/// Extracts the venue and the composite booth field; the hospitality-suite
/// label is the fallback; `None` where neither pattern occurs.
pub fn extract_booth(text: &str) -> (r: Option<(String, String)>)
    ensures
        match r {
            Some((venue, full)) => spec_extract_booth(text@) == Some((venue@, full@)),
            None => spec_extract_booth(text@) is None,
        },
{
    match first_booth_from(text, 0) {
        Some((s, k, (c0, c1))) => {
            let venue = trim_str(text.substring_char(s, k));
            let full = venue.clone().concat(" - ").concat(text.substring_char(c0, c1));
            Some((venue, full))
        },
        None => {
            match first_hosp_from(text, 0) {
                Some((a, b)) => {
                    let v = trim_str(text.substring_char(a, b));
                    Some((v.clone(), v))
                },
                None => None,
            }
        },
    }
}

// ------------------------------------------------------------------
// Categories: every category-link capture, filtered and joined.
// ------------------------------------------------------------------

/// The category-link pattern matched at `i`: the link token, one or more
/// digits, the link close, then a non-empty inner text up to the next markup
/// open. The result is the capture range and the position after the match.
pub open spec fn spec_cat_capture_at(text: Seq<char>, i: int) -> Option<(int, int, int)> {
    if match_at(text, "searchtype/category/search/"@, i) {
        let j = i + "searchtype/category/search/"@.len();
        let d = spec_digit_run_end(text, j);
        if d > j && match_at(text, "/show/all\">"@, d) {
            let c0 = d + "/show/all\">"@.len();
            let e = spec_find_char(text, c0, '<');
            if e < text.len() && e > c0 {
                Some((c0, e, e + 1))
            } else {
                None
            }
        } else {
            None
        }
    } else {
        None
    }
}

/// Every capture of the category-link pattern, in match order, scanning
/// non-overlapping matches left to right. (The clamp in the recursion only
/// serves termination: a match always ends past its start.)
pub open spec fn spec_collect_cats(text: Seq<char>, i: int) -> Seq<Seq<char>>
    decreases text.len() - i when 0 <= i <= text.len()
{
    if i >= text.len() {
        Seq::empty()
    } else {
        match spec_cat_capture_at(text, i) {
            Some((a, b, nx)) => seq![text.subrange(a, b)] + spec_collect_cats(
                text,
                if i < nx <= text.len() {
                    nx
                } else {
                    i + 1
                },
            ),
            None => spec_collect_cats(text, i + 1),
        }
    }
}

/// Whether one captured inner text survives the filter: trimmed, it must be
/// longer than two characters and not the placeholder heading.
pub open spec fn spec_kept_category(t: Seq<char>) -> bool {
    spec_trim(t).len() > 2 && spec_trim(t) != "Product Categories"@
}

/// The trimmed survivors of the captured inner texts, in match order.
pub open spec fn spec_kept_categories(cs: Seq<Seq<char>>) -> Seq<Seq<char>>
    decreases cs.len(),
{
    if cs.len() == 0 {
        Seq::empty()
    } else {
        let rest = spec_kept_categories(cs.drop_first());
        if spec_kept_category(cs[0]) {
            seq![spec_trim(cs[0])] + rest
        } else {
            rest
        }
    }
}

/// The extracted category list: the trimmed survivors joined with `"; "`,
/// duplicates kept; `None` where no capture survives.
pub open spec fn spec_extract_categories(text: Seq<char>) -> Option<Seq<char>> {
    let kept = spec_kept_categories(spec_collect_cats(text, 0));
    if kept.len() == 0 {
        None
    } else {
        Some(spec_join(kept, "; "@))
    }
}

/// Every kept category is non-empty.
proof fn lemma_kept_nonempty(cs: Seq<Seq<char>>)
    ensures
        forall|j: int| 0 <= j < spec_kept_categories(cs).len() ==> spec_kept_categories(
            cs,
        )[j].len() > 0,
    decreases cs.len(),
{
    if cs.len() > 0 {
        lemma_kept_nonempty(cs.drop_first());
        let rest = spec_kept_categories(cs.drop_first());
        if spec_kept_category(cs[0]) {
            assert forall|j: int| 0 <= j < spec_kept_categories(cs).len() implies
                spec_kept_categories(cs)[j].len() > 0 by {
                if j > 0 {
                    assert(spec_kept_categories(cs)[j] == rest[j - 1]);
                }
            }
        }
    }
}

fn cat_capture_at(text: &str, i: usize) -> (r: Option<(usize, usize, usize)>)
    requires
        i <= text@.len(),
    ensures
        match r {
            Some((a, b, nx)) => spec_cat_capture_at(text@, i as int) == Some(
                (a as int, b as int, nx as int),
            ) && a <= b <= text@.len() && i < nx <= text@.len(),
            None => spec_cat_capture_at(text@, i as int) is None,
        },
{
    let n = text.unicode_len();
    proof {
        reveal_strlit("searchtype/category/search/");
        reveal_strlit("/show/all\">");
    }
    if !match_lit_at(text, "searchtype/category/search/", i) {
        return None;
    }
    let j = i + 27;
    let d = digit_run_end(text, j);
    if d > j && match_lit_at(text, "/show/all\">", d) {
        let c0 = d + 11;
        let e = find_char(text, c0, '<');
        if e < n && e > c0 {
            Some((c0, e, e + 1))
        } else {
            None
        }
    } else {
        None
    }
}

fn collect_cats_from(text: &str, i: usize) -> (r: Vec<String>)
    requires
        i <= text@.len(),
    ensures
        r.deep_view() == spec_collect_cats(text@, i as int),
    decreases text@.len() - i,
{
    let n = text.unicode_len();
    if i >= n {
        let empty: Vec<String> = Vec::new();
        proof {
            assert(empty.deep_view() =~= spec_collect_cats(text@, i as int));
        }
        empty
    } else {
        match cat_capture_at(text, i) {
            Some((a, b, nx)) => {
                let mut rest = collect_cats_from(text, nx);
                let cap = text.substring_char(a, b).to_owned();
                rest.insert(0, cap);
                proof {
                    assert(rest.deep_view() =~= seq![text@.subrange(a as int, b as int)]
                        + spec_collect_cats(text@, nx as int));
                }
                rest
            },
            None => collect_cats_from(text, i + 1),
        }
    }
}

fn join_kept_from(cats: &Vec<String>, i: usize) -> (r: String)
    requires
        i <= cats@.len(),
    ensures
        r@ == spec_join(spec_kept_categories(cats.deep_view().skip(i as int)), "; "@),
    decreases cats@.len() - i,
{
    let n = cats.len();
    if i >= n {
        proof {
            assert(cats.deep_view().skip(i as int) =~= Seq::<Seq<char>>::empty());
        }
        String::new()
    } else {
        let t = trim_str(cats[i].as_str());
        let keep = t.unicode_len() > 2 && !str_eq(t.as_str(), "Product Categories");
        let rest = join_kept_from(cats, i + 1);
        proof {
            assert(cats.deep_view().skip(i as int).drop_first() =~= cats.deep_view().skip(
                i as int + 1,
            ));
            assert(cats.deep_view().skip(i as int)[0] == cats@[i as int]@);
        }
        if !keep {
            rest
        } else if rest.unicode_len() == 0 {
            proof {
                let survivors = spec_kept_categories(cats.deep_view().skip(i as int + 1));
                if survivors.len() > 0 {
                    lemma_kept_nonempty(cats.deep_view().skip(i as int + 1));
                    crate::text::lemma_join_head_nonempty(survivors, "; "@);
                }
                assert(spec_kept_categories(cats.deep_view().skip(i as int)) =~= seq![t@]);
            }
            t
        } else {
            proof {
                let survivors = spec_kept_categories(cats.deep_view().skip(i as int + 1));
                assert(survivors.len() > 0);
                assert(spec_kept_categories(cats.deep_view().skip(i as int)) =~= seq![t@]
                    + survivors);
                assert((seq![t@] + survivors)[0] == t@);
                assert((seq![t@] + survivors).drop_first() =~= survivors);
            }
            t.concat("; ").concat(rest.as_str())
        }
    }
}

/// Extracts the category list: every captured inner text, trimmed, filtered
/// and joined with `"; "` in match order; `None` where no capture survives.
pub fn extract_categories(text: &str) -> (r: Option<String>)
    ensures
        match r {
            Some(c) => spec_extract_categories(text@) == Some(c@),
            None => spec_extract_categories(text@) is None,
        },
{
    let cats = collect_cats_from(text, 0);
    proof {
        assert(cats.deep_view().skip(0) =~= cats.deep_view());
    }
    let joined = join_kept_from(&cats, 0);
    if joined.unicode_len() == 0 {
        proof {
            let kept = spec_kept_categories(spec_collect_cats(text@, 0));
            if kept.len() > 0 {
                lemma_kept_nonempty(spec_collect_cats(text@, 0));
                crate::text::lemma_join_head_nonempty(kept, "; "@);
            }
        }
        None
    } else {
        Some(joined)
    }
}

// ------------------------------------------------------------------
// Applying one detail document to a record.
// ------------------------------------------------------------------

/// The record after enrichment from `body`: each extractor that finds its
/// pattern sets its field; one that finds nothing leaves the prior value.
/// No other field is touched.
pub open spec fn spec_enrich(v: ExhibitorView, body: Seq<char>) -> ExhibitorView {
    let v1 = match spec_extract_website(body) {
        Some(w) => ExhibitorView { website: w, ..v },
        None => v,
    };
    let v2 = match spec_extract_address(body) {
        Some(a) => ExhibitorView { address: a, ..v1 },
        None => v1,
    };
    let v3 = match spec_extract_booth(body) {
        Some(vb) => ExhibitorView { booth_venue: vb.0, booth_full: vb.1, ..v2 },
        None => v2,
    };
    match spec_extract_categories(body) {
        Some(c) => ExhibitorView { product_categories: c, ..v3 },
        None => v3,
    }
}

/// Applies one detail document to a record, in place.
pub fn enrich_record(ex: &mut Exhibitor, body: &str)
    ensures
        final(ex)@ == spec_enrich(old(ex)@, body@),
{
    if let Some(w) = extract_website(body) {
        ex.website = w;
    }
    if let Some(a) = extract_address(body) {
        ex.address = a;
    }
    if let Some((venue, full)) = extract_booth(body) {
        ex.booth_venue = venue;
        ex.booth_full = full;
    }
    if let Some(c) = extract_categories(body) {
        ex.product_categories = c;
    }
}

/// Enrichment is non-destructive: a document in which no extractor finds its
/// pattern leaves every field of the record unchanged.
pub proof fn lemma_enrichment_non_destructive(v: ExhibitorView, body: Seq<char>)
    requires
        spec_extract_website(body) is None,
        spec_extract_address(body) is None,
        spec_extract_booth(body) is None,
        spec_extract_categories(body) is None,
    ensures
        spec_enrich(v, body) == v,
{
}

/// Enrichment never touches the identity, the name, the description, the
/// normalized lists or the funding fields.
pub proof fn lemma_enrich_preserves_core_fields(v: ExhibitorView, body: Seq<char>)
    ensures
        spec_enrich(v, body).exhid == v.exhid,
        spec_enrich(v, body).name == v.name,
        spec_enrich(v, body).detail_url == v.detail_url,
        spec_enrich(v, body).description == v.description,
        spec_enrich(v, body).booth_number == v.booth_number,
        spec_enrich(v, body).hall_ids == v.hall_ids,
        spec_enrich(v, body).seek_funding == v.seek_funding,
        spec_enrich(v, body).funding_amount == v.funding_amount,
        spec_enrich(v, body).revenue == v.revenue,
        spec_enrich(v, body).investment_stage == v.investment_stage,
        spec_enrich(v, body).scraped_at == v.scraped_at,
{
}

} // verus!
