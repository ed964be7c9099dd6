//! Character-level scanning primitives the extractors are built on:
//! literal search, run scanning, trimming, joining and decimal rendering.
//! Every executable function is specified against a spec-level account of
//! the same scan over the string's view.

use vstd::prelude::*;
use vstd::string::*;

verus! {

/// An ASCII whitespace form, as the extraction grammars understand blanks.
pub open spec fn is_space_char(c: char) -> bool {
    c == ' ' || c == '\t' || c == '\n' || c == '\r' || c == '\u{b}' || c == '\u{c}'
}

/// An ASCII decimal digit.
pub open spec fn is_digit_char(c: char) -> bool {
    48 <= c as u32 && c as u32 <= 57
}

/// An ASCII letter.
pub open spec fn is_alpha_char(c: char) -> bool {
    (97 <= c as u32 && c as u32 <= 122) || (65 <= c as u32 && c as u32 <= 90)
}

/// A word character: letter, digit or underscore.
pub open spec fn is_word_char(c: char) -> bool {
    is_alpha_char(c) || is_digit_char(c) || c == '_'
}

pub fn space_char(c: char) -> (r: bool)
    ensures
        r == is_space_char(c),
{
    c == ' ' || c == '\t' || c == '\n' || c == '\r' || c == '\u{b}' || c == '\u{c}'
}

pub fn digit_char(c: char) -> (r: bool)
    ensures
        r == is_digit_char(c),
{
    let u = c as u32;
    48 <= u && u <= 57
}

pub fn alpha_char(c: char) -> (r: bool)
    ensures
        r == is_alpha_char(c),
{
    let u = c as u32;
    (97 <= u && u <= 122) || (65 <= u && u <= 90)
}

pub fn word_char(c: char) -> (r: bool)
    ensures
        r == is_word_char(c),
{
    alpha_char(c) || digit_char(c) || c == '_'
}

/// The pattern `pat` occurs in `text` starting at position `i`.
pub open spec fn match_at(text: Seq<char>, pat: Seq<char>, i: int) -> bool {
    &&& 0 <= i
    &&& i + pat.len() <= text.len()
    &&& forall|k: int| 0 <= k < pat.len() ==> text[i + k] == pat[k]
}

fn match_from(text: &str, pat: &str, i: usize, k: usize) -> (r: bool)
    requires
        i + pat@.len() <= text@.len(),
        k <= pat@.len(),
    ensures
        r == forall|t: int| k <= t < pat@.len() ==> text@[i + t] == pat@[t],
    decreases pat@.len() - k,
{
    let n = text.unicode_len();
    let m = pat.unicode_len();
    if k >= m {
        true
    } else {
        let a = text.get_char(i + k);
        let b = pat.get_char(k);
        if a == b {
            match_from(text, pat, i, k + 1)
        } else {
            false
        }
    }
}

/// Whether `pat` occurs in `text` at position `i`.
pub fn match_lit_at(text: &str, pat: &str, i: usize) -> (r: bool)
    requires
        i <= text@.len(),
    ensures
        r == match_at(text@, pat@, i as int),
{
    let n = text.unicode_len();
    let m = pat.unicode_len();
    if m > n - i {
        false
    } else {
        match_from(text, pat, i, 0)
    }
}

/// Whether two strings hold the same characters.
pub fn str_eq(a: &str, b: &str) -> (r: bool)
    ensures
        r == (a@ == b@),
{
    let la = a.unicode_len();
    let lb = b.unicode_len();
    if la != lb {
        false
    } else {
        let m = match_lit_at(a, b, 0);
        proof {
            if m {
                assert(a@ =~= b@);
            } else {
                if a@ == b@ {
                    assert(match_at(a@, b@, 0));
                }
            }
        }
        m
    }
}

/// The first occurrence of `pat` in `text` at or after `from`, if any.
pub fn find_from(text: &str, pat: &str, from: usize) -> (r: Option<usize>)
    requires
        from <= text@.len(),
    ensures
        match r {
            Some(j) => from <= j && match_at(text@, pat@, j as int) && forall|k: int|
                from <= k < j ==> !match_at(text@, pat@, k),
            None => forall|k: int| from <= k ==> !match_at(text@, pat@, k),
        },
    decreases text@.len() - from,
{
    if match_lit_at(text, pat, from) {
        Some(from)
    } else if from < text.unicode_len() {
        find_from(text, pat, from + 1)
    } else {
        None
    }
}

/// The first position at or after `i` holding a non-space character, or the end.
pub open spec fn spec_skip_spaces(text: Seq<char>, i: int) -> int
    decreases text.len() - i when 0 <= i <= text.len()
{
    if i >= text.len() {
        i
    } else if is_space_char(text[i]) {
        spec_skip_spaces(text, i + 1)
    } else {
        i
    }
}

pub fn skip_spaces(text: &str, i: usize) -> (r: usize)
    requires
        i <= text@.len(),
    ensures
        i <= r <= text@.len(),
        r == spec_skip_spaces(text@, i as int),
    decreases text@.len() - i,
{
    let n = text.unicode_len();
    if i < n && space_char(text.get_char(i)) {
        skip_spaces(text, i + 1)
    } else {
        i
    }
}

/// The first position at or after `i` holding `c`, or the end of `text`.
pub open spec fn spec_find_char(text: Seq<char>, i: int, c: char) -> int
    decreases text.len() - i when 0 <= i <= text.len()
{
    if i >= text.len() {
        text.len() as int
    } else if text[i] == c {
        i
    } else {
        spec_find_char(text, i + 1, c)
    }
}

pub fn find_char(text: &str, i: usize, c: char) -> (r: usize)
    requires
        i <= text@.len(),
    ensures
        i <= r <= text@.len(),
        r == spec_find_char(text@, i as int, c),
    decreases text@.len() - i,
{
    let n = text.unicode_len();
    if i >= n {
        n
    } else if text.get_char(i) == c {
        i
    } else {
        find_char(text, i + 1, c)
    }
}

/// The end of the run of digits that starts at `i`.
pub open spec fn spec_digit_run_end(text: Seq<char>, i: int) -> int
    decreases text.len() - i when 0 <= i <= text.len()
{
    if i >= text.len() {
        i
    } else if is_digit_char(text[i]) {
        spec_digit_run_end(text, i + 1)
    } else {
        i
    }
}

pub fn digit_run_end(text: &str, i: usize) -> (r: usize)
    requires
        i <= text@.len(),
    ensures
        i <= r <= text@.len(),
        r == spec_digit_run_end(text@, i as int),
    decreases text@.len() - i,
{
    let n = text.unicode_len();
    if i < n && digit_char(text.get_char(i)) {
        digit_run_end(text, i + 1)
    } else {
        i
    }
}

/// The end of the run of word-or-space characters that starts at `i`.
pub open spec fn spec_word_space_run_end(text: Seq<char>, i: int) -> int
    decreases text.len() - i when 0 <= i <= text.len()
{
    if i >= text.len() {
        i
    } else if is_word_char(text[i]) || is_space_char(text[i]) {
        spec_word_space_run_end(text, i + 1)
    } else {
        i
    }
}

pub fn word_space_run_end(text: &str, i: usize) -> (r: usize)
    requires
        i <= text@.len(),
    ensures
        i <= r <= text@.len(),
        r == spec_word_space_run_end(text@, i as int),
    decreases text@.len() - i,
{
    let n = text.unicode_len();
    if i < n {
        let c = text.get_char(i);
        if word_char(c) || space_char(c) {
            return word_space_run_end(text, i + 1);
        }
    }
    i
}

/// The end of the run of characters other than `'&'` and `'<'` starting at `i`.
pub open spec fn spec_plain_run_end(text: Seq<char>, i: int) -> int
    decreases text.len() - i when 0 <= i <= text.len()
{
    if i >= text.len() {
        i
    } else if text[i] == '&' || text[i] == '<' {
        i
    } else {
        spec_plain_run_end(text, i + 1)
    }
}

pub fn plain_run_end(text: &str, i: usize) -> (r: usize)
    requires
        i <= text@.len(),
    ensures
        i <= r <= text@.len(),
        r == spec_plain_run_end(text@, i as int),
    decreases text@.len() - i,
{
    let n = text.unicode_len();
    if i >= n {
        i
    } else {
        let c = text.get_char(i);
        if c == '&' || c == '<' {
            i
        } else {
            plain_run_end(text, i + 1)
        }
    }
}

/// The position after the leading spaces of `s`.
pub open spec fn spec_ltrim_pos(s: Seq<char>) -> int {
    spec_skip_spaces(s, 0)
}

/// The position before the trailing spaces of `s`, scanning down from `e`.
pub open spec fn spec_rtrim_pos(s: Seq<char>, e: int) -> int
    decreases e when 0 <= e <= s.len()
{
    if e > 0 && is_space_char(s[e - 1]) {
        spec_rtrim_pos(s, e - 1)
    } else {
        e
    }
}

/// `s` with leading and trailing spaces removed.
pub open spec fn spec_trim(s: Seq<char>) -> Seq<char> {
    let a = spec_ltrim_pos(s);
    let b = spec_rtrim_pos(s, s.len() as int);
    if a <= b {
        s.subrange(a, b)
    } else {
        Seq::empty()
    }
}

fn rtrim_pos(s: &str, e: usize) -> (r: usize)
    requires
        e <= s@.len(),
    ensures
        r <= e,
        r == spec_rtrim_pos(s@, e as int),
    decreases e,
{
    if e > 0 && space_char(s.get_char(e - 1)) {
        rtrim_pos(s, e - 1)
    } else {
        e
    }
}

/// Removes leading and trailing spaces.
pub fn trim_str(s: &str) -> (r: String)
    ensures
        r@ == spec_trim(s@),
{
    let n = s.unicode_len();
    let a = skip_spaces(s, 0);
    let b = rtrim_pos(s, n);
    if a <= b {
        s.substring_char(a, b).to_owned()
    } else {
        String::new()
    }
}

/// `s` with every backslash that immediately precedes a slash removed.
pub open spec fn spec_unescape_seps(s: Seq<char>) -> Seq<char>
    decreases s.len(),
{
    if s.len() == 0 {
        Seq::empty()
    } else if s.len() >= 2 && s[0] == '\\' && s[1] == '/' {
        seq!['/'] + spec_unescape_seps(s.skip(2))
    } else {
        seq![s[0]] + spec_unescape_seps(s.skip(1))
    }
}

fn unescape_from(s: &str, i: usize) -> (r: String)
    requires
        i <= s@.len(),
    ensures
        r@ == spec_unescape_seps(s@.skip(i as int)),
    decreases s@.len() - i,
{
    let n = s.unicode_len();
    if i >= n {
        proof {
            assert(s@.skip(i as int) =~= Seq::<char>::empty());
        }
        String::new()
    } else if i + 1 < n && s.get_char(i) == '\\' && s.get_char(i + 1) == '/' {
        let rest = unescape_from(s, i + 2);
        proof {
            reveal_strlit("/");
            assert(s@.skip(i as int).skip(2) =~= s@.skip(i as int + 2));
            assert("/"@ + rest@ =~= seq!['/'] + spec_unescape_seps(s@.skip(i as int).skip(2)));
        }
        "/".to_owned().concat(rest.as_str())
    } else {
        let rest = unescape_from(s, i + 1);
        proof {
            assert(s@.skip(i as int).skip(1) =~= s@.skip(i as int + 1));
            assert(s@.subrange(i as int, i as int + 1) =~= seq![s@[i as int]]);
        }
        s.substring_char(i, i + 1).to_owned().concat(rest.as_str())
    }
}

/// Undoes escaped path separators: each `\/` becomes `/`.
pub fn unescape_seps(s: &str) -> (r: String)
    ensures
        r@ == spec_unescape_seps(s@),
{
    proof {
        assert(s@.skip(0) =~= s@);
    }
    unescape_from(s, 0)
}

/// The parts joined with `sep` between neighbours.
pub open spec fn spec_join(parts: Seq<Seq<char>>, sep: Seq<char>) -> Seq<char>
    decreases parts.len(),
{
    if parts.len() == 0 {
        Seq::empty()
    } else if parts.len() == 1 {
        parts[0]
    } else {
        parts[0] + sep + spec_join(parts.drop_first(), sep)
    }
}

fn join_from(parts: &Vec<String>, sep: &str, i: usize) -> (r: String)
    requires
        i <= parts@.len(),
    ensures
        r@ == spec_join(parts.deep_view().skip(i as int), sep@),
    decreases parts@.len() - i,
{
    let n = parts.len();
    if i >= n {
        proof {
            assert(parts.deep_view().skip(i as int) =~= Seq::<Seq<char>>::empty());
        }
        String::new()
    } else if i + 1 == n {
        parts[i].clone()
    } else {
        let rest = join_from(parts, sep, i + 1);
        proof {
            assert(parts.deep_view().skip(i as int).drop_first() =~= parts.deep_view().skip(
                i as int + 1,
            ));
        }
        parts[i].clone().concat(sep).concat(rest.as_str())
    }
}

/// Joins the strings with `sep` between neighbours.
pub fn join_with(parts: &Vec<String>, sep: &str) -> (r: String)
    ensures
        r@ == spec_join(parts.deep_view(), sep@),
{
    proof {
        assert(parts.deep_view().skip(0) =~= parts.deep_view());
    }
    join_from(parts, sep, 0)
}

/// The decimal digit character for `d`.
pub open spec fn spec_digit_char_of(d: int) -> char {
    if d == 0 {
        '0'
    } else if d == 1 {
        '1'
    } else if d == 2 {
        '2'
    } else if d == 3 {
        '3'
    } else if d == 4 {
        '4'
    } else if d == 5 {
        '5'
    } else if d == 6 {
        '6'
    } else if d == 7 {
        '7'
    } else if d == 8 {
        '8'
    } else {
        '9'
    }
}

/// The decimal rendering of `n`, most significant digit first.
pub open spec fn spec_dec_digits(n: int) -> Seq<char>
    decreases n when n >= 0
{
    if n < 10 {
        seq![spec_digit_char_of(n)]
    } else {
        spec_dec_digits(n / 10) + seq![spec_digit_char_of(n % 10)]
    }
}

fn digit_str(d: usize) -> (r: &'static str)
    requires
        d < 10,
    ensures
        r@ == seq![spec_digit_char_of(d as int)],
{
    match d {
        0 => {
            proof {
                reveal_strlit("0");
            }
            "0"
        },
        1 => {
            proof {
                reveal_strlit("1");
            }
            "1"
        },
        2 => {
            proof {
                reveal_strlit("2");
            }
            "2"
        },
        3 => {
            proof {
                reveal_strlit("3");
            }
            "3"
        },
        4 => {
            proof {
                reveal_strlit("4");
            }
            "4"
        },
        5 => {
            proof {
                reveal_strlit("5");
            }
            "5"
        },
        6 => {
            proof {
                reveal_strlit("6");
            }
            "6"
        },
        7 => {
            proof {
                reveal_strlit("7");
            }
            "7"
        },
        8 => {
            proof {
                reveal_strlit("8");
            }
            "8"
        },
        _ => {
            proof {
                reveal_strlit("9");
            }
            "9"
        },
    }
}

/// `s` with every occurrence of the known contamination substring removed,
/// scanning left to right. (The length guard only serves termination: the
/// pattern is twelve characters long.)
pub open spec fn spec_remove_contam(s: Seq<char>) -> Seq<char>
    decreases s.len(),
{
    if s.len() == 0 {
        Seq::empty()
    } else if match_at(s, "randomstring"@, 0) && "randomstring"@.len() >= 1 {
        spec_remove_contam(s.skip("randomstring"@.len() as int))
    } else {
        seq![s[0]] + spec_remove_contam(s.skip(1))
    }
}

fn remove_contam_from(s: &str, i: usize) -> (r: String)
    requires
        i <= s@.len(),
    ensures
        r@ == spec_remove_contam(s@.skip(i as int)),
    decreases s@.len() - i,
{
    let n = s.unicode_len();
    proof {
        reveal_strlit("randomstring");
    }
    if i >= n {
        proof {
            assert(s@.skip(i as int) =~= Seq::<char>::empty());
        }
        String::new()
    } else if match_lit_at(s, "randomstring", i) {
        proof {
            assert(match_at(s@.skip(i as int), "randomstring"@, 0));
            assert(s@.skip(i as int).skip(12) =~= s@.skip(i as int + 12));
        }
        remove_contam_from(s, i + 12)
    } else {
        let rest = remove_contam_from(s, i + 1);
        proof {
            assert(!match_at(s@.skip(i as int), "randomstring"@, 0)) by {
                if match_at(s@.skip(i as int), "randomstring"@, 0) {
                    assert(forall|k: int|
                        0 <= k < 12 ==> s@[i as int + k] == s@.skip(i as int)[k]
                            && s@.skip(i as int)[k] == "randomstring"@[k]);
                }
            }
            assert(s@.skip(i as int).skip(1) =~= s@.skip(i as int + 1));
            assert(s@.subrange(i as int, i as int + 1) =~= seq![s@[i as int]]);
        }
        s.substring_char(i, i + 1).to_owned().concat(rest.as_str())
    }
}

/// Token normalization: drop the contamination substring, then trim spaces.
pub open spec fn spec_clean_token(t: Seq<char>) -> Seq<char> {
    spec_trim(spec_remove_contam(t))
}

/// Normalizes one raw token: contamination removed, then trimmed.
pub fn clean_token(t: &str) -> (r: String)
    ensures
        r@ == spec_clean_token(t@),
{
    proof {
        assert(t@.skip(0) =~= t@);
    }
    let cleaned = remove_contam_from(t, 0);
    trim_str(cleaned.as_str())
}

/// The normalized tokens that survive: cleaned, with empty results discarded,
/// original order kept.
pub open spec fn spec_surviving_tokens(ts: Seq<Seq<char>>) -> Seq<Seq<char>>
    decreases ts.len(),
{
    if ts.len() == 0 {
        Seq::empty()
    } else {
        let c = spec_clean_token(ts[0]);
        let rest = spec_surviving_tokens(ts.drop_first());
        if c.len() > 0 {
            seq![c] + rest
        } else {
            rest
        }
    }
}

/// Every surviving token is non-empty.
pub proof fn lemma_survivors_nonempty(ts: Seq<Seq<char>>)
    ensures
        forall|j: int| 0 <= j < spec_surviving_tokens(ts).len() ==> spec_surviving_tokens(
            ts,
        )[j].len() > 0,
    decreases ts.len(),
{
    if ts.len() > 0 {
        lemma_survivors_nonempty(ts.drop_first());
        let c = spec_clean_token(ts[0]);
        let rest = spec_surviving_tokens(ts.drop_first());
        if c.len() > 0 {
            assert forall|j: int| 0 <= j < spec_surviving_tokens(ts).len() implies
                spec_surviving_tokens(ts)[j].len() > 0 by {
                if j > 0 {
                    assert(spec_surviving_tokens(ts)[j] == rest[j - 1]);
                }
            }
        }
    }
}

/// A join whose first part is non-empty is non-empty.
pub proof fn lemma_join_head_nonempty(parts: Seq<Seq<char>>, sep: Seq<char>)
    requires
        parts.len() > 0,
        parts[0].len() > 0,
    ensures
        spec_join(parts, sep).len() > 0,
{
}

/// The normalized joined form of a raw token array: cleaned survivors joined
/// with `"; "`, original order kept.
pub open spec fn spec_normalize_tokens(ts: Seq<Seq<char>>) -> Seq<char> {
    spec_join(spec_surviving_tokens(ts), "; "@)
}

/// Normalization is a pure function of the raw array alone: equal arrays
/// always normalize to the same joined string, however often it is applied.
pub proof fn lemma_normalize_deterministic(a: Seq<Seq<char>>, b: Seq<Seq<char>>)
    requires
        a == b,
    ensures
        spec_normalize_tokens(a) == spec_normalize_tokens(b),
{
}

fn normalize_from(tokens: &Vec<String>, i: usize) -> (r: String)
    requires
        i <= tokens@.len(),
    ensures
        r@ == spec_join(spec_surviving_tokens(tokens.deep_view().skip(i as int)), "; "@),
    decreases tokens@.len() - i,
{
    let n = tokens.len();
    if i >= n {
        proof {
            assert(tokens.deep_view().skip(i as int) =~= Seq::<Seq<char>>::empty());
        }
        String::new()
    } else {
        let c = clean_token(tokens[i].as_str());
        let rest = normalize_from(tokens, i + 1);
        proof {
            assert(tokens.deep_view().skip(i as int).drop_first() =~= tokens.deep_view().skip(
                i as int + 1,
            ));
            assert(tokens.deep_view().skip(i as int)[0] == tokens@[i as int]@);
        }
        if c.unicode_len() == 0 {
            rest
        } else if rest.unicode_len() == 0 {
            proof {
                let survivors = spec_surviving_tokens(tokens.deep_view().skip(i as int + 1));
                if survivors.len() > 0 {
                    lemma_survivors_nonempty(tokens.deep_view().skip(i as int + 1));
                    lemma_join_head_nonempty(survivors, "; "@);
                }
                assert(spec_surviving_tokens(tokens.deep_view().skip(i as int)) =~= seq![c@]);
            }
            c
        } else {
            proof {
                let survivors = spec_surviving_tokens(tokens.deep_view().skip(i as int + 1));
                assert(survivors.len() > 0);
                assert(spec_surviving_tokens(tokens.deep_view().skip(i as int)) =~= seq![c@]
                    + survivors);
                assert((seq![c@] + survivors)[0] == c@);
                assert((seq![c@] + survivors).drop_first() =~= survivors);
            }
            c.concat("; ").concat(rest.as_str())
        }
    }
}

/// Normalizes a raw token array: each token cleaned, empty results dropped,
/// the survivors joined with `"; "` in their original order.
pub fn normalize_tokens(tokens: &Vec<String>) -> (r: String)
    ensures
        r@ == spec_normalize_tokens(tokens.deep_view()),
{
    proof {
        assert(tokens.deep_view().skip(0) =~= tokens.deep_view());
    }
    normalize_from(tokens, 0)
}

/// Renders `n` in decimal.
pub fn usize_to_string(n: usize) -> (r: String)
    ensures
        r@ == spec_dec_digits(n as int),
    decreases n,
{
    if n < 10 {
        digit_str(n).to_owned()
    } else {
        usize_to_string(n / 10).concat(digit_str(n % 10))
    }
}

} // verus!
