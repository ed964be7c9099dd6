//! A parser for the flat JSON-like object literals embedded in detail
//! documents: `{"KEY":"value",...}` with string keys and string values.
//! The accepted escapes inside a string are `\"`, `\\` and `\/`; any other
//! construct makes the fragment malformed, which callers treat the same as
//! an absent field. The parser is a character state machine, run once over
//! the fragment.

use vstd::prelude::*;
use vstd::string::*;

use crate::text::{is_space_char, space_char, str_eq};

verus! {

/// Where the state machine stands in the fragment.
#[derive(Clone, Copy, PartialEq, Eq, Structural)]
pub enum ParseMode {
    /// Before the opening brace.
    Start,
    /// Before the first key, where a closing brace still means an empty object.
    WantFirstKey,
    /// Before a key that a comma has announced.
    WantKey,
    /// Inside a key string.
    Key,
    /// Inside a key string, after a backslash.
    KeyEsc,
    /// Between a key and its colon.
    WantColon,
    /// Between a colon and its value.
    WantValue,
    /// Inside a value string.
    Value,
    /// Inside a value string, after a backslash.
    ValueEsc,
    /// After a complete pair, before a comma or the closing brace.
    AfterValue,
    /// After the closing brace: the fragment parsed.
    Done,
    /// The fragment is malformed; this state absorbs everything.
    Fail,
}

/// The whole state of the parse: mode, finished pairs, and the partial
/// key and value being read.
pub struct FlatState {
    pub mode: ParseMode,
    pub pairs: Seq<(Seq<char>, Seq<char>)>,
    pub key: Seq<char>,
    pub val: Seq<char>,
}

/// The views of a vector of string pairs.
pub open spec fn pairs_view(ps: Seq<(String, String)>) -> Seq<(Seq<char>, Seq<char>)> {
    ps.map_values(|p: (String, String)| (p.0@, p.1@))
}

/// The state machine's move on one character.
pub open spec fn spec_flat_step(st: FlatState, c: char) -> FlatState {
    match st.mode {
        ParseMode::Start => if c == '{' {
            FlatState { mode: ParseMode::WantFirstKey, ..st }
        } else {
            FlatState { mode: ParseMode::Fail, ..st }
        },
        ParseMode::WantFirstKey => if is_space_char(c) {
            st
        } else if c == '"' {
            FlatState { mode: ParseMode::Key, key: Seq::empty(), ..st }
        } else if c == '}' {
            FlatState { mode: ParseMode::Done, ..st }
        } else {
            FlatState { mode: ParseMode::Fail, ..st }
        },
        ParseMode::WantKey => if is_space_char(c) {
            st
        } else if c == '"' {
            FlatState { mode: ParseMode::Key, key: Seq::empty(), ..st }
        } else {
            FlatState { mode: ParseMode::Fail, ..st }
        },
        ParseMode::Key => if c == '"' {
            FlatState { mode: ParseMode::WantColon, ..st }
        } else if c == '\\' {
            FlatState { mode: ParseMode::KeyEsc, ..st }
        } else {
            FlatState { key: st.key.push(c), ..st }
        },
        ParseMode::KeyEsc => if c == '"' || c == '\\' || c == '/' {
            FlatState { mode: ParseMode::Key, key: st.key.push(c), ..st }
        } else {
            FlatState { mode: ParseMode::Fail, ..st }
        },
        ParseMode::WantColon => if is_space_char(c) {
            st
        } else if c == ':' {
            FlatState { mode: ParseMode::WantValue, ..st }
        } else {
            FlatState { mode: ParseMode::Fail, ..st }
        },
        ParseMode::WantValue => if is_space_char(c) {
            st
        } else if c == '"' {
            FlatState { mode: ParseMode::Value, val: Seq::empty(), ..st }
        } else {
            FlatState { mode: ParseMode::Fail, ..st }
        },
        ParseMode::Value => if c == '"' {
            FlatState {
                mode: ParseMode::AfterValue,
                pairs: st.pairs.push((st.key, st.val)),
                key: Seq::empty(),
                val: Seq::empty(),
            }
        } else if c == '\\' {
            FlatState { mode: ParseMode::ValueEsc, ..st }
        } else {
            FlatState { val: st.val.push(c), ..st }
        },
        ParseMode::ValueEsc => if c == '"' || c == '\\' || c == '/' {
            FlatState { mode: ParseMode::Value, val: st.val.push(c), ..st }
        } else {
            FlatState { mode: ParseMode::Fail, ..st }
        },
        ParseMode::AfterValue => if is_space_char(c) {
            st
        } else if c == ',' {
            FlatState { mode: ParseMode::WantKey, ..st }
        } else if c == '}' {
            FlatState { mode: ParseMode::Done, ..st }
        } else {
            FlatState { mode: ParseMode::Fail, ..st }
        },
        ParseMode::Done => FlatState { mode: ParseMode::Fail, ..st },
        ParseMode::Fail => st,
    }
}

/// Runs the machine over `text` from position `i`.
pub open spec fn spec_flat_run(text: Seq<char>, i: int, st: FlatState) -> FlatState
    decreases text.len() - i when 0 <= i <= text.len()
{
    if i >= text.len() {
        st
    } else {
        spec_flat_run(text, i + 1, spec_flat_step(st, text[i]))
    }
}

/// The state every parse starts in.
pub open spec fn spec_flat_init() -> FlatState {
    FlatState { mode: ParseMode::Start, pairs: Seq::empty(), key: Seq::empty(), val: Seq::empty() }
}

/// The flat key-to-string mapping a fragment denotes, or `None` where the
/// fragment is malformed.
pub open spec fn spec_parse_flat(fragment: Seq<char>) -> Option<Seq<(Seq<char>, Seq<char>)>> {
    let fin = spec_flat_run(fragment, 0, spec_flat_init());
    if fin.mode is Done {
        Some(fin.pairs)
    } else {
        None
    }
}

fn flat_run(
    fragment: &str,
    i: usize,
    mode: ParseMode,
    pairs: Vec<(String, String)>,
    key: String,
    val: String,
) -> (r: (ParseMode, Vec<(String, String)>))
    requires
        i <= fragment@.len(),
    ensures
        ({
            let fin = spec_flat_run(
                fragment@,
                i as int,
                FlatState { mode, pairs: pairs_view(pairs@), key: key@, val: val@ },
            );
            r.0 == fin.mode && pairs_view(r.1@) == fin.pairs
        }),
    decreases fragment@.len() - i,
{
    let n = fragment.unicode_len();
    if i >= n {
        return (mode, pairs);
    }
    let c = fragment.get_char(i);
    let ghost st = FlatState { mode, pairs: pairs_view(pairs@), key: key@, val: val@ };
    proof {
        assert(spec_flat_run(fragment@, i as int, st) == spec_flat_run(
            fragment@,
            i as int + 1,
            spec_flat_step(st, fragment@[i as int]),
        ));
    }
    match mode {
        ParseMode::Start => {
            let m2 = if c == '{' {
                ParseMode::WantFirstKey
            } else {
                ParseMode::Fail
            };
            flat_run(fragment, i + 1, m2, pairs, key, val)
        },
        ParseMode::WantFirstKey => {
            if space_char(c) {
                flat_run(fragment, i + 1, mode, pairs, key, val)
            } else if c == '"' {
                flat_run(fragment, i + 1, ParseMode::Key, pairs, String::new(), val)
            } else if c == '}' {
                flat_run(fragment, i + 1, ParseMode::Done, pairs, key, val)
            } else {
                flat_run(fragment, i + 1, ParseMode::Fail, pairs, key, val)
            }
        },
        ParseMode::WantKey => {
            if space_char(c) {
                flat_run(fragment, i + 1, mode, pairs, key, val)
            } else if c == '"' {
                flat_run(fragment, i + 1, ParseMode::Key, pairs, String::new(), val)
            } else {
                flat_run(fragment, i + 1, ParseMode::Fail, pairs, key, val)
            }
        },
        ParseMode::Key => {
            if c == '"' {
                flat_run(fragment, i + 1, ParseMode::WantColon, pairs, key, val)
            } else if c == '\\' {
                flat_run(fragment, i + 1, ParseMode::KeyEsc, pairs, key, val)
            } else {
                let key2 = key.concat(fragment.substring_char(i, i + 1));
                proof {
                    assert(key2@ =~= st.key.push(fragment@[i as int]));
                }
                flat_run(fragment, i + 1, ParseMode::Key, pairs, key2, val)
            }
        },
        ParseMode::KeyEsc => {
            if c == '"' || c == '\\' || c == '/' {
                let key2 = key.concat(fragment.substring_char(i, i + 1));
                proof {
                    assert(key2@ =~= st.key.push(fragment@[i as int]));
                }
                flat_run(fragment, i + 1, ParseMode::Key, pairs, key2, val)
            } else {
                flat_run(fragment, i + 1, ParseMode::Fail, pairs, key, val)
            }
        },
        ParseMode::WantColon => {
            if space_char(c) {
                flat_run(fragment, i + 1, mode, pairs, key, val)
            } else if c == ':' {
                flat_run(fragment, i + 1, ParseMode::WantValue, pairs, key, val)
            } else {
                flat_run(fragment, i + 1, ParseMode::Fail, pairs, key, val)
            }
        },
        ParseMode::WantValue => {
            if space_char(c) {
                flat_run(fragment, i + 1, mode, pairs, key, val)
            } else if c == '"' {
                flat_run(fragment, i + 1, ParseMode::Value, pairs, key, String::new())
            } else {
                flat_run(fragment, i + 1, ParseMode::Fail, pairs, key, val)
            }
        },
        ParseMode::Value => {
            if c == '"' {
                let mut pairs2 = pairs;
                pairs2.push((key, val));
                proof {
                    assert(pairs_view(pairs2@) =~= st.pairs.push((st.key, st.val)));
                }
                flat_run(fragment, i + 1, ParseMode::AfterValue, pairs2, String::new(), String::new())
            } else if c == '\\' {
                flat_run(fragment, i + 1, ParseMode::ValueEsc, pairs, key, val)
            } else {
                let val2 = val.concat(fragment.substring_char(i, i + 1));
                proof {
                    assert(val2@ =~= st.val.push(fragment@[i as int]));
                }
                flat_run(fragment, i + 1, ParseMode::Value, pairs, key, val2)
            }
        },
        ParseMode::ValueEsc => {
            if c == '"' || c == '\\' || c == '/' {
                let val2 = val.concat(fragment.substring_char(i, i + 1));
                proof {
                    assert(val2@ =~= st.val.push(fragment@[i as int]));
                }
                flat_run(fragment, i + 1, ParseMode::Value, pairs, key, val2)
            } else {
                flat_run(fragment, i + 1, ParseMode::Fail, pairs, key, val)
            }
        },
        ParseMode::AfterValue => {
            if space_char(c) {
                flat_run(fragment, i + 1, mode, pairs, key, val)
            } else if c == ',' {
                flat_run(fragment, i + 1, ParseMode::WantKey, pairs, key, val)
            } else if c == '}' {
                flat_run(fragment, i + 1, ParseMode::Done, pairs, key, val)
            } else {
                flat_run(fragment, i + 1, ParseMode::Fail, pairs, key, val)
            }
        },
        ParseMode::Done => flat_run(fragment, i + 1, ParseMode::Fail, pairs, key, val),
        ParseMode::Fail => flat_run(fragment, i + 1, ParseMode::Fail, pairs, key, val),
    }
}

/// Parses a flat `{"key":"value",...}` fragment into its pairs, in source
/// order; `None` where the fragment is malformed.
pub fn parse_flat_map(fragment: &str) -> (r: Option<Vec<(String, String)>>)
    ensures
        match r {
            Some(ps) => spec_parse_flat(fragment@) == Some(pairs_view(ps@)),
            None => spec_parse_flat(fragment@) is None,
        },
{
    let empty_pairs: Vec<(String, String)> = Vec::new();
    proof {
        assert(pairs_view(empty_pairs@) =~= Seq::<(Seq<char>, Seq<char>)>::empty());
    }
    let (mode, pairs) = flat_run(
        fragment,
        0,
        ParseMode::Start,
        empty_pairs,
        String::new(),
        String::new(),
    );
    if mode == ParseMode::Done {
        Some(pairs)
    } else {
        None
    }
}

/// The value of the last pair carrying `key`, scanning the pairs in order:
/// a later duplicate key shadows an earlier one.
pub open spec fn spec_lookup(pairs: Seq<(Seq<char>, Seq<char>)>, key: Seq<char>) -> Option<
    Seq<char>,
>
    decreases pairs.len(),
{
    if pairs.len() == 0 {
        None
    } else if pairs.last().0 == key {
        Some(pairs.last().1)
    } else {
        spec_lookup(pairs.drop_last(), key)
    }
}

fn lookup_upto(pairs: &Vec<(String, String)>, e: usize, key: &str) -> (r: Option<String>)
    requires
        e <= pairs@.len(),
    ensures
        match r {
            Some(v) => spec_lookup(pairs_view(pairs@).take(e as int), key@) == Some(v@),
            None => spec_lookup(pairs_view(pairs@).take(e as int), key@) is None,
        },
    decreases e,
{
    if e == 0 {
        None
    } else if str_eq(pairs[e - 1].0.as_str(), key) {
        proof {
            assert(pairs_view(pairs@).take(e as int).last() == (pairs@[e - 1].0@, pairs@[e - 1].1@));
        }
        Some(pairs[e - 1].1.clone())
    } else {
        proof {
            assert(pairs_view(pairs@).take(e as int).last() == (pairs@[e - 1].0@, pairs@[e - 1].1@));
            assert(pairs_view(pairs@).take(e as int).drop_last() =~= pairs_view(pairs@).take(
                e as int - 1,
            ));
        }
        lookup_upto(pairs, e - 1, key)
    }
}

/// Looks `key` up among the pairs; a later duplicate shadows an earlier one.
pub fn lookup(pairs: &Vec<(String, String)>, key: &str) -> (r: Option<String>)
    ensures
        match r {
            Some(v) => spec_lookup(pairs_view(pairs@), key@) == Some(v@),
            None => spec_lookup(pairs_view(pairs@), key@) is None,
        },
{
    proof {
        assert(pairs_view(pairs@).take(pairs@.len() as int) =~= pairs_view(pairs@));
    }
    lookup_upto(pairs, pairs.len(), key)
}

} // verus!
