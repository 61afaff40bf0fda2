//! The key parser: bare keys of letters, digits, `_` and `-`, quoted keys
//! in the single-line basic or literal string form, and dotted keys joined
//! by `.`, with whitespace permitted around every part.
use vstd::prelude::*;

use crate::error::ParseError;
use crate::parse::ignored::{skip_spaces, spec_skip_spaces};
use crate::parse::strings::{parse_quoted_key, spec_parse_quoted_key};
use crate::scan::{char_is_alphanumeric, string_from_chars};

verus! {

/// A character a bare key may hold: a Unicode letter or digit, an
/// underscore or a hyphen.
pub open spec fn is_bare_key_char(c: char) -> bool {
    char_is_alphanumeric(c) || c == '_' || c == '-'
}

/// The end of the run of bare-key characters at `pos`.
pub open spec fn spec_bare_end(s: Seq<char>, pos: int) -> int
    decreases s.len() - pos,
{
    if 0 <= pos < s.len() && is_bare_key_char(s[pos]) {
        spec_bare_end(s, pos + 1)
    } else {
        pos
    }
}

/// The bare run stays inside the input.
pub proof fn lemma_bare_end_bounds(s: Seq<char>, pos: int)
    requires
        0 <= pos <= s.len(),
    ensures
        pos <= spec_bare_end(s, pos) <= s.len(),
    decreases s.len() - pos,
{
    if pos < s.len() && is_bare_key_char(s[pos]) {
        lemma_bare_end_bounds(s, pos + 1);
    }
}

/// One key at `pos`: leading whitespace, a quoted or bare key, trailing
/// whitespace.  On success, the key text and the position after the
/// trailing whitespace.
pub open spec fn spec_parse_key(s: Seq<char>, pos: int) -> Option<(Seq<char>, int)> {
    let p = spec_skip_spaces(s, pos);
    if p < s.len() && (s[p] == '"' || s[p] == '\'') {
        match spec_parse_quoted_key(s, p) {
            Some((k, e)) => Some((k, spec_skip_spaces(s, e))),
            None => None,
        }
    } else {
        let e = spec_bare_end(s, p);
        if e > p {
            Some((s.subrange(p, e), spec_skip_spaces(s, e)))
        } else {
            None
        }
    }
}

/// A dotted key at `pos`: one or more keys separated by dots.  On success,
/// the key texts in order and the position after the last key.
pub open spec fn spec_parse_dotted_key(s: Seq<char>, pos: int) -> Option<(Seq<Seq<char>>, int)>
    decreases s.len() - pos,
{
    match spec_parse_key(s, pos) {
        None => None,
        Some((k, p)) => {
            if !(pos < p <= s.len()) {
                None
            } else if p < s.len() && s[p] == '.' {
                match spec_parse_dotted_key(s, p + 1) {
                    Some((rest, e)) => Some((seq![k] + rest, e)),
                    None => None,
                }
            } else {
                Some((seq![k], p))
            }
        },
    }
}

/// The texts of a sequence of keys.
pub open spec fn keys_model(ks: Seq<String>) -> Seq<Seq<char>> {
    Seq::new(ks.len(), |i: int| ks[i]@)
}

/// Parse one key at `pos`.
pub fn parse_key(v: &Vec<char>, pos: usize) -> (r: Result<(String, usize), ParseError>)
    requires
        pos <= v.len(),
    ensures
        match r {
            Ok((k, e)) => spec_parse_key(v@, pos as int) == Some((k@, e as int)) && pos < e
                <= v.len(),
            Err(_) => spec_parse_key(v@, pos as int) is None,
        },
{
    let p = skip_spaces(v, pos);
    if p < v.len() && (v[p] == '"' || v[p] == '\'') {
        match parse_quoted_key(v, p) {
            Ok((k, e)) => {
                let q = skip_spaces(v, e);
                Ok((k, q))
            },
            Err(e) => Err(e),
        }
    } else {
        let mut e = p;
        while e < v.len() && bare_key_char(v[e])
            invariant
                p <= e <= v.len(),
                spec_bare_end(v@, p as int) == spec_bare_end(v@, e as int),
                forall|k: int| p <= k < e ==> is_bare_key_char(#[trigger] v@[k]),
            decreases v.len() - e,
        {
            e = e + 1;
        }
        if e > p {
            let mut chars: Vec<char> = Vec::new();
            let mut q = p;
            while q < e
                invariant
                    p <= q <= e <= v.len(),
                    chars@ == v@.subrange(p as int, q as int),
                decreases e - q,
            {
                chars.push(v[q]);
                assert(chars@ =~= v@.subrange(p as int, q + 1));
                q = q + 1;
            }
            let k = string_from_chars(&chars);
            let after = skip_spaces(v, e);
            Ok((k, after))
        } else {
            Err(ParseError::new(p, "a key"))
        }
    }
}

/// Maps a parsed tail of keys behind those already read.
pub open spec fn prepend_keys(pre: Seq<Seq<char>>, r: Option<(Seq<Seq<char>>, int)>) -> Option<
    (Seq<Seq<char>>, int),
> {
    match r {
        Some((rest, e)) => Some((pre + rest, e)),
        None => None,
    }
}

/// Parse a dotted key at `pos`: the key segments and the position after
/// the last of them.
pub fn parse_dotted_key(v: &Vec<char>, pos: usize) -> (r: Result<(Vec<String>, usize), ParseError>)
    requires
        pos <= v.len(),
    ensures
        match r {
            Ok((ks, e)) => spec_parse_dotted_key(v@, pos as int) == Some(
                (keys_model(ks@), e as int),
            ) && pos < e <= v.len() && ks@.len() >= 1,
            Err(_) => spec_parse_dotted_key(v@, pos as int) is None,
        },
{
    let mut acc: Vec<String> = Vec::new();
    let mut p = pos;
    loop
        invariant
            pos <= p <= v.len(),
            acc@.len() == 0 ==> p == pos,
            acc@.len() >= 1 ==> pos < p,
            spec_parse_dotted_key(v@, pos as int) == prepend_keys(
                keys_model(acc@),
                spec_parse_dotted_key(v@, p as int),
            ),
        decreases v.len() - p,
    {
        let (k, np) = match parse_key(v, p) {
            Ok(ke) => ke,
            Err(e) => {
                return Err(e);
            },
        };
        let ghost oldacc = acc@;
        if np < v.len() && v[np] == '.' {
            acc.push(k);
            proof {
                assert(keys_model(acc@) =~= keys_model(oldacc).push(k@));
                lemma_prepend_shift(keys_model(oldacc), k@, spec_parse_dotted_key(v@, np + 1));
            }
            p = np + 1;
        } else {
            acc.push(k);
            proof {
                assert(keys_model(acc@) =~= keys_model(oldacc).push(k@));
                assert(keys_model(oldacc) + seq![k@] =~= keys_model(acc@));
            }
            return Ok((acc, np));
        }
    }
}

/// Pushing one more read key onto the prefix commutes with prepending.
proof fn lemma_prepend_shift(pre: Seq<Seq<char>>, k: Seq<char>, r: Option<(Seq<Seq<char>>, int)>)
    ensures
        prepend_keys(pre, match r {
            Some((rest, e)) => Some((seq![k] + rest, e)),
            None => None,
        }) == prepend_keys(pre.push(k), r),
{
    match r {
        Some((rest, e)) => {
            assert(pre + (seq![k] + rest) =~= pre.push(k) + rest);
        },
        None => {},
    }
}

/// Executable bare-key character test.
pub fn bare_key_char(c: char) -> (r: bool)
    ensures
        r == is_bare_key_char(c),
{
    c.is_alphanumeric() || c == '_' || c == '-'
}

} // verus!
