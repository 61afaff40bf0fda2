//! The value dispatcher and the recognizers for arrays and inline tables.
//!
//! A value is tried as a string, then a float, an integer, a boolean, an
//! array, an inline table — in that order, so that the overlapping
//! prefixes (a quote, a digit, a sign) resolve by priority.  Arrays and
//! inline tables recurse through the dispatcher under an explicit depth
//! bound, so that adversarially nested input fails quickly instead of
//! exhausting the native stack.
use vstd::prelude::*;

use crate::array::Array;
use crate::error::ParseError;
use crate::parse::ignored::{
    skip_layout, skip_spaces, spec_skip_layout,
    spec_skip_spaces,
};
use crate::parse::keys::{parse_key, spec_parse_key};
use crate::parse::numbers::{
    parse_bool, parse_float, parse_integer, spec_parse_bool, spec_parse_float, spec_parse_integer,
};
use crate::parse::strings::{parse_string, spec_parse_string};
use crate::table::Table;
use crate::value::{
    array_wf, table_wf, value_model, value_wf, Toml, Value,
};

verus! {

/// How deep arrays and inline tables may nest.
pub const MAX_NESTING_DEPTH: u32 = 128;

/// A value at `pos`, surrounded by horizontal whitespace: a string, float,
/// integer, boolean, array or inline table, tried in that order.  `depth`
/// bounds the remaining nesting; at zero nothing parses.
pub open spec fn spec_parse_value(s: Seq<char>, pos: int, depth: int) -> Option<(Toml, int)>
    decreases depth, s.len() - pos, 2int,
{
    if depth <= 0 {
        None
    } else {
        let p = spec_skip_spaces(s, pos);
        if !(pos <= p <= s.len()) {
            None
        } else if p < s.len() && (s[p] == '"' || s[p] == '\'') {
            match spec_parse_string(s, p) {
                Some((c, e)) => Some((Toml::String(c), spec_skip_spaces(s, e))),
                None => None,
            }
        } else {
            match spec_parse_float(s, p) {
                Some((f, e)) => Some((Toml::Float(f), spec_skip_spaces(s, e))),
                None => match spec_parse_integer(s, p) {
                    Some((x, e)) => Some((Toml::Integer(x), spec_skip_spaces(s, e))),
                    None => match spec_parse_bool(s, p) {
                        Some((b, e)) => Some((Toml::Boolean(b), spec_skip_spaces(s, e))),
                        None => {
                            if p < s.len() && s[p] == '[' {
                                match spec_array_body(s, p + 1, depth) {
                                    Some((items, e)) => Some(
                                        (Toml::Array(items), spec_skip_spaces(s, e)),
                                    ),
                                    None => None,
                                }
                            } else if p < s.len() && s[p] == '{' {
                                match spec_inline_body(s, p + 1, depth) {
                                    Some((m, e)) => Some((Toml::Table(m), spec_skip_spaces(s, e))),
                                    None => None,
                                }
                            } else {
                                None
                            }
                        },
                    },
                },
            }
        }
    }
}

/// The body of an array, from right after its `[`: layout, then either the
/// closing bracket or the elements.
pub open spec fn spec_array_body(s: Seq<char>, pos: int, depth: int) -> Option<(Seq<Toml>, int)>
    decreases depth, s.len() - pos, 1int,
{
    match spec_skip_layout(s, pos) {
        None => None,
        Some(p) => {
            if !(pos <= p <= s.len()) {
                None
            } else if p < s.len() && s[p] == ']' {
                Some((Seq::empty(), p + 1))
            } else {
                spec_array_items(s, p, depth)
            }
        },
    }
}

/// The elements of an array from `pos` on: a value, then either a comma
/// and more elements (a trailing comma permitted), or layout and the
/// closing bracket.
pub open spec fn spec_array_items(s: Seq<char>, pos: int, depth: int) -> Option<(Seq<Toml>, int)>
    decreases depth, s.len() - pos, 0int,
{
    if depth <= 0 {
        None
    } else {
        match spec_parse_value(s, pos, depth - 1) {
        None => None,
        Some((val, np)) => {
            if !(pos < np <= s.len()) {
                None
            } else if np < s.len() && s[np] == ',' {
                match spec_skip_layout(s, np + 1) {
                    None => None,
                    Some(p2) => {
                        if !(np + 1 <= p2 <= s.len()) {
                            None
                        } else if p2 < s.len() && s[p2] == ']' {
                            Some((seq![val], p2 + 1))
                        } else {
                            match spec_array_items(s, p2, depth) {
                                Some((rest, e)) => Some((seq![val] + rest, e)),
                                None => None,
                            }
                        }
                    },
                }
            } else {
                match spec_skip_layout(s, np) {
                    None => None,
                    Some(p2) => {
                        if p2 < s.len() && s[p2] == ']' {
                            Some((seq![val], p2 + 1))
                        } else {
                            None
                        }
                    },
                }
            }
        },
        }
    }
}

/// The later of two bindings of one key wins: the map of a pair list.
pub open spec fn pairs_to_map(ps: Seq<(Seq<char>, Toml)>) -> Map<Seq<char>, Toml>
    decreases ps.len(),
{
    if ps.len() == 0 {
        Map::empty()
    } else {
        pairs_to_map(ps.drop_last()).insert(ps.last().0, ps.last().1)
    }
}

/// The body of an inline table, from right after its `{`: single-line, one
/// or more `key = value` pairs separated by commas, or nothing.
pub open spec fn spec_inline_body(s: Seq<char>, pos: int, depth: int) -> Option<
    (Map<Seq<char>, Toml>, int),
>
    decreases depth, s.len() - pos, 1int,
{
    let p = spec_skip_spaces(s, pos);
    if p < s.len() && s[p] == '}' {
        Some((Map::empty(), p + 1))
    } else {
        match spec_inline_items(s, pos, depth) {
            Some((pairs, e)) => Some((pairs_to_map(pairs), e)),
            None => None,
        }
    }
}

/// The pairs of an inline table from `pos` on: `key = value`, then a comma
/// and more pairs, or the closing brace.
pub open spec fn spec_inline_items(s: Seq<char>, pos: int, depth: int) -> Option<
    (Seq<(Seq<char>, Toml)>, int),
>
    decreases depth, s.len() - pos, 0int,
{
    if depth <= 0 {
        None
    } else {
        match spec_parse_key(s, pos) {
        None => None,
        Some((k, p)) => {
            if !(pos < p <= s.len()) {
                None
            } else if p < s.len() && s[p] == '=' {
                match spec_parse_value(s, p + 1, depth - 1) {
                    None => None,
                    Some((val, np)) => {
                        if !(p < np <= s.len()) {
                            None
                        } else if np < s.len() && s[np] == ',' {
                            match spec_inline_items(s, np + 1, depth) {
                                Some((rest, e)) => Some((seq![(k, val)] + rest, e)),
                                None => None,
                            }
                        } else if np < s.len() && s[np] == '}' {
                            Some((seq![(k, val)], np + 1))
                        } else {
                            None
                        }
                    },
                }
            } else {
                None
            }
        },
        }
    }
}

/// Maps a parsed tail of elements behind those already read.
pub open spec fn prepend_items(pre: Seq<Toml>, r: Option<(Seq<Toml>, int)>) -> Option<
    (Seq<Toml>, int),
> {
    match r {
        Some((rest, e)) => Some((pre + rest, e)),
        None => None,
    }
}

/// Maps a parsed tail of pairs behind those already read.
pub open spec fn prepend_pairs(
    pre: Seq<(Seq<char>, Toml)>,
    r: Option<(Seq<(Seq<char>, Toml)>, int)>,
) -> Option<(Seq<(Seq<char>, Toml)>, int)> {
    match r {
        Some((rest, e)) => Some((pre + rest, e)),
        None => None,
    }
}

/// Parse one value at `pos`.
pub fn parse_value(v: &Vec<char>, pos: usize, depth: u32) -> (r: Result<(Value, usize), ParseError>)
    requires
        pos <= v.len(),
    ensures
        match r {
            Ok((val, e)) => spec_parse_value(v@, pos as int, depth as int) == Some(
                (value_model(val), e as int),
            ) && pos < e <= v.len() && value_wf(val),
            Err(_) => spec_parse_value(v@, pos as int, depth as int) is None,
        },
    decreases depth, v.len() - pos, 2int,
{
    if depth == 0 {
        return Err(ParseError::new(pos, "a value within the nesting depth bound"));
    }
    let p = skip_spaces(v, pos);
    if p < v.len() && (v[p] == '"' || v[p] == '\'') {
        match parse_string(v, p) {
            Ok((c, e)) => {
                let q = skip_spaces(v, e);
                Ok((Value::String(c), q))
            },
            Err(e) => Err(e),
        }
    } else {
        match parse_float(v, p) {
            Some((f, e)) => {
                let q = skip_spaces(v, e);
                Ok((Value::Float(f), q))
            },
            None => match parse_integer(v, p) {
                Some((x, e)) => {
                    let q = skip_spaces(v, e);
                    Ok((Value::Integer(x), q))
                },
                None => match parse_bool(v, p) {
                    Some((b, e)) => {
                        let q = skip_spaces(v, e);
                        Ok((Value::Boolean(b), q))
                    },
                    None => {
                        if p < v.len() && v[p] == '[' {
                            match parse_array_body(v, p + 1, depth) {
                                Ok((items, e)) => {
                                    let q = skip_spaces(v, e);
                                    Ok((Value::Array(items), q))
                                },
                                Err(e) => Err(e),
                            }
                        } else if p < v.len() && v[p] == '{' {
                            match parse_inline_body(v, p + 1, depth) {
                                Ok((t, e)) => {
                                    let q = skip_spaces(v, e);
                                    Ok((Value::Table(t), q))
                                },
                                Err(e) => Err(e),
                            }
                        } else {
                            Err(ParseError::new(p, "a value"))
                        }
                    },
                },
            },
        }
    }
}

/// Parse the body of an array, from right after its `[`, up to and
/// including its `]`.
fn parse_array_body(v: &Vec<char>, pos: usize, depth: u32) -> (r: Result<(Array, usize), ParseError>)
    requires
        pos <= v.len(),
        depth >= 1,
    ensures
        match r {
            Ok((arr, e)) => spec_array_body(v@, pos as int, depth as int) == Some(
                (arr@, e as int),
            ) && pos <= e <= v.len() && array_wf(arr),
            Err(_) => spec_array_body(v@, pos as int, depth as int) is None,
        },
    decreases depth, v.len() - pos, 1int,
{
    let p = match skip_layout(v, pos) {
        Ok(p) => p,
        Err(e) => {
            return Err(e);
        },
    };
    if p < v.len() && v[p] == ']' {
        let arr = Array::new();
        proof {
            assert(arr@ =~= Seq::<Toml>::empty());
        }
        return Ok((arr, p + 1));
    }
    parse_array_items(v, p, depth)
}

/// Parse the elements of an array from `pos` on, up to and including the
/// closing `]`.
fn parse_array_items(v: &Vec<char>, pos: usize, depth: u32) -> (r: Result<
    (Array, usize),
    ParseError,
>)
    requires
        pos <= v.len(),
        depth >= 1,
    ensures
        match r {
            Ok((arr, e)) => spec_array_items(v@, pos as int, depth as int) == Some(
                (arr@, e as int),
            ) && pos <= e <= v.len() && array_wf(arr),
            Err(_) => spec_array_items(v@, pos as int, depth as int) is None,
        },
    decreases depth, v.len() - pos, 0int,
{
    let mut arr = Array::new();
    let mut p = pos;
    proof {
        assert(arr@ =~= Seq::<Toml>::empty());
    }
    loop
        invariant
            pos <= p <= v.len(),
            depth >= 1,
            array_wf(arr),
            spec_array_items(v@, pos as int, depth as int) == prepend_items(
                arr@,
                spec_array_items(v@, p as int, depth as int),
            ),
        decreases v.len() - p,
    {
        let (val, np) = match parse_value(v, p, depth - 1) {
            Ok(ve) => ve,
            Err(e) => {
                return Err(e);
            },
        };
        let ghost oldarr = arr@;
        if np < v.len() && v[np] == ',' {
            let p2 = match skip_layout(v, np + 1) {
                Ok(p2) => p2,
                Err(e) => {
                    return Err(e);
                },
            };
            if p2 < v.len() && v[p2] == ']' {
                arr.push(val);
                proof {
                    assert(oldarr + seq![value_model(val)] =~= arr@);
                }
                return Ok((arr, p2 + 1));
            }
            arr.push(val);
            proof {
                lemma_items_shift(
                    oldarr,
                    value_model(val),
                    spec_array_items(v@, p2 as int, depth as int),
                );
                assert(oldarr.push(value_model(val)) =~= arr@);
            }
            p = p2;
        } else {
            let p2 = match skip_layout(v, np) {
                Ok(p2) => p2,
                Err(e) => {
                    return Err(e);
                },
            };
            if p2 < v.len() && v[p2] == ']' {
                arr.push(val);
                proof {
                    assert(oldarr + seq![value_model(val)] =~= arr@);
                }
                return Ok((arr, p2 + 1));
            }
            return Err(ParseError::new(p2, "a comma or a closing bracket"));
        }
    }
}

/// Pushing one more element onto the prefix commutes with prepending.
proof fn lemma_items_shift(pre: Seq<Toml>, x: Toml, r: Option<(Seq<Toml>, int)>)
    ensures
        prepend_items(pre, match r {
            Some((rest, e)) => Some((seq![x] + rest, e)),
            None => None,
        }) == prepend_items(pre.push(x), r),
{
    match r {
        Some((rest, e)) => {
            assert(pre + (seq![x] + rest) =~= pre.push(x) + rest);
        },
        None => {},
    }
}

/// Parse the body of an inline table, from right after its `{`, up to and
/// including its `}`.
fn parse_inline_body(v: &Vec<char>, pos: usize, depth: u32) -> (r: Result<
    (Table, usize),
    ParseError,
>)
    requires
        pos <= v.len(),
        depth >= 1,
    ensures
        match r {
            Ok((t, e)) => spec_inline_body(v@, pos as int, depth as int) == Some(
                (t@, e as int),
            ) && pos <= e <= v.len() && table_wf(t),
            Err(_) => spec_inline_body(v@, pos as int, depth as int) is None,
        },
    decreases depth, v.len() - pos, 1int,
{
    let p = skip_spaces(v, pos);
    if p < v.len() && v[p] == '}' {
        let t = Table::new();
        return Ok((t, p + 1));
    }
    let mut t = Table::new();
    let mut p2 = pos;
    let ghost mut pairs: Seq<(Seq<char>, Toml)> = Seq::empty();
    proof {
        assert(pairs_to_map(pairs) =~= Map::<Seq<char>, Toml>::empty());
    }
    loop
        invariant
            pos <= p2 <= v.len(),
            depth >= 1,
            table_wf(t),
            t@ == pairs_to_map(pairs),
            spec_inline_items(v@, pos as int, depth as int) == prepend_pairs(
                pairs,
                spec_inline_items(v@, p2 as int, depth as int),
            ),
            spec_inline_body(v@, pos as int, depth as int) == (match spec_inline_items(
                v@,
                pos as int,
                depth as int,
            ) {
                Some((ps, e)) => Some((pairs_to_map(ps), e)),
                None => None,
            }),
        decreases v.len() - p2,
    {
        let (k, kp) = match parse_key(v, p2) {
            Ok(ke) => ke,
            Err(e) => {
                return Err(e);
            },
        };
        if !(kp < v.len() && v[kp] == '=') {
            return Err(ParseError::new(kp, "an equals sign"));
        }
        let (val, np) = match parse_value(v, kp + 1, depth - 1) {
            Ok(ve) => ve,
            Err(e) => {
                return Err(e);
            },
        };
        let ghost oldpairs = pairs;
        let ghost kview = k@;
        let ghost vmodel = value_model(val);
        t.insert(k, val);
        proof {
            pairs = oldpairs.push((kview, vmodel));
            assert(pairs.drop_last() =~= oldpairs);
            assert(t@ == pairs_to_map(pairs));
        }
        if np < v.len() && v[np] == ',' {
            proof {
                lemma_pairs_shift(
                    oldpairs,
                    (kview, vmodel),
                    spec_inline_items(v@, np + 1, depth as int),
                );
            }
            p2 = np + 1;
        } else if np < v.len() && v[np] == '}' {
            proof {
                assert(oldpairs + seq![(kview, vmodel)] =~= pairs);
            }
            return Ok((t, np + 1));
        } else {
            return Err(ParseError::new(np, "a comma or a closing brace"));
        }
    }
}

/// Pushing one more pair onto the prefix commutes with prepending.
proof fn lemma_pairs_shift(
    pre: Seq<(Seq<char>, Toml)>,
    x: (Seq<char>, Toml),
    r: Option<(Seq<(Seq<char>, Toml)>, int)>,
)
    ensures
        prepend_pairs(pre, match r {
            Some((rest, e)) => Some((seq![x] + rest, e)),
            None => None,
        }) == prepend_pairs(pre.push(x), r),
{
    match r {
        Some((rest, e)) => {
            assert(pre + (seq![x] + rest) =~= pre.push(x) + rest);
        },
        None => {},
    }
}

} // verus!
