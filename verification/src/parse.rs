//! The parsing engine: the document assembler that folds table headers,
//! key-value lines and layout into one nested table, on top of the
//! grammar-level recognizers in the submodules.
//!
//! The assembler keeps an explicit current-table path.  A table header
//! replaces the path without creating anything (creation is deferred to
//! the next insertion); an array-of-tables header locates or creates an
//! array at its path and appends a fresh table to it; a key-value line
//! inserts under the current path, creating intermediate tables on demand.
//! Re-using a segment that already holds a non-table value, or binding a
//! key that already exists, is a redefinition error: nothing is silently
//! overwritten, and a failed parse returns no partial tree.
use vstd::prelude::*;

pub mod ignored;
pub mod keys;
pub mod numbers;
pub mod strings;
pub mod values;

use crate::error::{Error, ParseError};
use crate::parse::ignored::{skip_layout, spec_skip_layout};
use crate::parse::keys::{keys_model, parse_dotted_key, spec_parse_dotted_key};
use crate::parse::values::{parse_value, spec_parse_value, MAX_NESTING_DEPTH};
use crate::scan::chars_vec;
use crate::table::Table;
use crate::value::{
    array_model, lemma_array_model, lemma_array_model_update, table_wf, value_model, value_wf,
    Toml, Value,
};

verus! {

/// A table header at `pos`: a dotted key between `[[` and `]]` (the
/// array-of-tables form) or between `[` and `]`.
pub open spec fn spec_parse_header(s: Seq<char>, pos: int) -> Option<((Seq<Seq<char>>, bool), int)> {
    if pos + 1 < s.len() && s[pos] == '[' && s[pos + 1] == '[' {
        match spec_parse_dotted_key(s, pos + 2) {
            Some((ks, p)) => {
                if p < s.len() && p + 1 < s.len() && s[p] == ']' && s[p + 1] == ']' {
                    Some(((ks, true), p + 2))
                } else {
                    None
                }
            },
            None => None,
        }
    } else if pos < s.len() && s[pos] == '[' {
        match spec_parse_dotted_key(s, pos + 1) {
            Some((ks, p)) => {
                if p < s.len() && s[p] == ']' {
                    Some(((ks, false), p + 1))
                } else {
                    None
                }
            },
            None => None,
        }
    } else {
        None
    }
}

/// A key-value line at `pos`: a dotted key, an equals sign, and one value.
pub open spec fn spec_parse_kv(s: Seq<char>, pos: int) -> Option<((Seq<Seq<char>>, Toml), int)> {
    match spec_parse_dotted_key(s, pos) {
        Some((ks, p)) => {
            if p < s.len() && s[p] == '=' {
                match spec_parse_value(s, p + 1, MAX_NESTING_DEPTH as int) {
                    Some((val, np)) => Some(((ks, val), np)),
                    None => None,
                }
            } else {
                None
            }
        },
        None => None,
    }
}

/// Insertion of a value under a dotted key path, from segment `i` on:
/// intermediate tables are created on demand, an existing table is
/// descended into, an array of tables is descended into its most recently
/// appended table, and anything else — including a key that already exists
/// at the final segment — is a redefinition, which yields nothing.
pub open spec fn spec_insert_nested(
    m: Map<Seq<char>, Toml>,
    keys: Seq<Seq<char>>,
    i: int,
    val: Toml,
) -> Option<Map<Seq<char>, Toml>>
    decreases keys.len() - i,
{
    if !(0 <= i < keys.len()) {
        None
    } else {
        let k = keys[i];
        if i == keys.len() - 1 {
            if m.contains_key(k) {
                None
            } else {
                Some(m.insert(k, val))
            }
        } else {
            if !m.contains_key(k) {
                match spec_insert_nested(Map::empty(), keys, i + 1, val) {
                    Some(sub) => Some(m.insert(k, Toml::Table(sub))),
                    None => None,
                }
            } else {
                match m[k] {
                    Toml::Table(sub) => match spec_insert_nested(sub, keys, i + 1, val) {
                        Some(sub2) => Some(m.insert(k, Toml::Table(sub2))),
                        None => None,
                    },
                    Toml::Array(items) => {
                        if items.len() > 0 {
                            match items.last() {
                                Toml::Table(sub) => match spec_insert_nested(
                                    sub,
                                    keys,
                                    i + 1,
                                    val,
                                ) {
                                    Some(sub2) => Some(
                                        m.insert(
                                            k,
                                            Toml::Array(
                                                items.update(
                                                    items.len() - 1,
                                                    Toml::Table(sub2),
                                                ),
                                            ),
                                        ),
                                    ),
                                    None => None,
                                },
                                _ => None,
                            }
                        } else {
                            None
                        }
                    },
                    _ => None,
                }
            }
        }
    }
}

/// The effect of an array-of-tables header: walk the path like an
/// insertion, and at the final segment locate or create an array and
/// append a fresh empty table to it.
pub open spec fn spec_apply_array_header(
    m: Map<Seq<char>, Toml>,
    keys: Seq<Seq<char>>,
    i: int,
) -> Option<Map<Seq<char>, Toml>>
    decreases keys.len() - i,
{
    if !(0 <= i < keys.len()) {
        None
    } else {
        let k = keys[i];
        if i == keys.len() - 1 {
            if !m.contains_key(k) {
                Some(
                    m.insert(
                        k,
                        Toml::Array(seq![Toml::Table(Map::<Seq<char>, Toml>::empty())]),
                    ),
                )
            } else {
                match m[k] {
                    Toml::Array(items) => Some(
                        m.insert(
                            k,
                            Toml::Array(items.push(Toml::Table(Map::<Seq<char>, Toml>::empty()))),
                        ),
                    ),
                    _ => None,
                }
            }
        } else {
            if !m.contains_key(k) {
                match spec_apply_array_header(Map::empty(), keys, i + 1) {
                    Some(sub) => Some(m.insert(k, Toml::Table(sub))),
                    None => None,
                }
            } else {
                match m[k] {
                    Toml::Table(sub) => match spec_apply_array_header(sub, keys, i + 1) {
                        Some(sub2) => Some(m.insert(k, Toml::Table(sub2))),
                        None => None,
                    },
                    Toml::Array(items) => {
                        if items.len() > 0 {
                            match items.last() {
                                Toml::Table(sub) => match spec_apply_array_header(
                                    sub,
                                    keys,
                                    i + 1,
                                ) {
                                    Some(sub2) => Some(
                                        m.insert(
                                            k,
                                            Toml::Array(
                                                items.update(
                                                    items.len() - 1,
                                                    Toml::Table(sub2),
                                                ),
                                            ),
                                        ),
                                    ),
                                    None => None,
                                },
                                _ => None,
                            }
                        } else {
                            None
                        }
                    },
                    _ => None,
                }
            }
        }
    }
}

/// One pass of the assembler from `pos`: skip layout, stop at the end of
/// the input, or fold the next header or key-value line into the state.
pub open spec fn spec_doc_step(
    s: Seq<char>,
    pos: int,
    current: Seq<Seq<char>>,
    m: Map<Seq<char>, Toml>,
) -> Option<Map<Seq<char>, Toml>>
    decreases s.len() - pos,
{
    match spec_skip_layout(s, pos) {
        None => None,
        Some(p) => {
            if !(pos <= p <= s.len()) {
                None
            } else if p == s.len() {
                Some(m)
            } else {
                match spec_parse_header(s, p) {
                    Some(((ks, is_array), np)) => {
                        if !(p < np <= s.len()) {
                            None
                        } else if is_array {
                            match spec_apply_array_header(m, ks, 0) {
                                Some(m2) => spec_doc_step(s, np, ks, m2),
                                None => None,
                            }
                        } else {
                            spec_doc_step(s, np, ks, m)
                        }
                    },
                    None => match spec_parse_kv(s, p) {
                        Some(((ks, val), np)) => {
                            if !(p < np <= s.len()) {
                                None
                            } else {
                                match spec_insert_nested(m, current + ks, 0, val) {
                                    Some(m2) => spec_doc_step(s, np, current, m2),
                                    None => None,
                                }
                            }
                        },
                        None => None,
                    },
                }
            }
        },
    }
}

/// The whole document: the assembler run from the start with an empty
/// current path and an empty root table.
pub open spec fn spec_parse_document(s: Seq<char>) -> Option<Map<Seq<char>, Toml>> {
    spec_doc_step(s, 0, Seq::empty(), Map::empty())
}

/// Inserts a value into a nested table under a dotted key path, from
/// segment `i` on.  Returns whether the insertion was legal; a
/// redefinition inserts nothing.
fn insert_nested_key(t: &mut Table, keys: &Vec<String>, i: usize, val: Value) -> (ok: bool)
    requires
        table_wf(*old(t)),
        value_wf(val),
        i < keys@.len(),
    ensures
        ok ==> table_wf(*final (t)) && spec_insert_nested(
            old(t)@,
            keys_model(keys@),
            i as int,
            value_model(val),
        ) == Some(final (t)@),
        !ok ==> spec_insert_nested(old(t)@, keys_model(keys@), i as int, value_model(val))
            is None,
    decreases keys@.len() - i,
{
    let ghost km = keys_model(keys@);
    proof {
        assert(km[i as int] == keys@[i as int]@);
    }
    if i == keys.len() - 1 {
        if t.get(keys[i].as_str()).is_some() {
            return false;
        }
        let key = keys[i].clone();
        t.insert(key, val);
        true
    } else {
        match t.take(keys[i].as_str()) {
            None => {
                let mut sub = Table::new();
                if !insert_nested_key(&mut sub, keys, i + 1, val) {
                    return false;
                }
                let key = keys[i].clone();
                t.insert(key, Value::Table(sub));
                proof {
                    assert(final (t)@ =~= old(t)@.insert(
                        km[i as int],
                        Toml::Table(
                            spec_insert_nested(
                                Map::empty(),
                                km,
                                i as int + 1,
                                value_model(val),
                            )->Some_0,
                        ),
                    ));
                }
                true
            },
            Some(Value::Table(mut sub)) => {
                if !insert_nested_key(&mut sub, keys, i + 1, val) {
                    return false;
                }
                let key = keys[i].clone();
                t.insert(key, Value::Table(sub));
                proof {
                    assert(final (t)@ =~= old(t)@.insert(
                        km[i as int],
                        Toml::Table(
                            spec_insert_nested(
                                old(t)@[km[i as int]]->Table_0,
                                km,
                                i as int + 1,
                                value_model(val),
                            )->Some_0,
                        ),
                    ));
                }
                true
            },
            Some(Value::Array(mut arr)) => {
                let ghost olditems = arr.items@;
                proof {
                    lemma_array_model(olditems);
                }
                match arr.items.pop() {
                    Some(Value::Table(mut sub)) => {
                        proof {
                            assert(value_wf(olditems.last()));
                        }
                        if !insert_nested_key(&mut sub, keys, i + 1, val) {
                            return false;
                        }
                        arr.items.push(Value::Table(sub));
                        proof {
                            assert(arr.items@ =~= olditems.update(
                                olditems.len() - 1,
                                Value::Table(sub),
                            ));
                            crate::value::lemma_array_model_update(
                                olditems,
                                olditems.len() - 1,
                                Value::Table(sub),
                            );
                            assert forall|j: int|
                                0 <= j < arr.items@.len() implies value_wf(
                                #[trigger] arr.items@[j],
                            ) by {
                                if j < olditems.len() - 1 {
                                    assert(arr.items@[j] == olditems[j]);
                                } else {
                                    assert(arr.items@[j] == Value::Table(sub));
                                }
                            }
                        }
                        let key = keys[i].clone();
                        t.insert(key, Value::Array(arr));
                        proof {
                            assert(final (t)@ =~= old(t)@.insert(
                                km[i as int],
                                Toml::Array(
                                    array_model(olditems).update(
                                        array_model(olditems).len() - 1,
                                        Toml::Table(
                                            spec_insert_nested(
                                                array_model(olditems).last()->Table_0,
                                                km,
                                                i as int + 1,
                                                value_model(val),
                                            )->Some_0,
                                        ),
                                    ),
                                ),
                            ));
                        }
                        true
                    },
                    Some(_) => false,
                    None => false,
                }
            },
            Some(_) => false,
        }
    }
}

/// The effect of an array-of-tables header on the root: locate or create
/// an array at the path and append a fresh empty table.  Returns whether
/// that was legal.
fn apply_array_header(t: &mut Table, keys: &Vec<String>, i: usize) -> (ok: bool)
    requires
        table_wf(*old(t)),
        i < keys@.len(),
    ensures
        ok ==> table_wf(*final (t)) && spec_apply_array_header(old(t)@, keys_model(keys@), i as int)
            == Some(final (t)@),
        !ok ==> spec_apply_array_header(old(t)@, keys_model(keys@), i as int) is None,
    decreases keys@.len() - i,
{
    let ghost km = keys_model(keys@);
    proof {
        assert(km[i as int] == keys@[i as int]@);
    }
    if i == keys.len() - 1 {
        match t.take(keys[i].as_str()) {
            None => {
                let mut arr = crate::array::Array::new();
                arr.push(Value::Table(Table::new()));
                let key = keys[i].clone();
                proof {
                    assert(arr@ =~= seq![Toml::Table(Map::<Seq<char>, Toml>::empty())]);
                }
                t.insert(key, Value::Array(arr));
                proof {
                    assert(final (t)@ =~= old(t)@.insert(
                        km[i as int],
                        Toml::Array(seq![Toml::Table(Map::<Seq<char>, Toml>::empty())]),
                    ));
                }
                true
            },
            Some(Value::Array(mut arr)) => {
                let ghost olditems = arr.items@;
                arr.push(Value::Table(Table::new()));
                let key = keys[i].clone();
                t.insert(key, Value::Array(arr));
                proof {
                    assert(final (t)@ =~= old(t)@.insert(
                        km[i as int],
                        Toml::Array(
                            array_model(olditems).push(
                                Toml::Table(Map::<Seq<char>, Toml>::empty()),
                            ),
                        ),
                    ));
                }
                true
            },
            Some(_) => false,
        }
    } else {
        match t.take(keys[i].as_str()) {
            None => {
                let mut sub = Table::new();
                if !apply_array_header(&mut sub, keys, i + 1) {
                    return false;
                }
                let key = keys[i].clone();
                t.insert(key, Value::Table(sub));
                proof {
                    assert(final (t)@ =~= old(t)@.insert(
                        km[i as int],
                        Toml::Table(spec_apply_array_header(Map::empty(), km, i as int + 1)->Some_0),
                    ));
                }
                true
            },
            Some(Value::Table(mut sub)) => {
                if !apply_array_header(&mut sub, keys, i + 1) {
                    return false;
                }
                let key = keys[i].clone();
                t.insert(key, Value::Table(sub));
                proof {
                    assert(final (t)@ =~= old(t)@.insert(
                        km[i as int],
                        Toml::Table(
                            spec_apply_array_header(
                                old(t)@[km[i as int]]->Table_0,
                                km,
                                i as int + 1,
                            )->Some_0,
                        ),
                    ));
                }
                true
            },
            Some(Value::Array(mut arr)) => {
                let ghost olditems = arr.items@;
                proof {
                    lemma_array_model(olditems);
                }
                match arr.items.pop() {
                    Some(Value::Table(mut sub)) => {
                        proof {
                            assert(value_wf(olditems.last()));
                        }
                        if !apply_array_header(&mut sub, keys, i + 1) {
                            return false;
                        }
                        arr.items.push(Value::Table(sub));
                        proof {
                            assert(arr.items@ =~= olditems.update(
                                olditems.len() - 1,
                                Value::Table(sub),
                            ));
                            crate::value::lemma_array_model_update(
                                olditems,
                                olditems.len() - 1,
                                Value::Table(sub),
                            );
                            assert forall|j: int|
                                0 <= j < arr.items@.len() implies value_wf(
                                #[trigger] arr.items@[j],
                            ) by {
                                if j < olditems.len() - 1 {
                                    assert(arr.items@[j] == olditems[j]);
                                } else {
                                    assert(arr.items@[j] == Value::Table(sub));
                                }
                            }
                        }
                        let key = keys[i].clone();
                        t.insert(key, Value::Array(arr));
                        proof {
                            assert(final (t)@ =~= old(t)@.insert(
                                km[i as int],
                                Toml::Array(
                                    array_model(olditems).update(
                                        array_model(olditems).len() - 1,
                                        Toml::Table(
                                            spec_apply_array_header(
                                                array_model(olditems).last()->Table_0,
                                                km,
                                                i as int + 1,
                                            )->Some_0,
                                        ),
                                    ),
                                ),
                            ));
                        }
                        true
                    },
                    Some(_) => false,
                    None => false,
                }
            },
            Some(_) => false,
        }
    }
}

/// Parse a table header at `pos`.
fn parse_header(v: &Vec<char>, pos: usize) -> (r: Result<(Vec<String>, bool, usize), ParseError>)
    requires
        pos <= v.len(),
    ensures
        match r {
            Ok((ks, is_array, np)) => spec_parse_header(v@, pos as int) == Some(
                ((keys_model(ks@), is_array), np as int),
            ) && pos < np <= v.len() && ks@.len() >= 1,
            Err(_) => spec_parse_header(v@, pos as int) is None,
        },
{
    if pos < v.len() && pos + 1 < v.len() && v[pos] == '[' && v[pos + 1] == '[' {
        let (ks, p) = match parse_dotted_key(v, pos + 2) {
            Ok(kp) => kp,
            Err(e) => {
                return Err(e);
            },
        };
        if p < v.len() && p + 1 < v.len() && v[p] == ']' && v[p + 1] == ']' {
            Ok((ks, true, p + 2))
        } else {
            Err(ParseError::new(p, "a double closing bracket"))
        }
    } else if pos < v.len() && v[pos] == '[' {
        let (ks, p) = match parse_dotted_key(v, pos + 1) {
            Ok(kp) => kp,
            Err(e) => {
                return Err(e);
            },
        };
        if p < v.len() && v[p] == ']' {
            Ok((ks, false, p + 1))
        } else {
            Err(ParseError::new(p, "a closing bracket"))
        }
    } else {
        Err(ParseError::new(pos, "a table header"))
    }
}

/// Parse a key-value line at `pos`.
fn parse_kv(v: &Vec<char>, pos: usize) -> (r: Result<(Vec<String>, Value, usize), ParseError>)
    requires
        pos <= v.len(),
    ensures
        match r {
            Ok((ks, val, np)) => spec_parse_kv(v@, pos as int) == Some(
                ((keys_model(ks@), value_model(val)), np as int),
            ) && pos < np <= v.len() && ks@.len() >= 1 && value_wf(val),
            Err(_) => spec_parse_kv(v@, pos as int) is None,
        },
{
    let (ks, p) = match parse_dotted_key(v, pos) {
        Ok(kp) => kp,
        Err(e) => {
            return Err(e);
        },
    };
    if !(p < v.len() && v[p] == '=') {
        return Err(ParseError::new(p, "an equals sign"));
    }
    let (val, np) = match parse_value(v, p + 1, MAX_NESTING_DEPTH) {
        Ok(ve) => ve,
        Err(e) => {
            return Err(e);
        },
    };
    Ok((ks, val, np))
}

/// Parse a TOML document into its root table.
///
/// The resulting table is well formed: every table anywhere in the tree
/// keeps its entries sorted by key, so iteration order is lexicographic
/// and independent of the order keys appeared in the source text.  Any
/// malformed input, and any duplicate key or table redefinition, yields a
/// parse error and no partial tree.
pub fn parse(input: &str) -> (r: Result<Table, Error>)
    ensures
        match r {
            Ok(t) => table_wf(t) && spec_parse_document(input@) == Some(t@),
            Err(e) => spec_parse_document(input@) is None && e matches Error::Parse(_),
        },
{
    let v = chars_vec(input);
    let mut root = Table::new();
    let mut current: Vec<String> = Vec::new();
    let mut pos: usize = 0;
    proof {
        assert(keys_model(current@) =~= Seq::<Seq<char>>::empty());
        assert(root@ =~= Map::<Seq<char>, Toml>::empty());
    }
    loop
        invariant
            pos <= v.len(),
            v@ == input@,
            table_wf(root),
            spec_doc_step(v@, pos as int, keys_model(current@), root@) == spec_parse_document(
                input@,
            ),
        decreases v.len() - pos,
    {
        let p = match skip_layout(&v, pos) {
            Ok(p) => p,
            Err(e) => {
                return Err(Error::Parse(e));
            },
        };
        if p == v.len() {
            return Ok(root);
        }
        match parse_header(&v, p) {
            Ok((ks, is_array, np)) => {
                if is_array {
                    if !apply_array_header(&mut root, &ks, 0) {
                        return Err(
                            Error::Parse(ParseError::new(p, "an array of tables, not a redefinition")),
                        );
                    }
                }
                current = ks;
                pos = np;
            },
            Err(_) => {
                match parse_kv(&v, p) {
                    Ok((ks, val, np)) => {
                        let mut full: Vec<String> = Vec::new();
                        let mut ci: usize = 0;
                        while ci < current.len()
                            invariant
                                ci <= current@.len(),
                                full@ =~= current@.subrange(0, ci as int),
                            decreases current@.len() - ci,
                        {
                            full.push(current[ci].clone());
                            assert(full@ =~= current@.subrange(0, ci + 1));
                            ci = ci + 1;
                        }
                        let mut ki: usize = 0;
                        while ki < ks.len()
                            invariant
                                ki <= ks@.len(),
                                full@ =~= current@ + ks@.subrange(0, ki as int),
                            decreases ks@.len() - ki,
                        {
                            full.push(ks[ki].clone());
                            assert(full@ =~= current@ + ks@.subrange(0, ki + 1));
                            ki = ki + 1;
                        }
                        proof {
                            assert(full@ =~= current@ + ks@);
                            assert(keys_model(full@) =~= keys_model(current@) + keys_model(ks@));
                        }
                        if !insert_nested_key(&mut root, &full, 0, val) {
                            return Err(
                                Error::Parse(ParseError::new(p, "a key that is not a redefinition")),
                            );
                        }
                        pos = np;
                    },
                    Err(e) => {
                        return Err(Error::Parse(e));
                    },
                }
            },
        }
    }
}

} // verus!
