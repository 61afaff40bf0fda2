//! The features section of a package.
use vstd::prelude::*;

use crate::cargo::dependency::{string_array_ok, strings_match};
use crate::error::Error;
use crate::scan::str_eq;
use crate::value::{value_model, value_wf, Toml, Value};

verus! {

/// The features section: each feature name bound to the list of features
/// and optional dependencies it enables, in lexicographic name order.
#[derive(Debug, Clone)]
pub struct Features {
    /// The features, by name.
    pub entries: Vec<(String, Vec<String>)>,
}

/// Whether every value of the table is an array of strings.
pub open spec fn features_ok(s: Seq<(String, Value)>) -> bool {
    forall|i: int|
        0 <= i < s.len() ==> match value_model((#[trigger] s[i]).1) {
            Toml::Array(items) => string_array_ok(items),
            _ => false,
        }
}

/// Whether every feature of the table model is an array of strings.
pub open spec fn features_ok_map(m: Map<Seq<char>, Toml>) -> bool {
    forall|k: Seq<char>| #[trigger]
        m.contains_key(k) ==> match m[k] {
            Toml::Array(items) => string_array_ok(items),
            _ => false,
        }
}

/// Whether `out` holds the string list of each entry, name for name and
/// in order.
pub open spec fn features_match(s: Seq<(String, Value)>, out: Seq<(String, Vec<String>)>) -> bool {
    &&& out.len() == s.len()
    &&& forall|i: int|
        0 <= i < s.len() ==> ((#[trigger] out[i]).0@ == s[i].0@ && (value_model(s[i].1)
            matches Toml::Array(items) && strings_match(items, out[i].1@)))
}

impl Features {
    /// Get the features a name enables.
    pub fn by_name(&self, name: &str) -> (r: Option<&Vec<String>>)
        ensures
            match r {
                Some(fs) => exists|i: int|
                    0 <= i < self.entries@.len() && (#[trigger] self.entries@[i]).0@ == name@ && fs
                        == &self.entries@[i].1,
                None => forall|i: int|
                    0 <= i < self.entries@.len() ==> (#[trigger] self.entries@[i]).0@ != name@,
            },
    {
        let n = self.entries.len();
        let mut i: usize = 0;
        while i < n
            invariant
                i <= n,
                n == self.entries@.len(),
                forall|k: int| 0 <= k < i ==> (#[trigger] self.entries@[k]).0@ != name@,
            decreases n - i,
        {
            if str_eq(self.entries[i].0.as_str(), name) {
                return Some(&self.entries[i].1);
            }
            i = i + 1;
        }
        None
    }

    /// The named features, in name order.
    pub fn iter(&self) -> (r: &[(String, Vec<String>)])
        ensures
            r@ == self.entries@,
    {
        self.entries.as_slice()
    }

    /// Read a features section out of a parsed value: a table whose every
    /// value is an array of strings.
    pub fn from_value(value: &Value) -> (r: Result<Features, Error>)
        requires
            value_wf(*value),
        ensures
            match r {
                Ok(f) => value matches Value::Table(t) && features_ok(t.entries@)
                    && features_match(t.entries@, f.entries@) && features_ok_map(t@),
                Err(e) => !(value matches Value::Table(t) && features_ok_map(t@)) && e
                    matches Error::Convert { .. },
            },
    {
        let t = match value {
            Value::Table(t) => t,
            _ => {
                return Err(Error::Convert { from: "a value", to: "features" });
            },
        };
        let n = t.entries.len();
        let mut out: Vec<(String, Vec<String>)> = Vec::new();
        let mut i: usize = 0;
        while i < n
            invariant
                i <= n,
                n == t.entries@.len(),
                out@.len() == i,
                value_wf(*value),
                *value == Value::Table(*t),
                forall|k: int|
                    0 <= k < i ==> ((#[trigger] out@[k]).0@ == t.entries@[k].0@ && (value_model(
                        t.entries@[k].1,
                    ) matches Toml::Array(items) && string_array_ok(items) && strings_match(
                        items,
                        out@[k].1@,
                    ))),
            decreases n - i,
        {
            let fs = match string_list_of(&t.entries[i].1) {
                Ok(fs) => fs,
                Err(e) => {
                    proof {
                        assert(value_wf(Value::Table(*t)));
                        assert(crate::value::table_entries_wf(t.entries@));
                        crate::table::lemma_sorted_distinct(t.entries@);
                        crate::table::lemma_entries_model(t.entries@);
                        assert(t@.contains_key(t.entries@[i as int].0@));
                        assert(t@[t.entries@[i as int].0@] == value_model(
                            t.entries@[i as int].1,
                        ));
                    }
                    return Err(e);
                },
            };
            let name = t.entries[i].0.clone();
            out.push((name, fs));
            i = i + 1;
        }
        proof {
            assert forall|k: int|
                0 <= k < t.entries@.len() implies (match value_model(
                (#[trigger] t.entries@[k]).1,
            ) {
                Toml::Array(items) => string_array_ok(items),
                _ => false,
            }) by {
                assert(out@[k].0@ == t.entries@[k].0@);
            }
            assert(value_wf(Value::Table(*t)));
            assert(crate::value::table_entries_wf(t.entries@));
            crate::table::lemma_sorted_distinct(t.entries@);
            crate::table::lemma_entries_model(t.entries@);
            assert forall|k: Seq<char>| #[trigger] t@.contains_key(k) implies (match t@[k] {
                Toml::Array(items) => string_array_ok(items),
                _ => false,
            }) by {
                let j = choose|j: int|
                    0 <= j < t.entries@.len() && (#[trigger] t.entries@[j].0)@ == k;
                assert(t@[t.entries@[j].0@] == value_model(t.entries@[j].1));
            }
        }
        Ok(Features { entries: out })
    }
}

/// Read a whole value as an array of strings.
pub(crate) fn string_list_of(value: &Value) -> (r: Result<Vec<String>, Error>)
    ensures
        match r {
            Ok(vs) => value@ matches Toml::Array(items) && strings_match(items, vs@),
            Err(e) => !(value@ matches Toml::Array(items) && string_array_ok(items)) && e
                matches Error::Convert { .. },
        },
{
    match value {
        Value::Array(a) => {
            proof {
                crate::value::lemma_array_model(a.items@);
            }
            let mut out: Vec<String> = Vec::new();
            let n = a.items.len();
            let mut i: usize = 0;
            while i < n
                invariant
                    i <= n,
                    n == a.items@.len(),
                    out@.len() == i,
                    *value == Value::Array(*a),
                    forall|k: int|
                        0 <= k < i ==> crate::value::array_model(a.items@)[k] == Toml::String(
                            (#[trigger] out@[k])@,
                        ),
                    forall|k: int|
                        0 <= k < n ==> crate::value::array_model(a.items@)[k] == value_model(
                            #[trigger] a.items@[k],
                        ),
                decreases n - i,
            {
                match &a.items[i] {
                    Value::String(s) => {
                        out.push(s.clone());
                    },
                    _ => {
                        proof {
                            crate::value::lemma_array_model(a.items@);
                            assert(crate::value::array_model(a.items@)[i as int] == value_model(
                                a.items@[i as int],
                            ));
                            assert(!(crate::value::array_model(a.items@)[i as int] is String));
                        }
                        return Err(Error::Convert { from: "a value", to: "a string list" });
                    },
                }
                i = i + 1;
            }
            Ok(out)
        },
        _ => Err(Error::Convert { from: "a value", to: "a string list" }),
    }
}

} // verus!
