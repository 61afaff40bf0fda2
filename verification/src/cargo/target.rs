//! Target-specific options: dependency sections keyed by a `cfg`
//! expression or target triple.
use vstd::prelude::*;

use crate::cargo::dependency::{deps_match_map, deps_ok_map, Dependencies};
use crate::error::Error;
use crate::scan::str_eq;
use crate::value::{value_model, value_wf, Toml, Value};

verus! {

/// The dependency sections of one target.
#[derive(Debug, Clone)]
pub struct Target {
    /// The dependencies.
    pub dependencies: Option<Dependencies>,
    /// The dev dependencies.
    pub dev_dependencies: Option<Dependencies>,
    /// The build dependencies.
    pub build_dependencies: Option<Dependencies>,
}

/// Whether one named dependency section of a table model is well shaped
/// where present.
pub open spec fn dep_section_ok(m: Map<Seq<char>, Toml>, k: Seq<char>) -> bool {
    m.contains_key(k) ==> (m[k] matches Toml::Table(sub) && deps_ok_map(sub))
}

/// Whether `d` holds the named dependency section of the table model.
pub open spec fn dep_section_matches(
    m: Map<Seq<char>, Toml>,
    k: Seq<char>,
    d: Option<Dependencies>,
) -> bool {
    match d {
        Some(deps) => m.contains_key(k) && (m[k] matches Toml::Table(sub) && deps_match_map(
            sub,
            deps.entries@,
        )),
        None => !m.contains_key(k),
    }
}

/// Whether a parsed value has the shape of a target section.
pub open spec fn target_ok(m: Toml) -> bool {
    match m {
        Toml::Table(t) => {
            &&& dep_section_ok(t, "dependencies"@)
            &&& dep_section_ok(t, "dev-dependencies"@)
            &&& dep_section_ok(t, "build-dependencies"@)
        },
        _ => false,
    }
}

/// Whether `b` holds the target section a parsed value describes.
pub open spec fn target_matches(m: Toml, b: Target) -> bool {
    match m {
        Toml::Table(t) => {
            &&& dep_section_matches(t, "dependencies"@, b.dependencies)
            &&& dep_section_matches(t, "dev-dependencies"@, b.dev_dependencies)
            &&& dep_section_matches(t, "build-dependencies"@, b.build_dependencies)
        },
        _ => false,
    }
}

impl Target {
    /// The dependencies.
    pub fn dependencies(&self) -> (r: Option<&Dependencies>)
        ensures
            match r {
                Some(d) => self.dependencies matches Some(x) && d == &x,
                None => self.dependencies is None,
            },
    {
        match &self.dependencies {
            Some(d) => Some(d),
            None => None,
        }
    }

    /// The dev dependencies.
    pub fn dev_dependencies(&self) -> (r: Option<&Dependencies>)
        ensures
            match r {
                Some(d) => self.dev_dependencies matches Some(x) && d == &x,
                None => self.dev_dependencies is None,
            },
    {
        match &self.dev_dependencies {
            Some(d) => Some(d),
            None => None,
        }
    }

    /// The build dependencies.
    pub fn build_dependencies(&self) -> (r: Option<&Dependencies>)
        ensures
            match r {
                Some(d) => self.build_dependencies matches Some(x) && d == &x,
                None => self.build_dependencies is None,
            },
    {
        match &self.build_dependencies {
            Some(d) => Some(d),
            None => None,
        }
    }

    /// Read a target section out of a parsed value.
    pub fn from_value(value: &Value) -> (r: Result<Target, Error>)
        requires
            value_wf(*value),
        ensures
            match r {
                Ok(b) => target_ok(value@) && target_matches(value@, b),
                Err(e) => !target_ok(value@) && e matches Error::Convert { .. },
            },
    {
        let t = match value {
            Value::Table(t) => t,
            _ => {
                return Err(Error::Convert { from: "a value", to: "a target section" });
            },
        };
        let dependencies = match dep_section(t, "dependencies") {
            Ok(d) => d,
            Err(e) => {
                return Err(e);
            },
        };
        let dev_dependencies = match dep_section(t, "dev-dependencies") {
            Ok(d) => d,
            Err(e) => {
                return Err(e);
            },
        };
        let build_dependencies = match dep_section(t, "build-dependencies") {
            Ok(d) => d,
            Err(e) => {
                return Err(e);
            },
        };
        Ok(Target { dependencies, dev_dependencies, build_dependencies })
    }
}

/// Read one optional named dependency section out of a table.
pub(crate) fn dep_section(t: &crate::table::Table, key: &str) -> (r: Result<
    Option<Dependencies>,
    Error,
>)
    requires
        crate::value::table_wf(*t),
    ensures
        match r {
            Ok(d) => dep_section_ok(t@, key@) && dep_section_matches(t@, key@, d),
            Err(e) => !dep_section_ok(t@, key@) && e matches Error::Convert { .. },
        },
{
    match t.get(key) {
        None => Ok(None),
        Some(v) => {
            match Dependencies::from_value(v) {
                Ok(d) => Ok(Some(d)),
                Err(e) => Err(e),
            }
        },
    }
}

/// The target sections, keyed by `cfg` expression or triple, in
/// lexicographic key order.
#[derive(Debug, Clone)]
pub struct Targets {
    /// The targets, by key.
    pub entries: Vec<(String, Target)>,
}

/// Whether every target of the table model is well shaped.
pub open spec fn targets_ok_map(m: Map<Seq<char>, Toml>) -> bool {
    forall|k: Seq<char>| #[trigger] m.contains_key(k) ==> target_ok(m[k])
}

/// Whether every value of the table is a well-shaped target section.
pub open spec fn targets_ok(s: Seq<(String, Value)>) -> bool {
    forall|i: int| 0 <= i < s.len() ==> target_ok(value_model((#[trigger] s[i]).1))
}

/// Whether `out` holds the target section each entry describes, key for
/// key and in order.
pub open spec fn targets_match(s: Seq<(String, Value)>, out: Seq<(String, Target)>) -> bool {
    &&& out.len() == s.len()
    &&& forall|i: int|
        0 <= i < s.len() ==> ((#[trigger] out[i]).0@ == s[i].0@ && target_matches(
            value_model(s[i].1),
            out[i].1,
        ))
}

impl Targets {
    /// Get a target by its key.
    pub fn by_name(&self, name: &str) -> (r: Option<&Target>)
        ensures
            match r {
                Some(d) => exists|i: int|
                    0 <= i < self.entries@.len() && (#[trigger] self.entries@[i]).0@ == name@ && d
                        == &self.entries@[i].1,
                None => forall|i: int|
                    0 <= i < self.entries@.len() ==> (#[trigger] self.entries@[i]).0@ != name@,
            },
    {
        let n = self.entries.len();
        let mut i: usize = 0;
        while i < n
            invariant
                i <= n,
                n == self.entries@.len(),
                forall|k: int| 0 <= k < i ==> (#[trigger] self.entries@[k]).0@ != name@,
            decreases n - i,
        {
            if str_eq(self.entries[i].0.as_str(), name) {
                return Some(&self.entries[i].1);
            }
            i = i + 1;
        }
        None
    }

    /// The target sections, in key order.
    pub fn iter(&self) -> (r: &[(String, Target)])
        ensures
            r@ == self.entries@,
    {
        self.entries.as_slice()
    }

    /// Read the target sections out of a parsed value.
    pub fn from_value(value: &Value) -> (r: Result<Targets, Error>)
        requires
            value_wf(*value),
        ensures
            match r {
                Ok(f) => value matches Value::Table(t) && targets_ok(t.entries@) && targets_match(
                    t.entries@,
                    f.entries@,
                ) && targets_ok_map(t@),
                Err(e) => !(value matches Value::Table(t) && targets_ok_map(t@)) && e
                    matches Error::Convert { .. },
            },
    {
        let t = match value {
            Value::Table(t) => t,
            _ => {
                return Err(Error::Convert { from: "a value", to: "target sections" });
            },
        };
        let n = t.entries.len();
        let mut out: Vec<(String, Target)> = Vec::new();
        let mut i: usize = 0;
        while i < n
            invariant
                i <= n,
                n == t.entries@.len(),
                out@.len() == i,
                value_wf(*value),
                *value == Value::Table(*t),
                forall|k: int|
                    0 <= k < i ==> ((#[trigger] out@[k]).0@ == t.entries@[k].0@ && target_ok(
                        value_model(t.entries@[k].1),
                    ) && target_matches(value_model(t.entries@[k].1), out@[k].1)),
            decreases n - i,
        {
            proof {
                assert(value_wf(Value::Table(*t)));
                assert(crate::value::table_entries_wf(t.entries@));
                assert(value_wf(t.entries@[i as int].1));
            }
            let tar = match Target::from_value(&t.entries[i].1) {
                Ok(d) => d,
                Err(e) => {
                    proof {
                        assert(value_wf(Value::Table(*t)));
                        assert(crate::value::table_entries_wf(t.entries@));
                        crate::table::lemma_sorted_distinct(t.entries@);
                        crate::table::lemma_entries_model(t.entries@);
                        assert(t@.contains_key(t.entries@[i as int].0@));
                        assert(t@[t.entries@[i as int].0@] == value_model(
                            t.entries@[i as int].1,
                        ));
                    }
                    return Err(e);
                },
            };
            let name = t.entries[i].0.clone();
            out.push((name, tar));
            i = i + 1;
        }
        proof {
            assert forall|k: int| 0 <= k < t.entries@.len() implies target_ok(
                value_model((#[trigger] t.entries@[k]).1),
            ) by {
                assert(out@[k].0@ == t.entries@[k].0@);
            }
            assert(value_wf(Value::Table(*t)));
            assert(crate::value::table_entries_wf(t.entries@));
            crate::table::lemma_sorted_distinct(t.entries@);
            crate::table::lemma_entries_model(t.entries@);
            assert forall|k: Seq<char>| #[trigger] t@.contains_key(k) implies target_ok(
                t@[k],
            ) by {
                let j = choose|j: int|
                    0 <= j < t.entries@.len() && (#[trigger] t.entries@[j].0)@ == k;
                assert(t@[t.entries@[j].0@] == value_model(t.entries@[j].1));
            }
        }
        Ok(Targets { entries: out })
    }
}

} // verus!
