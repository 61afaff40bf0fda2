//! The dev dependencies of a package.
use vstd::prelude::*;

use crate::cargo::dependency::{
    get_string, get_string_list, get_workspace_flag, str_field, str_field_ok,
    string_list_field_ok, strings_match, workspace_field,
};
use crate::error::Error;
use crate::scan::str_eq;
use crate::value::{value_model, value_wf, Toml, Value};

verus! {

/// A dev dependency: a bare version string, or a table of properties.
#[derive(Debug, Clone)]
pub struct DevDependency {
    /// The required version, if one was given.
    pub version: Option<String>,
    /// The features to enable.
    pub features: Option<Vec<String>>,
    /// Whether the dependency inherits from the workspace.
    pub workspace: Option<bool>,
    /// The real package name, where it differs from the key.
    pub package: Option<String>,
}

/// Whether a parsed value has the shape of a dev dependency.
pub open spec fn dev_dep_ok(m: Toml) -> bool {
    match m {
        Toml::String(_) => true,
        Toml::Table(t) => {
            &&& str_field_ok(t, "version"@)
            &&& string_list_field_ok(t, "features"@)
            &&& str_field_ok(t, "package"@)
        },
        _ => false,
    }
}

/// Whether `d` is the dev dependency a parsed value describes.
pub open spec fn dev_dep_matches(m: Toml, d: DevDependency) -> bool {
    match m {
        Toml::String(s) => {
            &&& d.version matches Some(v) && v@ == s
            &&& d.features is None
            &&& d.workspace is None
            &&& d.package is None
        },
        Toml::Table(t) => {
            &&& match d.version {
                Some(v) => str_field(t, "version"@) == Some(v@),
                None => !t.contains_key("version"@),
            }
            &&& match d.features {
                Some(fs) => t.contains_key("features"@) && (t["features"@] matches Toml::Array(
                    items,
                ) && strings_match(items, fs@)),
                None => !t.contains_key("features"@),
            }
            &&& d.workspace == workspace_field(t, "workspace"@)
            &&& match d.package {
                Some(p) => str_field(t, "package"@) == Some(p@),
                None => !t.contains_key("package"@),
            }
        },
        _ => false,
    }
}

impl DevDependency {
    /// The required version.
    pub fn version(&self) -> (r: Option<&str>)
        ensures
            match r {
                Some(s) => self.version matches Some(v) && s@ == v@,
                None => self.version is None,
            },
    {
        match &self.version {
            Some(v) => Some(v.as_str()),
            None => None,
        }
    }

    /// The features of the dependency.
    pub fn features(&self) -> (r: Option<&Vec<String>>)
        ensures
            match r {
                Some(fs) => self.features matches Some(v) && fs == &v,
                None => self.features is None,
            },
    {
        match &self.features {
            Some(fs) => Some(fs),
            None => None,
        }
    }

    /// Whether the dependency inherits from the workspace.
    pub fn workspace(&self) -> (r: Option<bool>)
        ensures
            r == self.workspace,
    {
        self.workspace
    }

    /// The real package name, where it differs from the key.
    pub fn package(&self) -> (r: Option<&str>)
        ensures
            match r {
                Some(s) => self.package matches Some(v) && s@ == v@,
                None => self.package is None,
            },
    {
        match &self.package {
            Some(v) => Some(v.as_str()),
            None => None,
        }
    }

    /// Read a dev dependency out of a parsed value: a bare version
    /// string, or a table of properties.
    pub fn from_value(value: &Value) -> (r: Result<DevDependency, Error>)
        requires
            value_wf(*value),
        ensures
            match r {
                Ok(d) => dev_dep_ok(value@) && dev_dep_matches(value@, d),
                Err(e) => !dev_dep_ok(value@) && e matches Error::Convert { .. },
            },
    {
        match value {
            Value::String(s) => Ok(
                DevDependency {
                    version: Some(s.clone()),
                    features: None,
                    workspace: None,
                    package: None,
                },
            ),
            Value::Table(t) => {
                let version = match get_string(t, "version") {
                    Ok(v) => v,
                    Err(e) => {
                        return Err(e);
                    },
                };
                let features = match get_string_list(t, "features") {
                    Ok(f) => f,
                    Err(e) => {
                        return Err(e);
                    },
                };
                let workspace = get_workspace_flag(t, "workspace");
                let package = match get_string(t, "package") {
                    Ok(p) => p,
                    Err(e) => {
                        return Err(e);
                    },
                };
                Ok(DevDependency { version, features, workspace, package })
            },
            _ => Err(Error::Convert { from: "a value", to: "a dev dependency" }),
        }
    }
}

/// The named dev dependencies of one section, in lexicographic name
/// order.
#[derive(Debug, Clone)]
pub struct DevDependencies {
    /// The dev dependencies, by name.
    pub entries: Vec<(String, DevDependency)>,
}

/// Whether every value of the table has the shape of a dev dependency.
pub open spec fn dev_deps_ok(s: Seq<(String, Value)>) -> bool {
    forall|i: int| 0 <= i < s.len() ==> dev_dep_ok(value_model((#[trigger] s[i]).1))
}

/// Whether `out` holds the dev dependency each entry describes, name for
/// name and in order.
pub open spec fn dev_deps_match(s: Seq<(String, Value)>, out: Seq<(String, DevDependency)>) -> bool {
    &&& out.len() == s.len()
    &&& forall|i: int|
        0 <= i < s.len() ==> ((#[trigger] out[i]).0@ == s[i].0@ && dev_dep_matches(
            value_model(s[i].1),
            out[i].1,
        ))
}

impl DevDependencies {
    /// Get a dev dependency by name.
    pub fn by_name(&self, name: &str) -> (r: Option<&DevDependency>)
        ensures
            match r {
                Some(d) => exists|i: int|
                    0 <= i < self.entries@.len() && (#[trigger] self.entries@[i]).0@ == name@ && d
                        == &self.entries@[i].1,
                None => forall|i: int|
                    0 <= i < self.entries@.len() ==> (#[trigger] self.entries@[i]).0@ != name@,
            },
    {
        let n = self.entries.len();
        let mut i: usize = 0;
        while i < n
            invariant
                i <= n,
                n == self.entries@.len(),
                forall|k: int| 0 <= k < i ==> (#[trigger] self.entries@[k]).0@ != name@,
            decreases n - i,
        {
            if str_eq(self.entries[i].0.as_str(), name) {
                return Some(&self.entries[i].1);
            }
            i = i + 1;
        }
        None
    }

    /// The named dev dependencies, in name order.
    pub fn iter(&self) -> (r: &[(String, DevDependency)])
        ensures
            r@ == self.entries@,
    {
        self.entries.as_slice()
    }

    /// Read a dev-dependencies section out of a parsed value.
    pub fn from_value(value: &Value) -> (r: Result<DevDependencies, Error>)
        requires
            value_wf(*value),
        ensures
            match r {
                Ok(d) => value matches Value::Table(t) && dev_deps_ok(t.entries@)
                    && dev_deps_match(t.entries@, d.entries@),
                Err(e) => !(value matches Value::Table(t) && dev_deps_ok(t.entries@)) && e
                    matches Error::Convert { .. },
            },
    {
        let t = match value {
            Value::Table(t) => t,
            _ => {
                return Err(Error::Convert { from: "a value", to: "dev dependencies" });
            },
        };
        let n = t.entries.len();
        let mut out: Vec<(String, DevDependency)> = Vec::new();
        let mut i: usize = 0;
        while i < n
            invariant
                i <= n,
                n == t.entries@.len(),
                out@.len() == i,
                value_wf(*value),
                *value == Value::Table(*t),
                forall|k: int|
                    0 <= k < i ==> ((#[trigger] out@[k]).0@ == t.entries@[k].0@ && dev_dep_ok(
                        value_model(t.entries@[k].1),
                    ) && dev_dep_matches(value_model(t.entries@[k].1), out@[k].1)),
            decreases n - i,
        {
            proof {
                assert(value_wf(Value::Table(*t)));
                assert(crate::value::table_entries_wf(t.entries@));
                assert(value_wf(t.entries@[i as int].1));
            }
            let d = match DevDependency::from_value(&t.entries[i].1) {
                Ok(d) => d,
                Err(e) => {
                    proof {
                        assert(!dev_dep_ok(value_model(t.entries@[i as int].1)));
                    }
                    return Err(e);
                },
            };
            let name = t.entries[i].0.clone();
            out.push((name, d));
            i = i + 1;
        }
        proof {
            assert forall|k: int| 0 <= k < t.entries@.len() implies dev_dep_ok(
                value_model((#[trigger] t.entries@[k]).1),
            ) by {
                assert(out@[k].0@ == t.entries@[k].0@);
            }
        }
        Ok(DevDependencies { entries: out })
    }
}

/// Build dependencies have the same semantics as dev dependencies.
pub type BuildDependencies = DevDependencies;

/// A build dependency.
pub type BuildDependency = DevDependency;

} // verus!
