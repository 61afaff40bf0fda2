//! An example target section.
use vstd::prelude::*;

use crate::cargo::dependency::{
    bool_field_strict_ok, get_bool_strict, get_string, get_string_list, str_field, str_field_ok,
    string_list_field_ok, strings_match,
};
use crate::cargo::library::{get_library_types, library_types_match, library_types_ok, LibraryType};
use crate::error::Error;
use crate::value::{value_wf, Toml, Value};

verus! {

/// An example target.
#[derive(Debug, Clone)]
pub struct Example {
    /// The name of the example.
    pub name: String,
    /// The path to its source, if one was given.
    pub path: Option<String>,
    /// Whether `cargo test` covers it by default.
    pub test: Option<bool>,
    /// Whether `cargo bench` covers it by default.
    pub bench: Option<bool>,
    /// Whether `cargo doc` documents it by default.
    pub doc: Option<bool>,
    /// Whether it is its own test harness.
    pub harness: Option<bool>,
    /// The Rust edition it requires.
    pub edition: Option<String>,
    /// The features it requires.
    pub required_features: Option<Vec<String>>,
    /// The crate types to build.
    pub library_type: Option<Vec<LibraryType>>,
}

/// Whether a parsed value has the shape of a example target: a table with
/// a string `name` and correctly typed optional fields.
pub open spec fn example_ok(m: Toml) -> bool {
    match m {
        Toml::Table(t) => {
            &&& t.contains_key("name"@) && t["name"@] is String
            &&& str_field_ok(t, "path"@)
            &&& bool_field_strict_ok(t, "test"@)
            &&& bool_field_strict_ok(t, "bench"@)
            &&& bool_field_strict_ok(t, "doc"@)
            &&& bool_field_strict_ok(t, "harness"@)
            &&& str_field_ok(t, "edition"@)
            &&& string_list_field_ok(t, "required-features"@)
            &&& (t.contains_key("crate-type"@) ==> (t["crate-type"@] matches Toml::Array(items)
                && library_types_ok(items)))
        },
        _ => false,
    }
}

/// Whether `b` is the example target a parsed value describes.
pub open spec fn example_matches(m: Toml, b: Example) -> bool {
    match m {
        Toml::Table(t) => {
            &&& str_field(t, "name"@) == Some(b.name@)
            &&& match b.path {
                Some(p) => str_field(t, "path"@) == Some(p@),
                None => !t.contains_key("path"@),
            }
            &&& match b.test {
                Some(x) => t.contains_key("test"@) && t["test"@] == Toml::Boolean(x),
                None => !t.contains_key("test"@),
            }
            &&& match b.bench {
                Some(x) => t.contains_key("bench"@) && t["bench"@] == Toml::Boolean(x),
                None => !t.contains_key("bench"@),
            }
            &&& match b.doc {
                Some(x) => t.contains_key("doc"@) && t["doc"@] == Toml::Boolean(x),
                None => !t.contains_key("doc"@),
            }
            &&& match b.harness {
                Some(x) => t.contains_key("harness"@) && t["harness"@] == Toml::Boolean(x),
                None => !t.contains_key("harness"@),
            }
            &&& match b.edition {
                Some(p) => str_field(t, "edition"@) == Some(p@),
                None => !t.contains_key("edition"@),
            }
            &&& match b.required_features {
                Some(fs) => t.contains_key("required-features"@) && (t["required-features"@]
                    matches Toml::Array(items) && strings_match(items, fs@)),
                None => !t.contains_key("required-features"@),
            }
            &&& match b.library_type {
                Some(ts) => t.contains_key("crate-type"@) && (t["crate-type"@]
                    matches Toml::Array(items) && library_types_match(items, ts@)),
                None => !t.contains_key("crate-type"@),
            }
        },
        _ => false,
    }
}

impl Example {
    /// The name of the example.
    pub fn name(&self) -> (r: &str)
        ensures
            r@ == self.name@,
    {
        self.name.as_str()
    }

    /// The path to the source of the example.
    pub fn path(&self) -> (r: Option<&str>)
        ensures
            match r {
                Some(s) => self.path matches Some(v) && s@ == v@,
                None => self.path is None,
            },
    {
        match &self.path {
            Some(v) => Some(v.as_str()),
            None => None,
        }
    }

    /// Whether `cargo test` covers the example by default.
    pub fn test(&self) -> (r: Option<bool>)
        ensures
            r == self.test,
    {
        self.test
    }

    /// Whether `cargo bench` covers the example by default.
    pub fn bench(&self) -> (r: Option<bool>)
        ensures
            r == self.bench,
    {
        self.bench
    }

    /// Whether `cargo doc` documents the example by default.
    pub fn doc(&self) -> (r: Option<bool>)
        ensures
            r == self.doc,
    {
        self.doc
    }

    /// Whether the example is its own test harness.
    pub fn harness(&self) -> (r: Option<bool>)
        ensures
            r == self.harness,
    {
        self.harness
    }

    /// The Rust edition the example requires.
    pub fn edition(&self) -> (r: Option<&str>)
        ensures
            match r {
                Some(s) => self.edition matches Some(v) && s@ == v@,
                None => self.edition is None,
            },
    {
        match &self.edition {
            Some(v) => Some(v.as_str()),
            None => None,
        }
    }

    /// The features the example requires.
    pub fn required_features(&self) -> (r: Option<&Vec<String>>)
        ensures
            match r {
                Some(fs) => self.required_features matches Some(v) && fs == &v,
                None => self.required_features is None,
            },
    {
        match &self.required_features {
            Some(fs) => Some(fs),
            None => None,
        }
    }

    /// The crate types of the example.
    pub fn library_type(&self) -> (r: Option<&Vec<LibraryType>>)
        ensures
            match r {
                Some(ts) => self.library_type matches Some(v) && ts == &v,
                None => self.library_type is None,
            },
    {
        match &self.library_type {
            Some(ts) => Some(ts),
            None => None,
        }
    }

    /// Read an example target out of a parsed value.
    pub fn from_value(value: &Value) -> (r: Result<Example, Error>)
        requires
            value_wf(*value),
        ensures
            match r {
                Ok(b) => example_ok(value@) && example_matches(value@, b),
                Err(e) => !example_ok(value@) && e matches Error::Convert { .. },
            },
    {
        let t = match value {
            Value::Table(t) => t,
            _ => {
                return Err(Error::Convert { from: "a value", to: "a example target" });
            },
        };
        let name = match get_string(t, "name") {
            Ok(Some(n)) => n,
            Ok(None) => {
                return Err(Error::Convert { from: "a table without a name", to: "a example target" });
            },
            Err(e) => {
                return Err(e);
            },
        };
        let path = match get_string(t, "path") {
            Ok(p) => p,
            Err(e) => {
                return Err(e);
            },
        };
        let test = match get_bool_strict(t, "test") {
            Ok(x) => x,
            Err(e) => {
                return Err(e);
            },
        };
        let bench = match get_bool_strict(t, "bench") {
            Ok(x) => x,
            Err(e) => {
                return Err(e);
            },
        };
        let doc = match get_bool_strict(t, "doc") {
            Ok(x) => x,
            Err(e) => {
                return Err(e);
            },
        };
        let harness = match get_bool_strict(t, "harness") {
            Ok(x) => x,
            Err(e) => {
                return Err(e);
            },
        };
        let edition = match get_string(t, "edition") {
            Ok(p) => p,
            Err(e) => {
                return Err(e);
            },
        };
        let required_features = match get_string_list(t, "required-features") {
            Ok(f) => f,
            Err(e) => {
                return Err(e);
            },
        };
        let library_type = match get_library_types(t, "crate-type") {
            Ok(x) => x,
            Err(e) => {
                return Err(e);
            },
        };
        Ok(
            Example {
                name,
                path,
                test,
                bench,
                doc,
                harness,
                edition,
                required_features,
                library_type,
            },
        )
    }
}

} // verus!
