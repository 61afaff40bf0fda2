//! The library target section.
use vstd::prelude::*;

use crate::cargo::dependency::{
    bool_field_strict_ok, get_bool_strict, get_string, str_field, str_field_ok, };
use crate::error::Error;
use crate::scan::str_eq;
use crate::table::Table;
use crate::value::{table_wf, value_wf, Toml, Value};

verus! {

/// The crate type of a library target.
#[derive(Debug, Clone, Copy, PartialEq, Eq, Structural)]
pub enum LibraryType {
    /// A normal library.
    Lib,
    /// A procedural-macro crate.
    ProcMacro,
    /// An rlib library.
    Rlib,
    /// A dylib library.
    Dylib,
    /// A static library.
    Staticlib,
    /// A cdylib library.
    Cdylib,
}

/// Whether a string names a known crate type.
pub open spec fn library_type_ok(s: Seq<char>) -> bool {
    s == "lib"@ || s == "proc-macro"@ || s == "rlib"@ || s == "dylib"@ || s == "staticlib"@ || s
        == "cdylib"@
}

/// The crate type a string names.
pub open spec fn library_type_of(s: Seq<char>) -> LibraryType {
    if s == "lib"@ {
        LibraryType::Lib
    } else if s == "proc-macro"@ {
        LibraryType::ProcMacro
    } else if s == "rlib"@ {
        LibraryType::Rlib
    } else if s == "dylib"@ {
        LibraryType::Dylib
    } else if s == "staticlib"@ {
        LibraryType::Staticlib
    } else {
        LibraryType::Cdylib
    }
}

impl LibraryType {
    /// Read a crate type out of a parsed value: one of the strings `lib`,
    /// `proc-macro`, `rlib`, `dylib`, `staticlib` or `cdylib`.
    pub fn from_value(value: &Value) -> (r: Result<LibraryType, Error>)
        ensures
            match r {
                Ok(lt) => value@ matches Toml::String(s) && library_type_ok(s) && lt
                    == library_type_of(s),
                Err(e) => !(value@ matches Toml::String(s) && library_type_ok(s)) && e
                    matches Error::Convert { .. },
            },
    {
        match value {
            Value::String(s) => {
                if str_eq(s.as_str(), "lib") {
                    Ok(LibraryType::Lib)
                } else if str_eq(s.as_str(), "proc-macro") {
                    Ok(LibraryType::ProcMacro)
                } else if str_eq(s.as_str(), "rlib") {
                    Ok(LibraryType::Rlib)
                } else if str_eq(s.as_str(), "dylib") {
                    Ok(LibraryType::Dylib)
                } else if str_eq(s.as_str(), "staticlib") {
                    Ok(LibraryType::Staticlib)
                } else if str_eq(s.as_str(), "cdylib") {
                    Ok(LibraryType::Cdylib)
                } else {
                    Err(Error::Convert { from: "a string", to: "a crate type" })
                }
            },
            _ => Err(Error::Convert { from: "a value", to: "a crate type" }),
        }
    }
}

/// Whether every element of an array model names a known crate type.
pub open spec fn library_types_ok(items: Seq<Toml>) -> bool {
    forall|i: int|
        0 <= i < items.len() ==> ((#[trigger] items[i]) matches Toml::String(s)
            && library_type_ok(s))
}

/// Whether `out` holds the crate type each element names, in order.
pub open spec fn library_types_match(items: Seq<Toml>, out: Seq<LibraryType>) -> bool {
    &&& out.len() == items.len()
    &&& forall|i: int|
        0 <= i < items.len() ==> ((#[trigger] items[i]) matches Toml::String(s) && out[i]
            == library_type_of(s))
}

/// Read the optional crate-type list field `k`.
pub(crate) fn get_library_types(t: &Table, key: &str) -> (r: Result<
    Option<Vec<LibraryType>>,
    Error,
>)
    requires
        table_wf(*t),
    ensures
        match r {
            Ok(Some(vs)) => t@.contains_key(key@) && (t@[key@] matches Toml::Array(items)
                && library_types_ok(items) && library_types_match(items, vs@)),
            Ok(None) => !t@.contains_key(key@),
            Err(e) => t@.contains_key(key@) && !(t@[key@] matches Toml::Array(items)
                && library_types_ok(items)) && e matches Error::Convert { .. },
        },
{
    match t.get(key) {
        None => Ok(None),
        Some(v) => match v {
            Value::Array(a) => {
                proof {
                    crate::value::lemma_array_model(a.items@);
                }
                let mut out: Vec<LibraryType> = Vec::new();
                let n = a.items.len();
                let mut i: usize = 0;
                while i < n
                    invariant
                        i <= n,
                        n == a.items@.len(),
                        out@.len() == i,
                        table_wf(*t),
                        t@.contains_key(key@),
                        t@[key@] == Toml::Array(crate::value::array_model(a.items@)),
                        forall|k: int|
                            0 <= k < i ==> ((#[trigger] crate::value::array_model(a.items@)[k])
                                matches Toml::String(s) && library_type_ok(s) && out@[k]
                                == library_type_of(s)),
                        forall|k: int|
                            0 <= k < n ==> crate::value::array_model(a.items@)[k]
                                == crate::value::value_model(#[trigger] a.items@[k]),
                    decreases n - i,
                {
                    match LibraryType::from_value(&a.items[i]) {
                        Ok(lt) => {
                            out.push(lt);
                        },
                        Err(e) => {
                            proof {
                                crate::value::lemma_array_model(a.items@);
                                assert(crate::value::array_model(a.items@)[i as int]
                                    == crate::value::value_model(a.items@[i as int]));
                            }
                            return Err(e);
                        },
                    }
                    i = i + 1;
                }
                Ok(Some(out))
            },
            _ => Err(Error::Convert { from: "a value", to: "a crate type list" }),
        },
    }
}

/// A library target.
#[derive(Debug, Clone)]
pub struct Library {
    /// The name of the library, if one was given.
    pub name: Option<String>,
    /// The path to its source, if one was given.
    pub path: Option<String>,
    /// Whether `cargo test` covers it by default.
    pub test: Option<bool>,
    /// Whether `cargo bench` covers it by default.
    pub bench: Option<bool>,
    /// Whether `cargo doc` documents it by default.
    pub doc: Option<bool>,
    /// Whether its documentation examples are tested by default.
    pub doctest: Option<bool>,
    /// Whether the library is a procedural macro.
    pub proc_macro: Option<bool>,
    /// Whether it is its own test harness.
    pub harness: Option<bool>,
    /// The Rust edition it requires.
    pub edition: Option<String>,
    /// The crate types to build.
    pub library_type: Option<Vec<LibraryType>>,
}

/// Whether a parsed value has the shape of a library target.
pub open spec fn library_ok(m: Toml) -> bool {
    match m {
        Toml::Table(t) => {
            &&& str_field_ok(t, "name"@)
            &&& str_field_ok(t, "path"@)
            &&& bool_field_strict_ok(t, "test"@)
            &&& bool_field_strict_ok(t, "bench"@)
            &&& bool_field_strict_ok(t, "doc"@)
            &&& bool_field_strict_ok(t, "doctest"@)
            &&& bool_field_strict_ok(t, "proc-macro"@)
            &&& bool_field_strict_ok(t, "harness"@)
            &&& str_field_ok(t, "edition"@)
            &&& (t.contains_key("crate-type"@) ==> (t["crate-type"@] matches Toml::Array(items)
                && library_types_ok(items)))
        },
        _ => false,
    }
}

/// Whether `b` is the library target a parsed value describes.
pub open spec fn library_matches(m: Toml, b: Library) -> bool {
    match m {
        Toml::Table(t) => {
            &&& match b.name {
                Some(p) => str_field(t, "name"@) == Some(p@),
                None => !t.contains_key("name"@),
            }
            &&& match b.path {
                Some(p) => str_field(t, "path"@) == Some(p@),
                None => !t.contains_key("path"@),
            }
            &&& match b.test {
                Some(x) => t.contains_key("test"@) && t["test"@] == Toml::Boolean(x),
                None => !t.contains_key("test"@),
            }
            &&& match b.bench {
                Some(x) => t.contains_key("bench"@) && t["bench"@] == Toml::Boolean(x),
                None => !t.contains_key("bench"@),
            }
            &&& match b.doc {
                Some(x) => t.contains_key("doc"@) && t["doc"@] == Toml::Boolean(x),
                None => !t.contains_key("doc"@),
            }
            &&& match b.doctest {
                Some(x) => t.contains_key("doctest"@) && t["doctest"@] == Toml::Boolean(x),
                None => !t.contains_key("doctest"@),
            }
            &&& match b.proc_macro {
                Some(x) => t.contains_key("proc-macro"@) && t["proc-macro"@] == Toml::Boolean(x),
                None => !t.contains_key("proc-macro"@),
            }
            &&& match b.harness {
                Some(x) => t.contains_key("harness"@) && t["harness"@] == Toml::Boolean(x),
                None => !t.contains_key("harness"@),
            }
            &&& match b.edition {
                Some(p) => str_field(t, "edition"@) == Some(p@),
                None => !t.contains_key("edition"@),
            }
            &&& match b.library_type {
                Some(ts) => t.contains_key("crate-type"@) && (t["crate-type"@]
                    matches Toml::Array(items) && library_types_match(items, ts@)),
                None => !t.contains_key("crate-type"@),
            }
        },
        _ => false,
    }
}

impl Library {
    /// The name of the library.
    pub fn name(&self) -> (r: Option<&str>)
        ensures
            match r {
                Some(s) => self.name matches Some(v) && s@ == v@,
                None => self.name is None,
            },
    {
        match &self.name {
            Some(v) => Some(v.as_str()),
            None => None,
        }
    }

    /// The path to the source of the library.
    pub fn path(&self) -> (r: Option<&str>)
        ensures
            match r {
                Some(s) => self.path matches Some(v) && s@ == v@,
                None => self.path is None,
            },
    {
        match &self.path {
            Some(v) => Some(v.as_str()),
            None => None,
        }
    }

    /// Whether `cargo test` covers the library by default.
    pub fn test(&self) -> (r: Option<bool>)
        ensures
            r == self.test,
    {
        self.test
    }

    /// Whether `cargo bench` covers the library by default.
    pub fn bench(&self) -> (r: Option<bool>)
        ensures
            r == self.bench,
    {
        self.bench
    }

    /// Whether `cargo doc` documents the library by default.
    pub fn doc(&self) -> (r: Option<bool>)
        ensures
            r == self.doc,
    {
        self.doc
    }

    /// Whether documentation examples are tested by default.
    pub fn doctest(&self) -> (r: Option<bool>)
        ensures
            r == self.doctest,
    {
        self.doctest
    }

    /// Whether the library is a procedural macro.
    pub fn proc_macro(&self) -> (r: Option<bool>)
        ensures
            r == self.proc_macro,
    {
        self.proc_macro
    }

    /// Whether the library is its own test harness.
    pub fn harness(&self) -> (r: Option<bool>)
        ensures
            r == self.harness,
    {
        self.harness
    }

    /// The Rust edition the library requires.
    pub fn edition(&self) -> (r: Option<&str>)
        ensures
            match r {
                Some(s) => self.edition matches Some(v) && s@ == v@,
                None => self.edition is None,
            },
    {
        match &self.edition {
            Some(v) => Some(v.as_str()),
            None => None,
        }
    }

    /// The crate types of the library.
    pub fn library_type(&self) -> (r: Option<&Vec<LibraryType>>)
        ensures
            match r {
                Some(ts) => self.library_type matches Some(v) && ts == &v,
                None => self.library_type is None,
            },
    {
        match &self.library_type {
            Some(ts) => Some(ts),
            None => None,
        }
    }

    /// Read a library target out of a parsed value.
    pub fn from_value(value: &Value) -> (r: Result<Library, Error>)
        requires
            value_wf(*value),
        ensures
            match r {
                Ok(b) => library_ok(value@) && library_matches(value@, b),
                Err(e) => !library_ok(value@) && e matches Error::Convert { .. },
            },
    {
        let t = match value {
            Value::Table(t) => t,
            _ => {
                return Err(Error::Convert { from: "a value", to: "a library target" });
            },
        };
        let name = match get_string(t, "name") {
            Ok(p) => p,
            Err(e) => {
                return Err(e);
            },
        };
        let path = match get_string(t, "path") {
            Ok(p) => p,
            Err(e) => {
                return Err(e);
            },
        };
        let test = match get_bool_strict(t, "test") {
            Ok(x) => x,
            Err(e) => {
                return Err(e);
            },
        };
        let bench = match get_bool_strict(t, "bench") {
            Ok(x) => x,
            Err(e) => {
                return Err(e);
            },
        };
        let doc = match get_bool_strict(t, "doc") {
            Ok(x) => x,
            Err(e) => {
                return Err(e);
            },
        };
        let doctest = match get_bool_strict(t, "doctest") {
            Ok(x) => x,
            Err(e) => {
                return Err(e);
            },
        };
        let proc_macro = match get_bool_strict(t, "proc-macro") {
            Ok(x) => x,
            Err(e) => {
                return Err(e);
            },
        };
        let harness = match get_bool_strict(t, "harness") {
            Ok(x) => x,
            Err(e) => {
                return Err(e);
            },
        };
        let edition = match get_string(t, "edition") {
            Ok(p) => p,
            Err(e) => {
                return Err(e);
            },
        };
        let library_type = match get_library_types(t, "crate-type") {
            Ok(x) => x,
            Err(e) => {
                return Err(e);
            },
        };
        Ok(
            Library {
                name,
                path,
                test,
                bench,
                doc,
                doctest,
                proc_macro,
                harness,
                edition,
                library_type,
            },
        )
    }
}

} // verus!
