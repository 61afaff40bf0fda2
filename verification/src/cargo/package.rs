//! Package information, most of it inheritable from a workspace.
use vstd::prelude::*;

use crate::cargo::author::{author_fields, Author};
use crate::cargo::dependency::{
    bool_field_strict_ok, get_bool_strict, get_string, str_field, str_field_ok,
    string_array_ok, strings_match,
};
use crate::cargo::resolver_version::{resolver_of, resolver_ok, ResolverVersion};
use crate::cargo::rust_edition::{edition_of, edition_ok, RustEdition};
use crate::error::Error;
use crate::table::Table;
use crate::value::{table_wf, value_wf, Toml, Value};

verus! {

/// A property either given in place or inherited from the parent
/// workspace, the latter written as the sentinel table `{ workspace =
/// true }`.
#[derive(Debug, Clone)]
pub enum WorkspaceInheritable<W> {
    /// The value, given in place.
    Uninherited(W),
    /// Inherit the value from the workspace.
    Inherited,
}

impl<W> WorkspaceInheritable<W> {
    /// The value, if it is given in place.
    pub fn uninherited(self) -> (r: Option<W>)
        ensures
            match r {
                Some(w) => self == WorkspaceInheritable::Uninherited(w),
                None => self is Inherited,
            },
    {
        match self {
            WorkspaceInheritable::Uninherited(w) => Some(w),
            WorkspaceInheritable::Inherited => None,
        }
    }

    /// A reference to the value, if it is given in place.
    pub fn uninherited_ref(&self) -> (r: Option<&W>)
        ensures
            match r {
                Some(w) => self matches WorkspaceInheritable::Uninherited(x) && w == &x,
                None => self is Inherited,
            },
    {
        match self {
            WorkspaceInheritable::Uninherited(w) => Some(w),
            WorkspaceInheritable::Inherited => None,
        }
    }

    /// Whether the value is inherited from the workspace.
    pub fn inherited(&self) -> (r: bool)
        ensures
            r == (self is Inherited),
    {
        match self {
            WorkspaceInheritable::Inherited => true,
            _ => false,
        }
    }
}

/// The sentinel shape that marks a workspace-inherited property: a table
/// holding `workspace = true`.
pub open spec fn wi_sentinel(m: Toml) -> bool {
    m matches Toml::Table(t) && t.contains_key("workspace"@) && t["workspace"@] == Toml::Boolean(
        true,
    )
}

/// Decide whether a value is the workspace-inheritance sentinel; any other
/// table is a conversion error.
fn wi_check(value: &Value) -> (r: Result<bool, Error>)
    requires
        value_wf(*value),
    ensures
        match r {
            Ok(b) => b == wi_sentinel(value@) && (value@ is Table ==> b),
            Err(e) => value@ is Table && !wi_sentinel(value@) && e matches Error::Convert { .. },
        },
{
    match value {
        Value::Table(t) => {
            match t.get("workspace") {
                Some(v) => match v {
                    Value::Boolean(b) => {
                        if *b {
                            Ok(true)
                        } else {
                            Err(Error::Convert { from: "a table", to: "a workspace inheritance" })
                        }
                    },
                    _ => Err(Error::Convert { from: "a table", to: "a workspace inheritance" }),
                },
                None => Err(Error::Convert { from: "a table", to: "a workspace inheritance" }),
            }
        },
        _ => Ok(false),
    }
}

/// Whether a value reads as an inheritable string: the sentinel or a
/// string.
pub open spec fn wi_str_ok(m: Toml) -> bool {
    wi_sentinel(m) || m is String
}

/// Whether `w` is the inheritable string a value describes.
pub open spec fn wi_str_matches(m: Toml, w: WorkspaceInheritable<String>) -> bool {
    match w {
        WorkspaceInheritable::Inherited => wi_sentinel(m),
        WorkspaceInheritable::Uninherited(s) => m == Toml::String(s@),
    }
}

/// Read an inheritable string.
fn wi_string_of(value: &Value) -> (r: Result<WorkspaceInheritable<String>, Error>)
    requires
        value_wf(*value),
    ensures
        match r {
            Ok(w) => wi_str_ok(value@) && wi_str_matches(value@, w),
            Err(e) => !wi_str_ok(value@) && e matches Error::Convert { .. },
        },
{
    match wi_check(value) {
        Ok(true) => Ok(WorkspaceInheritable::Inherited),
        Ok(false) => match value {
            Value::String(s) => Ok(WorkspaceInheritable::Uninherited(s.clone())),
            _ => Err(Error::Convert { from: "a value", to: "an inheritable string" }),
        },
        Err(e) => Err(e),
    }
}

/// Whether a value reads as an inheritable boolean.
pub open spec fn wi_bool_ok(m: Toml) -> bool {
    wi_sentinel(m) || m is Boolean
}

/// Whether `w` is the inheritable boolean a value describes.
pub open spec fn wi_bool_matches(m: Toml, w: WorkspaceInheritable<bool>) -> bool {
    match w {
        WorkspaceInheritable::Inherited => wi_sentinel(m),
        WorkspaceInheritable::Uninherited(b) => m == Toml::Boolean(b),
    }
}

/// Read an inheritable boolean.
fn wi_bool_of(value: &Value) -> (r: Result<WorkspaceInheritable<bool>, Error>)
    requires
        value_wf(*value),
    ensures
        match r {
            Ok(w) => wi_bool_ok(value@) && wi_bool_matches(value@, w),
            Err(e) => !wi_bool_ok(value@) && e matches Error::Convert { .. },
        },
{
    match wi_check(value) {
        Ok(true) => Ok(WorkspaceInheritable::Inherited),
        Ok(false) => match value {
            Value::Boolean(b) => Ok(WorkspaceInheritable::Uninherited(*b)),
            _ => Err(Error::Convert { from: "a value", to: "an inheritable boolean" }),
        },
        Err(e) => Err(e),
    }
}

/// Whether a value reads as an inheritable edition.
pub open spec fn wi_edition_ok(m: Toml) -> bool {
    wi_sentinel(m) || (!(m is Table) && edition_ok(m))
}

/// Whether `w` is the inheritable edition a value describes.
pub open spec fn wi_edition_matches(m: Toml, w: WorkspaceInheritable<RustEdition>) -> bool {
    match w {
        WorkspaceInheritable::Inherited => wi_sentinel(m),
        WorkspaceInheritable::Uninherited(e) => edition_ok(m) && e == edition_of(m),
    }
}

/// Read an inheritable Rust edition.
fn wi_edition_of(value: &Value) -> (r: Result<WorkspaceInheritable<RustEdition>, Error>)
    requires
        value_wf(*value),
    ensures
        match r {
            Ok(w) => wi_edition_ok(value@) && wi_edition_matches(value@, w),
            Err(e) => !wi_edition_ok(value@) && e matches Error::Convert { .. },
        },
{
    match wi_check(value) {
        Ok(true) => Ok(WorkspaceInheritable::Inherited),
        Ok(false) => match RustEdition::from_value(value) {
            Ok(e) => Ok(WorkspaceInheritable::Uninherited(e)),
            Err(e) => Err(e),
        },
        Err(e) => Err(e),
    }
}

/// Whether a value reads as an inheritable string list.
pub open spec fn wi_list_ok(m: Toml) -> bool {
    wi_sentinel(m) || (m matches Toml::Array(items) && string_array_ok(items))
}

/// Whether `w` is the inheritable string list a value describes.
pub open spec fn wi_list_matches(m: Toml, w: WorkspaceInheritable<Vec<String>>) -> bool {
    match w {
        WorkspaceInheritable::Inherited => wi_sentinel(m),
        WorkspaceInheritable::Uninherited(vs) => m matches Toml::Array(items) && strings_match(
            items,
            vs@,
        ),
    }
}

/// Read an inheritable string list.
fn wi_list_of(value: &Value) -> (r: Result<WorkspaceInheritable<Vec<String>>, Error>)
    requires
        value_wf(*value),
    ensures
        match r {
            Ok(w) => wi_list_ok(value@) && wi_list_matches(value@, w),
            Err(e) => !wi_list_ok(value@) && e matches Error::Convert { .. },
        },
{
    match wi_check(value) {
        Ok(true) => Ok(WorkspaceInheritable::Inherited),
        Ok(false) => match crate::cargo::features::string_list_of(value) {
            Ok(vs) => Ok(WorkspaceInheritable::Uninherited(vs)),
            Err(e) => Err(e),
        },
        Err(e) => Err(e),
    }
}

/// Whether every element of an array model is an author string.
pub open spec fn authors_ok(items: Seq<Toml>) -> bool {
    forall|i: int| 0 <= i < items.len() ==> (#[trigger] items[i]) is String
}

/// Whether `out` holds the author each string describes, in order.
pub open spec fn authors_match(items: Seq<Toml>, out: Seq<Author>) -> bool {
    &&& out.len() == items.len()
    &&& forall|i: int|
        0 <= i < items.len() ==> ((#[trigger] items[i]) matches Toml::String(s) && {
            let (n, e) = author_fields(s);
            &&& out[i].name@ == n
            &&& match out[i].email {
                Some(em) => e matches Some(es) && em@ == es,
                None => e is None,
            }
        })
}

/// Whether a value reads as an inheritable author list.
pub open spec fn wi_authors_ok(m: Toml) -> bool {
    wi_sentinel(m) || (m matches Toml::Array(items) && authors_ok(items))
}

/// Whether `w` is the inheritable author list a value describes.
pub open spec fn wi_authors_matches(m: Toml, w: WorkspaceInheritable<Vec<Author>>) -> bool {
    match w {
        WorkspaceInheritable::Inherited => wi_sentinel(m),
        WorkspaceInheritable::Uninherited(aus) => m matches Toml::Array(items) && authors_match(
            items,
            aus@,
        ),
    }
}

/// Read a whole value as a list of authors.
pub(crate) fn authors_of(value: &Value) -> (r: Result<Vec<Author>, Error>)
    ensures
        match r {
            Ok(aus) => value@ matches Toml::Array(items) && authors_ok(items) && authors_match(
                items,
                aus@,
            ),
            Err(e) => !(value@ matches Toml::Array(items) && authors_ok(items)) && e
                matches Error::Convert { .. },
        },
{
    match value {
        Value::Array(a) => {
            proof {
                crate::value::lemma_array_model(a.items@);
            }
            let mut out: Vec<Author> = Vec::new();
            let n = a.items.len();
            let mut i: usize = 0;
            while i < n
                invariant
                    i <= n,
                    n == a.items@.len(),
                    out@.len() == i,
                    *value == Value::Array(*a),
                    forall|k: int|
                        0 <= k < i ==> ((#[trigger] crate::value::array_model(a.items@)[k])
                            matches Toml::String(s) && {
                            let (nm, em) = author_fields(s);
                            &&& out@[k].name@ == nm
                            &&& match out@[k].email {
                                Some(x) => em matches Some(es) && x@ == es,
                                None => em is None,
                            }
                        }),
                    forall|k: int|
                        0 <= k < n ==> crate::value::array_model(a.items@)[k]
                            == crate::value::value_model(#[trigger] a.items@[k]),
                decreases n - i,
            {
                match Author::from_value(&a.items[i]) {
                    Ok(au) => {
                        out.push(au);
                    },
                    Err(e) => {
                        proof {
                            crate::value::lemma_array_model(a.items@);
                            assert(crate::value::array_model(a.items@)[i as int]
                                == crate::value::value_model(a.items@[i as int]));
                        }
                        return Err(e);
                    },
                }
                i = i + 1;
            }
            Ok(out)
        },
        _ => Err(Error::Convert { from: "a value", to: "a list of authors" }),
    }
}

/// Read an inheritable author list.
fn wi_authors_of(value: &Value) -> (r: Result<WorkspaceInheritable<Vec<Author>>, Error>)
    requires
        value_wf(*value),
    ensures
        match r {
            Ok(w) => wi_authors_ok(value@) && wi_authors_matches(value@, w),
            Err(e) => !wi_authors_ok(value@) && e matches Error::Convert { .. },
        },
{
    match wi_check(value) {
        Ok(true) => Ok(WorkspaceInheritable::Inherited),
        Ok(false) => match authors_of(value) {
            Ok(aus) => Ok(WorkspaceInheritable::Uninherited(aus)),
            Err(e) => Err(e),
        },
        Err(e) => Err(e),
    }
}

/// Read an optional inheritable string field.
fn field_wi_string(t: &Table, key: &str) -> (r: Result<Option<WorkspaceInheritable<String>>, Error>)
    requires
        table_wf(*t),
    ensures
        match r {
            Ok(Some(w)) => t@.contains_key(key@) && wi_str_ok(t@[key@]) && wi_str_matches(
                t@[key@],
                w,
            ),
            Ok(None) => !t@.contains_key(key@),
            Err(e) => t@.contains_key(key@) && !wi_str_ok(t@[key@]) && e matches Error::Convert {
                ..
            },
        },
{
    match t.get(key) {
        None => Ok(None),
        Some(v) => match wi_string_of(v) {
            Ok(w) => Ok(Some(w)),
            Err(e) => Err(e),
        },
    }
}

/// Read an optional inheritable string-list field.
fn field_wi_list(t: &Table, key: &str) -> (r: Result<
    Option<WorkspaceInheritable<Vec<String>>>,
    Error,
>)
    requires
        table_wf(*t),
    ensures
        match r {
            Ok(Some(w)) => t@.contains_key(key@) && wi_list_ok(t@[key@]) && wi_list_matches(
                t@[key@],
                w,
            ),
            Ok(None) => !t@.contains_key(key@),
            Err(e) => t@.contains_key(key@) && !wi_list_ok(t@[key@]) && e matches Error::Convert {
                ..
            },
        },
{
    match t.get(key) {
        None => Ok(None),
        Some(v) => match wi_list_of(v) {
            Ok(w) => Ok(Some(w)),
            Err(e) => Err(e),
        },
    }
}

/// The package information.
#[derive(Debug, Clone)]
pub struct Package {
    /// The package name.
    pub name: String,
    /// The package version.
    pub version: Option<WorkspaceInheritable<String>>,
    /// The Rust edition.
    pub edition: Option<WorkspaceInheritable<RustEdition>>,
    /// The required Rust version.
    pub rust_version: Option<WorkspaceInheritable<String>>,
    /// The list of authors.
    pub authors: Option<WorkspaceInheritable<Vec<Author>>>,
    /// The package description.
    pub description: Option<WorkspaceInheritable<String>>,
    /// The documentation URL.
    pub documentation: Option<WorkspaceInheritable<String>>,
    /// The path to the README file.
    pub readme: Option<WorkspaceInheritable<String>>,
    /// The homepage URL.
    pub homepage: Option<WorkspaceInheritable<String>>,
    /// The repository URL.
    pub repository: Option<WorkspaceInheritable<String>>,
    /// The license.
    pub license: Option<WorkspaceInheritable<String>>,
    /// The path to the license file.
    pub license_file: Option<WorkspaceInheritable<String>>,
    /// The keywords.
    pub keywords: Option<WorkspaceInheritable<Vec<String>>>,
    /// The categories.
    pub categories: Option<WorkspaceInheritable<Vec<String>>>,
    /// The workspace path.
    pub workspace: Option<String>,
    /// The build script path.
    pub build: Option<String>,
    /// The native library the package links to.
    pub links: Option<String>,
    /// Whether the package may be published.
    pub publish: Option<WorkspaceInheritable<bool>>,
    /// The free-form metadata table.
    pub metadata: Option<Table>,
    /// The paths to exclude.
    pub exclude: Option<WorkspaceInheritable<Vec<String>>>,
    /// The default binary to run.
    pub default_run: Option<String>,
    /// Whether binaries are discovered automatically.
    pub autobins: Option<bool>,
    /// Whether examples are discovered automatically.
    pub autoexamples: Option<bool>,
    /// Whether tests are discovered automatically.
    pub autotests: Option<bool>,
    /// Whether benchmarks are discovered automatically.
    pub autobenches: Option<bool>,
    /// The dependency resolver version.
    pub resolver: Option<ResolverVersion>,
}

/// Whether one optional field of the map reads as an inheritable string.
pub open spec fn pkg_wi_str_ok(m: Map<Seq<char>, Toml>, k: Seq<char>) -> bool {
    m.contains_key(k) ==> wi_str_ok(m[k])
}

/// Whether `w` holds the named optional inheritable string of the map.
pub open spec fn pkg_wi_str_matches(
    m: Map<Seq<char>, Toml>,
    k: Seq<char>,
    w: Option<WorkspaceInheritable<String>>,
) -> bool {
    match w {
        Some(x) => m.contains_key(k) && wi_str_matches(m[k], x),
        None => !m.contains_key(k),
    }
}

/// Whether `w` holds the named optional inheritable string list of the
/// map.
pub open spec fn pkg_wi_list_matches(
    m: Map<Seq<char>, Toml>,
    k: Seq<char>,
    w: Option<WorkspaceInheritable<Vec<String>>>,
) -> bool {
    match w {
        Some(x) => m.contains_key(k) && wi_list_matches(m[k], x),
        None => !m.contains_key(k),
    }
}

/// Whether a parsed value has the shape of a package section.
pub open spec fn package_ok(m: Toml) -> bool {
    match m {
        Toml::Table(t) => {
            &&& t.contains_key("name"@) && t["name"@] is String
            &&& pkg_wi_str_ok(t, "version"@)
            &&& (t.contains_key("edition"@) ==> wi_edition_ok(t["edition"@]))
            &&& pkg_wi_str_ok(t, "rust-version"@)
            &&& (t.contains_key("authors"@) ==> wi_authors_ok(t["authors"@]))
            &&& pkg_wi_str_ok(t, "description"@)
            &&& pkg_wi_str_ok(t, "documentation"@)
            &&& pkg_wi_str_ok(t, "readme"@)
            &&& pkg_wi_str_ok(t, "homepage"@)
            &&& pkg_wi_str_ok(t, "repository"@)
            &&& pkg_wi_str_ok(t, "license"@)
            &&& pkg_wi_str_ok(t, "license_file"@)
            &&& (t.contains_key("keywords"@) ==> wi_list_ok(t["keywords"@]))
            &&& (t.contains_key("categories"@) ==> wi_list_ok(t["categories"@]))
            &&& str_field_ok(t, "workspace"@)
            &&& str_field_ok(t, "build"@)
            &&& str_field_ok(t, "links"@)
            &&& (t.contains_key("publish"@) ==> wi_bool_ok(t["publish"@]))
            &&& (t.contains_key("metadata"@) ==> t["metadata"@] is Table)
            &&& (t.contains_key("exclude"@) ==> wi_list_ok(t["exclude"@]))
            &&& str_field_ok(t, "default-run"@)
            &&& bool_field_strict_ok(t, "autobins"@)
            &&& bool_field_strict_ok(t, "autoexamples"@)
            &&& bool_field_strict_ok(t, "autotests"@)
            &&& bool_field_strict_ok(t, "autobenches"@)
            &&& (t.contains_key("resolver"@) ==> resolver_ok(t["resolver"@]))
        },
        _ => false,
    }
}

/// Whether `p` is the package section a parsed value describes.  The
/// free-form metadata table is tracked by presence alone.
pub open spec fn package_matches(m: Toml, p: Package) -> bool {
    match m {
        Toml::Table(t) => {
            &&& str_field(t, "name"@) == Some(p.name@)
            &&& pkg_wi_str_matches(t, "version"@, p.version)
            &&& match p.edition {
                Some(x) => t.contains_key("edition"@) && wi_edition_matches(t["edition"@], x),
                None => !t.contains_key("edition"@),
            }
            &&& pkg_wi_str_matches(t, "rust-version"@, p.rust_version)
            &&& match p.authors {
                Some(x) => t.contains_key("authors"@) && wi_authors_matches(t["authors"@], x),
                None => !t.contains_key("authors"@),
            }
            &&& pkg_wi_str_matches(t, "description"@, p.description)
            &&& pkg_wi_str_matches(t, "documentation"@, p.documentation)
            &&& pkg_wi_str_matches(t, "readme"@, p.readme)
            &&& pkg_wi_str_matches(t, "homepage"@, p.homepage)
            &&& pkg_wi_str_matches(t, "repository"@, p.repository)
            &&& pkg_wi_str_matches(t, "license"@, p.license)
            &&& pkg_wi_str_matches(t, "license_file"@, p.license_file)
            &&& pkg_wi_list_matches(t, "keywords"@, p.keywords)
            &&& pkg_wi_list_matches(t, "categories"@, p.categories)
            &&& match p.workspace {
                Some(s) => str_field(t, "workspace"@) == Some(s@),
                None => !t.contains_key("workspace"@),
            }
            &&& match p.build {
                Some(s) => str_field(t, "build"@) == Some(s@),
                None => !t.contains_key("build"@),
            }
            &&& match p.links {
                Some(s) => str_field(t, "links"@) == Some(s@),
                None => !t.contains_key("links"@),
            }
            &&& match p.publish {
                Some(x) => t.contains_key("publish"@) && wi_bool_matches(t["publish"@], x),
                None => !t.contains_key("publish"@),
            }
            &&& (p.metadata is Some <==> t.contains_key("metadata"@))
            &&& pkg_wi_list_matches(t, "exclude"@, p.exclude)
            &&& match p.default_run {
                Some(s) => str_field(t, "default-run"@) == Some(s@),
                None => !t.contains_key("default-run"@),
            }
            &&& match p.autobins {
                Some(x) => t.contains_key("autobins"@) && t["autobins"@] == Toml::Boolean(x),
                None => !t.contains_key("autobins"@),
            }
            &&& match p.autoexamples {
                Some(x) => t.contains_key("autoexamples"@) && t["autoexamples"@] == Toml::Boolean(
                    x,
                ),
                None => !t.contains_key("autoexamples"@),
            }
            &&& match p.autotests {
                Some(x) => t.contains_key("autotests"@) && t["autotests"@] == Toml::Boolean(x),
                None => !t.contains_key("autotests"@),
            }
            &&& match p.autobenches {
                Some(x) => t.contains_key("autobenches"@) && t["autobenches"@] == Toml::Boolean(x),
                None => !t.contains_key("autobenches"@),
            }
            &&& match p.resolver {
                Some(x) => t.contains_key("resolver"@) && resolver_ok(t["resolver"@]) && x
                    == resolver_of(t["resolver"@]),
                None => !t.contains_key("resolver"@),
            }
        },
        _ => false,
    }
}

impl Package {
    /// Read a package section out of a parsed value.
    pub fn from_value(value: &Value) -> (r: Result<Package, Error>)
        requires
            value_wf(*value),
        ensures
            match r {
                Ok(p) => package_ok(value@) && package_matches(value@, p),
                Err(e) => !package_ok(value@) && e matches Error::Convert { .. },
            },
    {
        let t = match value {
            Value::Table(t) => t,
            _ => {
                return Err(Error::Convert { from: "a value", to: "a package section" });
            },
        };
        let name = match get_string(t, "name") {
            Ok(Some(n)) => n,
            Ok(None) => {
                return Err(Error::Convert { from: "a table without a name", to: "a package" });
            },
            Err(e) => {
                return Err(e);
            },
        };
        let version = match field_wi_string(t, "version") {
            Ok(x) => x,
            Err(e) => {
                return Err(e);
            },
        };
        let edition = match t.get("edition") {
            None => None,
            Some(v) => match wi_edition_of(v) {
                Ok(w) => Some(w),
                Err(e) => {
                    return Err(e);
                },
            },
        };
        let rust_version = match field_wi_string(t, "rust-version") {
            Ok(x) => x,
            Err(e) => {
                return Err(e);
            },
        };
        let authors = match t.get("authors") {
            None => None,
            Some(v) => match wi_authors_of(v) {
                Ok(w) => Some(w),
                Err(e) => {
                    return Err(e);
                },
            },
        };
        let description = match field_wi_string(t, "description") {
            Ok(x) => x,
            Err(e) => {
                return Err(e);
            },
        };
        let documentation = match field_wi_string(t, "documentation") {
            Ok(x) => x,
            Err(e) => {
                return Err(e);
            },
        };
        let readme = match field_wi_string(t, "readme") {
            Ok(x) => x,
            Err(e) => {
                return Err(e);
            },
        };
        let homepage = match field_wi_string(t, "homepage") {
            Ok(x) => x,
            Err(e) => {
                return Err(e);
            },
        };
        let repository = match field_wi_string(t, "repository") {
            Ok(x) => x,
            Err(e) => {
                return Err(e);
            },
        };
        let license = match field_wi_string(t, "license") {
            Ok(x) => x,
            Err(e) => {
                return Err(e);
            },
        };
        let license_file = match field_wi_string(t, "license_file") {
            Ok(x) => x,
            Err(e) => {
                return Err(e);
            },
        };
        let keywords = match field_wi_list(t, "keywords") {
            Ok(x) => x,
            Err(e) => {
                return Err(e);
            },
        };
        let categories = match field_wi_list(t, "categories") {
            Ok(x) => x,
            Err(e) => {
                return Err(e);
            },
        };
        let workspace = match get_string(t, "workspace") {
            Ok(x) => x,
            Err(e) => {
                return Err(e);
            },
        };
        let build = match get_string(t, "build") {
            Ok(x) => x,
            Err(e) => {
                return Err(e);
            },
        };
        let links = match get_string(t, "links") {
            Ok(x) => x,
            Err(e) => {
                return Err(e);
            },
        };
        let publish = match t.get("publish") {
            None => None,
            Some(v) => match wi_bool_of(v) {
                Ok(w) => Some(w),
                Err(e) => {
                    return Err(e);
                },
            },
        };
        let metadata = match t.get("metadata") {
            None => None,
            Some(v) => match v {
                Value::Table(mt) => Some(mt.clone()),
                _ => {
                    return Err(Error::Convert { from: "a value", to: "a metadata table" });
                },
            },
        };
        let exclude = match field_wi_list(t, "exclude") {
            Ok(x) => x,
            Err(e) => {
                return Err(e);
            },
        };
        let default_run = match get_string(t, "default-run") {
            Ok(x) => x,
            Err(e) => {
                return Err(e);
            },
        };
        let autobins = match get_bool_strict(t, "autobins") {
            Ok(x) => x,
            Err(e) => {
                return Err(e);
            },
        };
        let autoexamples = match get_bool_strict(t, "autoexamples") {
            Ok(x) => x,
            Err(e) => {
                return Err(e);
            },
        };
        let autotests = match get_bool_strict(t, "autotests") {
            Ok(x) => x,
            Err(e) => {
                return Err(e);
            },
        };
        let autobenches = match get_bool_strict(t, "autobenches") {
            Ok(x) => x,
            Err(e) => {
                return Err(e);
            },
        };
        let resolver = match t.get("resolver") {
            None => None,
            Some(v) => match ResolverVersion::from_value(v) {
                Ok(x) => Some(x),
                Err(e) => {
                    return Err(e);
                },
            },
        };
        Ok(
            Package {
                name,
                version,
                edition,
                rust_version,
                authors,
                description,
                documentation,
                readme,
                homepage,
                repository,
                license,
                license_file,
                keywords,
                categories,
                workspace,
                build,
                links,
                publish,
                metadata,
                exclude,
                default_run,
                autobins,
                autoexamples,
                autotests,
                autobenches,
                resolver,
            },
        )
    }

    /// The package name.
    pub fn name(&self) -> (r: &str)
        ensures
            r@ == self.name@,
    {
        self.name.as_str()
    }

    /// The package version.
    pub fn version(&self) -> (r: Option<&WorkspaceInheritable<String>>)
        ensures
            match r {
                Some(w) => self.version matches Some(x) && w == &x,
                None => self.version is None,
            },
    {
        match &self.version {
            Some(w) => Some(w),
            None => None,
        }
    }

    /// The Rust edition.
    pub fn edition(&self) -> (r: Option<&WorkspaceInheritable<RustEdition>>)
        ensures
            match r {
                Some(w) => self.edition matches Some(x) && w == &x,
                None => self.edition is None,
            },
    {
        match &self.edition {
            Some(w) => Some(w),
            None => None,
        }
    }

    /// The required Rust version.
    pub fn rust_version(&self) -> (r: Option<&WorkspaceInheritable<String>>)
        ensures
            match r {
                Some(w) => self.rust_version matches Some(x) && w == &x,
                None => self.rust_version is None,
            },
    {
        match &self.rust_version {
            Some(w) => Some(w),
            None => None,
        }
    }

    /// The list of authors.
    pub fn authors(&self) -> (r: Option<&WorkspaceInheritable<Vec<Author>>>)
        ensures
            match r {
                Some(w) => self.authors matches Some(x) && w == &x,
                None => self.authors is None,
            },
    {
        match &self.authors {
            Some(w) => Some(w),
            None => None,
        }
    }

    /// The package description.
    pub fn description(&self) -> (r: Option<&WorkspaceInheritable<String>>)
        ensures
            match r {
                Some(w) => self.description matches Some(x) && w == &x,
                None => self.description is None,
            },
    {
        match &self.description {
            Some(w) => Some(w),
            None => None,
        }
    }

    /// The documentation URL.
    pub fn documentation(&self) -> (r: Option<&WorkspaceInheritable<String>>)
        ensures
            match r {
                Some(w) => self.documentation matches Some(x) && w == &x,
                None => self.documentation is None,
            },
    {
        match &self.documentation {
            Some(w) => Some(w),
            None => None,
        }
    }

    /// The path to the README file.
    pub fn readme(&self) -> (r: Option<&WorkspaceInheritable<String>>)
        ensures
            match r {
                Some(w) => self.readme matches Some(x) && w == &x,
                None => self.readme is None,
            },
    {
        match &self.readme {
            Some(w) => Some(w),
            None => None,
        }
    }

    /// The homepage URL.
    pub fn homepage(&self) -> (r: Option<&WorkspaceInheritable<String>>)
        ensures
            match r {
                Some(w) => self.homepage matches Some(x) && w == &x,
                None => self.homepage is None,
            },
    {
        match &self.homepage {
            Some(w) => Some(w),
            None => None,
        }
    }

    /// The repository URL.
    pub fn repository(&self) -> (r: Option<&WorkspaceInheritable<String>>)
        ensures
            match r {
                Some(w) => self.repository matches Some(x) && w == &x,
                None => self.repository is None,
            },
    {
        match &self.repository {
            Some(w) => Some(w),
            None => None,
        }
    }

    /// The package license.
    pub fn license(&self) -> (r: Option<&WorkspaceInheritable<String>>)
        ensures
            match r {
                Some(w) => self.license matches Some(x) && w == &x,
                None => self.license is None,
            },
    {
        match &self.license {
            Some(w) => Some(w),
            None => None,
        }
    }

    /// The path to the license file.
    pub fn license_file(&self) -> (r: Option<&WorkspaceInheritable<String>>)
        ensures
            match r {
                Some(w) => self.license_file matches Some(x) && w == &x,
                None => self.license_file is None,
            },
    {
        match &self.license_file {
            Some(w) => Some(w),
            None => None,
        }
    }

    /// The package keywords.
    pub fn keywords(&self) -> (r: Option<&WorkspaceInheritable<Vec<String>>>)
        ensures
            match r {
                Some(w) => self.keywords matches Some(x) && w == &x,
                None => self.keywords is None,
            },
    {
        match &self.keywords {
            Some(w) => Some(w),
            None => None,
        }
    }

    /// The package categories.
    pub fn categories(&self) -> (r: Option<&WorkspaceInheritable<Vec<String>>>)
        ensures
            match r {
                Some(w) => self.categories matches Some(x) && w == &x,
                None => self.categories is None,
            },
    {
        match &self.categories {
            Some(w) => Some(w),
            None => None,
        }
    }

    /// The workspace path.
    pub fn workspace(&self) -> (r: Option<&str>)
        ensures
            match r {
                Some(s) => self.workspace matches Some(v) && s@ == v@,
                None => self.workspace is None,
            },
    {
        match &self.workspace {
            Some(v) => Some(v.as_str()),
            None => None,
        }
    }

    /// The build script path.
    pub fn build(&self) -> (r: Option<&str>)
        ensures
            match r {
                Some(s) => self.build matches Some(v) && s@ == v@,
                None => self.build is None,
            },
    {
        match &self.build {
            Some(v) => Some(v.as_str()),
            None => None,
        }
    }

    /// The native library the package links to.
    pub fn links(&self) -> (r: Option<&str>)
        ensures
            match r {
                Some(s) => self.links matches Some(v) && s@ == v@,
                None => self.links is None,
            },
    {
        match &self.links {
            Some(v) => Some(v.as_str()),
            None => None,
        }
    }

    /// Whether the package may be published.
    pub fn publish(&self) -> (r: Option<&WorkspaceInheritable<bool>>)
        ensures
            match r {
                Some(w) => self.publish matches Some(x) && w == &x,
                None => self.publish is None,
            },
    {
        match &self.publish {
            Some(w) => Some(w),
            None => None,
        }
    }

    /// The free-form metadata table.
    pub fn metadata(&self) -> (r: Option<&Table>)
        ensures
            match r {
                Some(mt) => self.metadata matches Some(x) && mt == &x,
                None => self.metadata is None,
            },
    {
        match &self.metadata {
            Some(mt) => Some(mt),
            None => None,
        }
    }

    /// The paths to exclude.
    pub fn exclude(&self) -> (r: Option<&WorkspaceInheritable<Vec<String>>>)
        ensures
            match r {
                Some(w) => self.exclude matches Some(x) && w == &x,
                None => self.exclude is None,
            },
    {
        match &self.exclude {
            Some(w) => Some(w),
            None => None,
        }
    }

    /// The default binary to run.
    pub fn default_run(&self) -> (r: Option<&str>)
        ensures
            match r {
                Some(s) => self.default_run matches Some(v) && s@ == v@,
                None => self.default_run is None,
            },
    {
        match &self.default_run {
            Some(v) => Some(v.as_str()),
            None => None,
        }
    }

    /// Whether binaries are discovered automatically.
    pub fn autobins(&self) -> (r: Option<bool>)
        ensures
            r == self.autobins,
    {
        self.autobins
    }

    /// Whether examples are discovered automatically.
    pub fn autoexamples(&self) -> (r: Option<bool>)
        ensures
            r == self.autoexamples,
    {
        self.autoexamples
    }

    /// Whether tests are discovered automatically.
    pub fn autotests(&self) -> (r: Option<bool>)
        ensures
            r == self.autotests,
    {
        self.autotests
    }

    /// Whether benchmarks are discovered automatically.
    pub fn autobenches(&self) -> (r: Option<bool>)
        ensures
            r == self.autobenches,
    {
        self.autobenches
    }

    /// The dependency resolver version.
    pub fn resolver(&self) -> (r: Option<ResolverVersion>)
        ensures
            r == self.resolver,
    {
        self.resolver
    }
}

} // verus!
