//! The dependencies of a package.
use vstd::prelude::*;

use crate::error::Error;
use crate::scan::str_eq;
use crate::table::Table;
use crate::value::{lemma_array_model, table_wf, value_model, value_wf, Toml, Value};

verus! {

/// The optional string field `k` of a table: its characters when it is a
/// string, nothing when it is absent.  Any other type is a conversion
/// error, which `str_field_ok` excludes.
pub open spec fn str_field(m: Map<Seq<char>, Toml>, k: Seq<char>) -> Option<Seq<char>> {
    if m.contains_key(k) {
        match m[k] {
            Toml::String(s) => Some(s),
            _ => None,
        }
    } else {
        None
    }
}

/// Whether the field `k`, if present, is a string.
pub open spec fn str_field_ok(m: Map<Seq<char>, Toml>, k: Seq<char>) -> bool {
    m.contains_key(k) ==> m[k] is String
}

/// The optional boolean field `k` of a table; a present non-boolean reads
/// as absent.
pub open spec fn bool_field(m: Map<Seq<char>, Toml>, k: Seq<char>) -> Option<bool> {
    if m.contains_key(k) {
        match m[k] {
            Toml::Boolean(b) => Some(b),
            _ => None,
        }
    } else {
        None
    }
}

/// The `workspace` flag shape: a present non-boolean reads as `false`.
pub open spec fn workspace_field(m: Map<Seq<char>, Toml>, k: Seq<char>) -> Option<bool> {
    if m.contains_key(k) {
        match m[k] {
            Toml::Boolean(b) => Some(b),
            _ => Some(false),
        }
    } else {
        None
    }
}

/// Whether every element of an array model is a string.
pub open spec fn string_array_ok(items: Seq<Toml>) -> bool {
    forall|i: int| 0 <= i < items.len() ==> (#[trigger] items[i]) is String
}

/// Whether `out` holds exactly the strings of `items`.
pub open spec fn strings_match(items: Seq<Toml>, out: Seq<String>) -> bool {
    &&& out.len() == items.len()
    &&& forall|i: int| 0 <= i < items.len() ==> #[trigger] items[i] == Toml::String(out[i]@)
}

/// Whether the field `k`, if present, is an array of strings.
pub open spec fn string_list_field_ok(m: Map<Seq<char>, Toml>, k: Seq<char>) -> bool {
    m.contains_key(k) ==> match m[k] {
        Toml::Array(items) => string_array_ok(items),
        _ => false,
    }
}

/// Read the optional string field `k`.
pub(crate) fn get_string(t: &Table, key: &str) -> (r: Result<Option<String>, Error>)
    requires
        table_wf(*t),
    ensures
        match r {
            Ok(Some(s)) => t@.contains_key(key@) && t@[key@] == Toml::String(s@),
            Ok(None) => !t@.contains_key(key@),
            Err(e) => t@.contains_key(key@) && !(t@[key@] is String) && e matches Error::Convert {
                ..
            },
        },
{
    match t.get(key) {
        None => Ok(None),
        Some(v) => match v {
            Value::String(s) => Ok(Some(s.clone())),
            _ => Err(Error::Convert { from: "a value", to: "a string" }),
        },
    }
}

/// Read the optional boolean field `k`; a present non-boolean reads as
/// absent.
pub(crate) fn get_bool(t: &Table, key: &str) -> (r: Option<bool>)
    requires
        table_wf(*t),
    ensures
        r == bool_field(t@, key@),
{
    match t.get(key) {
        None => None,
        Some(v) => match v {
            Value::Boolean(b) => Some(*b),
            _ => None,
        },
    }
}

/// Whether the field `k`, if present, is a boolean.
pub open spec fn bool_field_strict_ok(m: Map<Seq<char>, Toml>, k: Seq<char>) -> bool {
    m.contains_key(k) ==> m[k] is Boolean
}

/// Read the optional boolean field `k`; a present non-boolean is a
/// conversion error.
pub(crate) fn get_bool_strict(t: &Table, key: &str) -> (r: Result<Option<bool>, Error>)
    requires
        table_wf(*t),
    ensures
        match r {
            Ok(Some(b)) => t@.contains_key(key@) && t@[key@] == Toml::Boolean(b),
            Ok(None) => !t@.contains_key(key@),
            Err(e) => t@.contains_key(key@) && !(t@[key@] is Boolean) && e matches Error::Convert {
                ..
            },
        },
{
    match t.get(key) {
        None => Ok(None),
        Some(v) => match v {
            Value::Boolean(b) => Ok(Some(*b)),
            _ => Err(Error::Convert { from: "a value", to: "a boolean" }),
        },
    }
}

/// Read the `workspace`-shaped flag `k`; a present non-boolean reads as
/// `false`.
pub(crate) fn get_workspace_flag(t: &Table, key: &str) -> (r: Option<bool>)
    requires
        table_wf(*t),
    ensures
        r == workspace_field(t@, key@),
{
    match t.get(key) {
        None => None,
        Some(v) => match v {
            Value::Boolean(b) => Some(*b),
            _ => Some(false),
        },
    }
}

/// Read the optional string-array field `k`.
pub(crate) fn get_string_list(t: &Table, key: &str) -> (r: Result<Option<Vec<String>>, Error>)
    requires
        table_wf(*t),
    ensures
        match r {
            Ok(Some(vs)) => t@.contains_key(key@) && (t@[key@] matches Toml::Array(items)
                && strings_match(items, vs@)),
            Ok(None) => !t@.contains_key(key@),
            Err(e) => t@.contains_key(key@) && !(t@[key@] matches Toml::Array(items)
                && string_array_ok(items)) && e matches Error::Convert { .. },
        },
{
    match t.get(key) {
        None => Ok(None),
        Some(v) => match v {
            Value::Array(a) => {
                proof {
                    lemma_array_model(a.items@);
                }
                let mut out: Vec<String> = Vec::new();
                let n = a.items.len();
                let mut i: usize = 0;
                while i < n
                    invariant
                        i <= n,
                        n == a.items@.len(),
                        out@.len() == i,
                        table_wf(*t),
                        t@.contains_key(key@),
                        t@[key@] == Toml::Array(crate::value::array_model(a.items@)),
                        forall|k: int|
                            0 <= k < i ==> crate::value::array_model(a.items@)[k] == Toml::String(
                                (#[trigger] out@[k])@,
                            ),
                        forall|k: int|
                            0 <= k < n ==> crate::value::array_model(a.items@)[k] == value_model(
                                #[trigger] a.items@[k],
                            ),
                    decreases n - i,
                {
                    match &a.items[i] {
                        Value::String(s) => {
                            out.push(s.clone());
                        },
                        _ => {
                            proof {
                                crate::value::lemma_array_model(a.items@);
                                assert(crate::value::array_model(a.items@)[i as int]
                                    == value_model(a.items@[i as int]));
                                assert(!(crate::value::array_model(a.items@)[i as int]
                                    is String));
                            }
                            return Err(Error::Convert { from: "a value", to: "a string list" });
                        },
                    }
                    i = i + 1;
                }
                Ok(Some(out))
            },
            _ => Err(Error::Convert { from: "a value", to: "a string list" }),
        },
    }
}

/// A dependency: a bare version string, or a table of properties.
#[derive(Debug, Clone)]
pub struct Dependency {
    /// The required version, if one was given.
    pub version: Option<String>,
    /// Whether the dependency is optional.
    pub optional: Option<bool>,
    /// The features to enable.
    pub features: Option<Vec<String>>,
    /// Whether the dependency inherits from the workspace.
    pub workspace: Option<bool>,
    /// The real package name, where it differs from the key.
    pub package: Option<String>,
    /// Where the dependency comes from, when not the registry.
    pub source: Option<Source>,
}

/// A git repository or a local path.
#[derive(Debug, Clone)]
pub enum Source {
    /// A git repository.
    Git(Git),
    /// The local file path to a crate.
    Path(String),
}

/// The git properties.
#[derive(Debug, Clone)]
pub struct Git {
    /// The repository URL.
    pub repo: String,
    /// The commit, where one is pinned.
    pub commit: Option<GitCommit>,
}

/// The commit of a git dependency.
#[derive(Debug, Clone)]
pub enum GitCommit {
    /// A branch name.
    Branch(String),
    /// A tag.
    Tag(String),
    /// A revision.
    Rev(String),
}

/// Whether the commit fields of a dependency table are legal: each of
/// `branch`, `tag` and `rev` a string where present, and at most one of
/// them present.
pub open spec fn commit_ok(m: Map<Seq<char>, Toml>) -> bool {
    &&& str_field_ok(m, "branch"@)
    &&& str_field_ok(m, "tag"@)
    &&& str_field_ok(m, "rev"@)
    &&& !(m.contains_key("branch"@) && m.contains_key("tag"@))
    &&& !(m.contains_key("branch"@) && m.contains_key("rev"@))
    &&& !(m.contains_key("tag"@) && m.contains_key("rev"@))
}

/// Whether `c` is the commit the table names.
pub open spec fn commit_matches(m: Map<Seq<char>, Toml>, c: Option<GitCommit>) -> bool {
    match c {
        None => !m.contains_key("branch"@) && !m.contains_key("tag"@) && !m.contains_key("rev"@),
        Some(GitCommit::Branch(b)) => str_field(m, "branch"@) == Some(b@),
        Some(GitCommit::Tag(x)) => str_field(m, "tag"@) == Some(x@),
        Some(GitCommit::Rev(x)) => str_field(m, "rev"@) == Some(x@),
    }
}

/// Whether the source fields of a dependency table are legal: `git` and
/// `path` strings where present and not both present, and the commit
/// fields legal where `git` is present.
pub open spec fn source_ok(m: Map<Seq<char>, Toml>) -> bool {
    &&& str_field_ok(m, "git"@)
    &&& (m.contains_key("git"@) ==> commit_ok(m))
    &&& str_field_ok(m, "path"@)
    &&& !(m.contains_key("git"@) && m.contains_key("path"@))
}

/// Whether `s` is the source the table names.
pub open spec fn source_matches(m: Map<Seq<char>, Toml>, s: Option<Source>) -> bool {
    match s {
        None => !m.contains_key("git"@) && !m.contains_key("path"@),
        Some(Source::Git(g)) => str_field(m, "git"@) == Some(g.repo@) && commit_matches(
            m,
            g.commit,
        ),
        Some(Source::Path(p)) => !m.contains_key("git"@) && str_field(m, "path"@) == Some(p@),
    }
}

/// Whether a parsed value has the shape of a dependency: a bare version
/// string, or a table whose fields have the right types.
pub open spec fn dep_ok(m: Toml) -> bool {
    match m {
        Toml::String(_) => true,
        Toml::Table(t) => {
            &&& str_field_ok(t, "version"@)
            &&& string_list_field_ok(t, "features"@)
            &&& str_field_ok(t, "package"@)
            &&& source_ok(t)
        },
        _ => false,
    }
}

/// Whether `d` is the dependency a parsed value describes.
pub open spec fn dep_matches(m: Toml, d: Dependency) -> bool {
    match m {
        Toml::String(s) => {
            &&& d.version matches Some(v) && v@ == s
            &&& d.optional is None
            &&& d.features is None
            &&& d.workspace is None
            &&& d.package is None
            &&& d.source is None
        },
        Toml::Table(t) => {
            &&& match d.version {
                Some(v) => str_field(t, "version"@) == Some(v@),
                None => !t.contains_key("version"@),
            }
            &&& d.optional == bool_field(t, "optional"@)
            &&& match d.features {
                Some(fs) => t.contains_key("features"@) && (t["features"@] matches Toml::Array(
                    items,
                ) && strings_match(items, fs@)),
                None => !t.contains_key("features"@),
            }
            &&& d.workspace == workspace_field(t, "workspace"@)
            &&& match d.package {
                Some(p) => str_field(t, "package"@) == Some(p@),
                None => !t.contains_key("package"@),
            }
            &&& source_matches(t, d.source)
        },
        _ => false,
    }
}

impl Dependency {
    /// The required version.
    pub fn version(&self) -> (r: Option<&str>)
        ensures
            match r {
                Some(s) => self.version matches Some(v) && s@ == v@,
                None => self.version is None,
            },
    {
        match &self.version {
            Some(v) => Some(v.as_str()),
            None => None,
        }
    }

    /// Whether the dependency is optional.
    pub fn optional(&self) -> (r: Option<bool>)
        ensures
            r == self.optional,
    {
        self.optional
    }

    /// The features of the dependency.
    pub fn features(&self) -> (r: Option<&Vec<String>>)
        ensures
            match r {
                Some(fs) => self.features matches Some(v) && fs == &v,
                None => self.features is None,
            },
    {
        match &self.features {
            Some(fs) => Some(fs),
            None => None,
        }
    }

    /// Whether the dependency inherits from the workspace.
    pub fn workspace(&self) -> (r: Option<bool>)
        ensures
            r == self.workspace,
    {
        self.workspace
    }

    /// The real package name, where it differs from the key.
    pub fn package(&self) -> (r: Option<&str>)
        ensures
            match r {
                Some(s) => self.package matches Some(v) && s@ == v@,
                None => self.package is None,
            },
    {
        match &self.package {
            Some(v) => Some(v.as_str()),
            None => None,
        }
    }

    /// The source of the dependency.
    pub fn source(&self) -> (r: Option<&Source>)
        ensures
            match r {
                Some(s) => self.source matches Some(v) && s == &v,
                None => self.source is None,
            },
    {
        match &self.source {
            Some(s) => Some(s),
            None => None,
        }
    }

    /// Read a dependency out of a parsed value: a bare version string, or
    /// a table of properties.
    pub fn from_value(value: &Value) -> (r: Result<Dependency, Error>)
        requires
            value_wf(*value),
        ensures
            match r {
                Ok(d) => dep_ok(value@) && dep_matches(value@, d),
                Err(e) => !dep_ok(value@) && e matches Error::Convert { .. },
            },
    {
        match value {
            Value::String(s) => Ok(
                Dependency {
                    version: Some(s.clone()),
                    optional: None,
                    features: None,
                    workspace: None,
                    package: None,
                    source: None,
                },
            ),
            Value::Table(t) => {
                let version = match get_string(t, "version") {
                    Ok(v) => v,
                    Err(e) => {
                        return Err(e);
                    },
                };
                let optional = get_bool(t, "optional");
                let features = match get_string_list(t, "features") {
                    Ok(f) => f,
                    Err(e) => {
                        return Err(e);
                    },
                };
                let workspace = get_workspace_flag(t, "workspace");
                let package = match get_string(t, "package") {
                    Ok(p) => p,
                    Err(e) => {
                        return Err(e);
                    },
                };
                let source = match source_of(t) {
                    Ok(s) => s,
                    Err(e) => {
                        return Err(e);
                    },
                };
                Ok(Dependency { version, optional, features, workspace, package, source })
            },
            _ => Err(Error::Convert { from: "a value", to: "a dependency" }),
        }
    }
}

/// Read the source out of a dependency table: a git repository with an
/// optional commit, a local path, or nothing; both at once is an error.
fn source_of(t: &Table) -> (r: Result<Option<Source>, Error>)
    requires
        table_wf(*t),
    ensures
        match r {
            Ok(s) => source_ok(t@) && source_matches(t@, s),
            Err(e) => !source_ok(t@) && e matches Error::Convert { .. },
        },
{
    let git_repo = match get_string(t, "git") {
        Ok(g) => g,
        Err(e) => {
            return Err(e);
        },
    };
    match git_repo {
        Some(repo) => {
            let commit = match commit_of_table(t) {
                Ok(c) => c,
                Err(e) => {
                    return Err(e);
                },
            };
            match get_string(t, "path") {
                Ok(Some(_)) => Err(Error::Convert { from: "both git and path", to: "a source" }),
                Ok(None) => Ok(Some(Source::Git(Git { repo, commit }))),
                Err(e) => Err(e),
            }
        },
        None => {
            match get_string(t, "path") {
                Ok(Some(p)) => Ok(Some(Source::Path(p))),
                Ok(None) => Ok(None),
                Err(e) => Err(e),
            }
        },
    }
}

/// Read the commit out of a dependency table: one of `branch`, `tag` or
/// `rev`; more than one is an error.
fn commit_of_table(t: &Table) -> (r: Result<Option<GitCommit>, Error>)
    requires
        table_wf(*t),
    ensures
        match r {
            Ok(c) => commit_ok(t@) && commit_matches(t@, c),
            Err(e) => !commit_ok(t@) && e matches Error::Convert { .. },
        },
{
    let branch = match get_string(t, "branch") {
        Ok(b) => b,
        Err(e) => {
            return Err(e);
        },
    };
    let tag = match get_string(t, "tag") {
        Ok(x) => x,
        Err(e) => {
            return Err(e);
        },
    };
    let rev = match get_string(t, "rev") {
        Ok(x) => x,
        Err(e) => {
            return Err(e);
        },
    };
    match (branch, tag, rev) {
        (Some(b), None, None) => Ok(Some(GitCommit::Branch(b))),
        (None, Some(x), None) => Ok(Some(GitCommit::Tag(x))),
        (None, None, Some(x)) => Ok(Some(GitCommit::Rev(x))),
        (None, None, None) => Ok(None),
        _ => Err(Error::Convert { from: "several commit fields", to: "a commit" }),
    }
}

impl Source {
    /// The git repository, if the source is one.
    pub fn git(&self) -> (r: Option<&Git>)
        ensures
            match r {
                Some(g) => self matches Source::Git(x) && g == &x,
                None => !(self is Git),
            },
    {
        match self {
            Source::Git(g) => Some(g),
            _ => None,
        }
    }

    /// The local file path, if the source is one.
    pub fn path(&self) -> (r: Option<&str>)
        ensures
            match r {
                Some(p) => self matches Source::Path(x) && p@ == x@,
                None => !(self is Path),
            },
    {
        match self {
            Source::Path(p) => Some(p.as_str()),
            _ => None,
        }
    }
}

impl Git {
    /// The repository URL.
    pub fn repository(&self) -> (r: &str)
        ensures
            r@ == self.repo@,
    {
        self.repo.as_str()
    }

    /// The commit of the git dependency, if one is pinned.
    pub fn commit(&self) -> (r: Option<&GitCommit>)
        ensures
            match r {
                Some(c) => self.commit matches Some(x) && c == &x,
                None => self.commit is None,
            },
    {
        match &self.commit {
            Some(c) => Some(c),
            None => None,
        }
    }
}

impl GitCommit {
    /// The branch name, if the commit is one.
    pub fn branch(&self) -> (r: Option<&str>)
        ensures
            match r {
                Some(b) => self matches GitCommit::Branch(x) && b@ == x@,
                None => !(self is Branch),
            },
    {
        match self {
            GitCommit::Branch(b) => Some(b.as_str()),
            _ => None,
        }
    }

    /// The tag, if the commit is one.
    pub fn tag(&self) -> (r: Option<&str>)
        ensures
            match r {
                Some(b) => self matches GitCommit::Tag(x) && b@ == x@,
                None => !(self is Tag),
            },
    {
        match self {
            GitCommit::Tag(b) => Some(b.as_str()),
            _ => None,
        }
    }

    /// The revision, if the commit is one.
    pub fn revision(&self) -> (r: Option<&str>)
        ensures
            match r {
                Some(b) => self matches GitCommit::Rev(x) && b@ == x@,
                None => !(self is Rev),
            },
    {
        match self {
            GitCommit::Rev(b) => Some(b.as_str()),
            _ => None,
        }
    }
}

/// The named dependencies of one section, in lexicographic name order.
#[derive(Debug, Clone)]
pub struct Dependencies {
    /// The dependencies, by name.
    pub entries: Vec<(String, Dependency)>,
}

/// Whether every value of the table has the shape of a dependency.
pub open spec fn deps_ok(s: Seq<(String, Value)>) -> bool {
    forall|i: int| 0 <= i < s.len() ==> dep_ok(value_model((#[trigger] s[i]).1))
}

/// Whether `out` holds the dependency each entry describes, name for
/// name and in order.
pub open spec fn deps_match(s: Seq<(String, Value)>, out: Seq<(String, Dependency)>) -> bool {
    &&& out.len() == s.len()
    &&& forall|i: int|
        0 <= i < s.len() ==> ((#[trigger] out[i]).0@ == s[i].0@ && dep_matches(
            value_model(s[i].1),
            out[i].1,
        ))
}

/// Whether every dependency of the table model has the right shape.
pub open spec fn deps_ok_map(m: Map<Seq<char>, Toml>) -> bool {
    forall|k: Seq<char>| #[trigger] m.contains_key(k) ==> dep_ok(m[k])
}

/// Whether `out` binds exactly the names of the table model, each to the
/// dependency its value describes.
pub open spec fn deps_match_map(m: Map<Seq<char>, Toml>, out: Seq<(String, Dependency)>) -> bool {
    &&& forall|i: int|
        0 <= i < out.len() ==> (m.contains_key((#[trigger] out[i]).0@) && dep_matches(
            m[out[i].0@],
            out[i].1,
        ))
    &&& forall|k: Seq<char>| #[trigger]
        m.contains_key(k) ==> exists|i: int| 0 <= i < out.len() && (#[trigger] out[i]).0@ == k
}

impl Dependencies {
    /// Get a dependency by name.
    pub fn by_name(&self, name: &str) -> (r: Option<&Dependency>)
        ensures
            match r {
                Some(d) => exists|i: int|
                    0 <= i < self.entries@.len() && (#[trigger] self.entries@[i]).0@ == name@ && d
                        == &self.entries@[i].1,
                None => forall|i: int|
                    0 <= i < self.entries@.len() ==> (#[trigger] self.entries@[i]).0@ != name@,
            },
    {
        let n = self.entries.len();
        let mut i: usize = 0;
        while i < n
            invariant
                i <= n,
                n == self.entries@.len(),
                forall|k: int| 0 <= k < i ==> (#[trigger] self.entries@[k]).0@ != name@,
            decreases n - i,
        {
            if str_eq(self.entries[i].0.as_str(), name) {
                return Some(&self.entries[i].1);
            }
            i = i + 1;
        }
        None
    }

    /// The named dependencies, in name order.
    pub fn iter(&self) -> (r: &[(String, Dependency)])
        ensures
            r@ == self.entries@,
    {
        self.entries.as_slice()
    }

    /// Read a dependencies section out of a parsed value: a table whose
    /// every value is a dependency.
    pub fn from_value(value: &Value) -> (r: Result<Dependencies, Error>)
        requires
            value_wf(*value),
        ensures
            match r {
                Ok(d) => value matches Value::Table(t) && deps_ok(t.entries@) && deps_match(
                    t.entries@,
                    d.entries@,
                ) && deps_ok_map(t@) && deps_match_map(t@, d.entries@),
                Err(e) => !(value matches Value::Table(t) && deps_ok_map(t@)) && e
                    matches Error::Convert { .. },
            },
    {
        let t = match value {
            Value::Table(t) => t,
            _ => {
                return Err(Error::Convert { from: "a value", to: "dependencies" });
            },
        };
        let n = t.entries.len();
        let mut out: Vec<(String, Dependency)> = Vec::new();
        let mut i: usize = 0;
        while i < n
            invariant
                i <= n,
                n == t.entries@.len(),
                out@.len() == i,
                value_wf(*value),
                *value == Value::Table(*t),
                forall|k: int| 0 <= k < i ==> dep_ok(value_model((#[trigger] t.entries@[k]).1)),
                forall|k: int|
                    0 <= k < i ==> ((#[trigger] out@[k]).0@ == t.entries@[k].0@ && dep_matches(
                        value_model(t.entries@[k].1),
                        out@[k].1,
                    )),
            decreases n - i,
        {
            proof {
                assert(value_wf(Value::Table(*t)));
                assert(crate::value::table_entries_wf(t.entries@));
                assert(value_wf(t.entries@[i as int].1));
            }
            let d = match Dependency::from_value(&t.entries[i].1) {
                Ok(d) => d,
                Err(e) => {
                    proof {
                        assert(value_wf(Value::Table(*t)));
                        assert(crate::value::table_entries_wf(t.entries@));
                        crate::table::lemma_sorted_distinct(t.entries@);
                        crate::table::lemma_entries_model(t.entries@);
                        assert(t@.contains_key(t.entries@[i as int].0@));
                        assert(t@[t.entries@[i as int].0@] == value_model(
                            t.entries@[i as int].1,
                        ));
                    }
                    return Err(e);
                },
            };
            let name = t.entries[i].0.clone();
            out.push((name, d));
            i = i + 1;
        }
        proof {
            assert(value_wf(Value::Table(*t)));
            assert(crate::value::table_entries_wf(t.entries@));
            assert forall|k: int| 0 <= k < t.entries@.len() implies dep_ok(
                value_model((#[trigger] t.entries@[k]).1),
            ) by {
                assert(out@[k].0@ == t.entries@[k].0@);
            }
            crate::table::lemma_sorted_distinct(t.entries@);
            crate::table::lemma_entries_model(t.entries@);
            assert forall|k: int| 0 <= k < out@.len() implies t@.contains_key(
                (#[trigger] out@[k]).0@,
            ) && dep_matches(t@[out@[k].0@], out@[k].1) && dep_ok(t@[out@[k].0@]) by {
                assert(t.entries@[k].0@ == out@[k].0@);
                assert(t@[t.entries@[k].0@] == value_model(t.entries@[k].1));
            }
            assert forall|k: Seq<char>| #[trigger] t@.contains_key(k) implies (dep_ok(t@[k])
                && exists|i: int| 0 <= i < out@.len() && (#[trigger] out@[i]).0@ == k) by {
                let j = choose|j: int|
                    0 <= j < t.entries@.len() && (#[trigger] t.entries@[j].0)@ == k;
                assert(out@[j].0@ == k);
            }
        }
        Ok(Dependencies { entries: out })
    }
}

} // verus!
