//! Workspace information.
use vstd::prelude::*;

use crate::cargo::author::{Author};
use crate::cargo::dependency::{
    bool_field_strict_ok, get_bool_strict, get_string,
    get_string_list, str_field, str_field_ok, string_array_ok, strings_match, Dependencies,
};
use crate::cargo::package::{authors_match, authors_of, authors_ok};
use crate::cargo::resolver_version::{resolver_of, resolver_ok, ResolverVersion};
use crate::cargo::rust_edition::{edition_of, edition_ok, RustEdition};
use crate::cargo::target::{dep_section, dep_section_matches, dep_section_ok};
use crate::error::Error;
use crate::table::Table;
use crate::value::{table_wf, value_wf, Toml, Value};

verus! {

/// The package defaults of a workspace, which members may inherit.
#[derive(Debug, Clone)]
pub struct Package {
    /// The version.
    pub version: Option<String>,
    /// The Rust edition.
    pub edition: Option<RustEdition>,
    /// The required Rust version.
    pub rust_version: Option<String>,
    /// The list of authors.
    pub authors: Option<Vec<Author>>,
    /// The description.
    pub description: Option<String>,
    /// The documentation URL.
    pub documentation: Option<String>,
    /// The path to the README file.
    pub readme: Option<String>,
    /// The homepage URL.
    pub homepage: Option<String>,
    /// The repository URL.
    pub repository: Option<String>,
    /// The license.
    pub license: Option<String>,
    /// The path to the license file.
    pub license_file: Option<String>,
    /// The keywords.
    pub keywords: Option<Vec<String>>,
    /// The categories.
    pub categories: Option<Vec<String>>,
    /// Whether members may be published.
    pub publish: Option<bool>,
    /// The paths to exclude.
    pub exclude: Option<Vec<String>>,
}

/// Whether one optional string-list field of the map is well shaped.
pub open spec fn list_field_ok(m: Map<Seq<char>, Toml>, k: Seq<char>) -> bool {
    m.contains_key(k) ==> (m[k] matches Toml::Array(items) && string_array_ok(items))
}

/// Whether `w` holds the named optional string list of the map.
pub open spec fn list_field_matches(
    m: Map<Seq<char>, Toml>,
    k: Seq<char>,
    w: Option<Vec<String>>,
) -> bool {
    match w {
        Some(vs) => m.contains_key(k) && (m[k] matches Toml::Array(items) && strings_match(
            items,
            vs@,
        )),
        None => !m.contains_key(k),
    }
}

/// Whether `w` holds the named optional string of the map.
pub open spec fn opt_str_matches(
    m: Map<Seq<char>, Toml>,
    k: Seq<char>,
    w: Option<String>,
) -> bool {
    match w {
        Some(s) => str_field(m, k) == Some(s@),
        None => !m.contains_key(k),
    }
}

/// Whether a parsed value has the shape of a workspace package section.
pub open spec fn ws_package_ok(m: Toml) -> bool {
    match m {
        Toml::Table(t) => {
            &&& str_field_ok(t, "version"@)
            &&& (t.contains_key("edition"@) ==> edition_ok(t["edition"@]))
            &&& str_field_ok(t, "rust-version"@)
            &&& (t.contains_key("authors"@) ==> (t["authors"@] matches Toml::Array(items)
                && authors_ok(items)))
            &&& str_field_ok(t, "description"@)
            &&& str_field_ok(t, "documentation"@)
            &&& str_field_ok(t, "readme"@)
            &&& str_field_ok(t, "homepage"@)
            &&& str_field_ok(t, "repository"@)
            &&& str_field_ok(t, "license"@)
            &&& str_field_ok(t, "license_file"@)
            &&& list_field_ok(t, "keywords"@)
            &&& list_field_ok(t, "categories"@)
            &&& bool_field_strict_ok(t, "publish"@)
            &&& list_field_ok(t, "exclude"@)
        },
        _ => false,
    }
}

/// Whether `p` is the workspace package section a parsed value describes.
pub open spec fn ws_package_matches(m: Toml, p: Package) -> bool {
    match m {
        Toml::Table(t) => {
            &&& opt_str_matches(t, "version"@, p.version)
            &&& match p.edition {
                Some(x) => t.contains_key("edition"@) && edition_ok(t["edition"@]) && x
                    == edition_of(t["edition"@]),
                None => !t.contains_key("edition"@),
            }
            &&& opt_str_matches(t, "rust-version"@, p.rust_version)
            &&& match p.authors {
                Some(aus) => t.contains_key("authors"@) && (t["authors"@] matches Toml::Array(
                    items,
                ) && authors_match(items, aus@)),
                None => !t.contains_key("authors"@),
            }
            &&& opt_str_matches(t, "description"@, p.description)
            &&& opt_str_matches(t, "documentation"@, p.documentation)
            &&& opt_str_matches(t, "readme"@, p.readme)
            &&& opt_str_matches(t, "homepage"@, p.homepage)
            &&& opt_str_matches(t, "repository"@, p.repository)
            &&& opt_str_matches(t, "license"@, p.license)
            &&& opt_str_matches(t, "license_file"@, p.license_file)
            &&& list_field_matches(t, "keywords"@, p.keywords)
            &&& list_field_matches(t, "categories"@, p.categories)
            &&& match p.publish {
                Some(x) => t.contains_key("publish"@) && t["publish"@] == Toml::Boolean(x),
                None => !t.contains_key("publish"@),
            }
            &&& list_field_matches(t, "exclude"@, p.exclude)
        },
        _ => false,
    }
}

/// Read an optional author-list field.
fn field_authors(t: &Table, key: &str) -> (r: Result<Option<Vec<Author>>, Error>)
    requires
        table_wf(*t),
    ensures
        match r {
            Ok(Some(aus)) => t@.contains_key(key@) && (t@[key@] matches Toml::Array(items)
                && authors_ok(items) && authors_match(items, aus@)),
            Ok(None) => !t@.contains_key(key@),
            Err(e) => t@.contains_key(key@) && !(t@[key@] matches Toml::Array(items)
                && authors_ok(items)) && e matches Error::Convert { .. },
        },
{
    match t.get(key) {
        None => Ok(None),
        Some(v) => match authors_of(v) {
            Ok(aus) => Ok(Some(aus)),
            Err(e) => Err(e),
        },
    }
}

impl Package {
    /// Read a workspace package section out of a parsed value.
    pub fn from_value(value: &Value) -> (r: Result<Package, Error>)
        requires
            value_wf(*value),
        ensures
            match r {
                Ok(p) => ws_package_ok(value@) && ws_package_matches(value@, p),
                Err(e) => !ws_package_ok(value@) && e matches Error::Convert { .. },
            },
    {
        let t = match value {
            Value::Table(t) => t,
            _ => {
                return Err(Error::Convert { from: "a value", to: "a workspace package" });
            },
        };
        let version = match get_string(t, "version") {
            Ok(x) => x,
            Err(e) => {
                return Err(e);
            },
        };
        let edition = match t.get("edition") {
            None => None,
            Some(v) => match RustEdition::from_value(v) {
                Ok(x) => Some(x),
                Err(e) => {
                    return Err(e);
                },
            },
        };
        let rust_version = match get_string(t, "rust-version") {
            Ok(x) => x,
            Err(e) => {
                return Err(e);
            },
        };
        let authors = match field_authors(t, "authors") {
            Ok(x) => x,
            Err(e) => {
                return Err(e);
            },
        };
        let description = match get_string(t, "description") {
            Ok(x) => x,
            Err(e) => {
                return Err(e);
            },
        };
        let documentation = match get_string(t, "documentation") {
            Ok(x) => x,
            Err(e) => {
                return Err(e);
            },
        };
        let readme = match get_string(t, "readme") {
            Ok(x) => x,
            Err(e) => {
                return Err(e);
            },
        };
        let homepage = match get_string(t, "homepage") {
            Ok(x) => x,
            Err(e) => {
                return Err(e);
            },
        };
        let repository = match get_string(t, "repository") {
            Ok(x) => x,
            Err(e) => {
                return Err(e);
            },
        };
        let license = match get_string(t, "license") {
            Ok(x) => x,
            Err(e) => {
                return Err(e);
            },
        };
        let license_file = match get_string(t, "license_file") {
            Ok(x) => x,
            Err(e) => {
                return Err(e);
            },
        };
        let keywords = match get_string_list(t, "keywords") {
            Ok(x) => x,
            Err(e) => {
                return Err(e);
            },
        };
        let categories = match get_string_list(t, "categories") {
            Ok(x) => x,
            Err(e) => {
                return Err(e);
            },
        };
        let publish = match get_bool_strict(t, "publish") {
            Ok(x) => x,
            Err(e) => {
                return Err(e);
            },
        };
        let exclude = match get_string_list(t, "exclude") {
            Ok(x) => x,
            Err(e) => {
                return Err(e);
            },
        };
        Ok(
            Package {
                version,
                edition,
                rust_version,
                authors,
                description,
                documentation,
                readme,
                homepage,
                repository,
                license,
                license_file,
                keywords,
                categories,
                publish,
                exclude,
            },
        )
    }

    /// The version.
    pub fn version(&self) -> (r: Option<&str>)
        ensures
            match r {
                Some(s) => self.version matches Some(v) && s@ == v@,
                None => self.version is None,
            },
    {
        match &self.version {
            Some(v) => Some(v.as_str()),
            None => None,
        }
    }

    /// The Rust edition.
    pub fn edition(&self) -> (r: Option<RustEdition>)
        ensures
            r == self.edition,
    {
        self.edition
    }

    /// The required Rust version.
    pub fn rust_version(&self) -> (r: Option<&str>)
        ensures
            match r {
                Some(s) => self.rust_version matches Some(v) && s@ == v@,
                None => self.rust_version is None,
            },
    {
        match &self.rust_version {
            Some(v) => Some(v.as_str()),
            None => None,
        }
    }

    /// The list of authors.
    pub fn authors(&self) -> (r: Option<&Vec<Author>>)
        ensures
            match r {
                Some(w) => self.authors matches Some(x) && w == &x,
                None => self.authors is None,
            },
    {
        match &self.authors {
            Some(w) => Some(w),
            None => None,
        }
    }

    /// The description.
    pub fn description(&self) -> (r: Option<&str>)
        ensures
            match r {
                Some(s) => self.description matches Some(v) && s@ == v@,
                None => self.description is None,
            },
    {
        match &self.description {
            Some(v) => Some(v.as_str()),
            None => None,
        }
    }

    /// The documentation URL.
    pub fn documentation(&self) -> (r: Option<&str>)
        ensures
            match r {
                Some(s) => self.documentation matches Some(v) && s@ == v@,
                None => self.documentation is None,
            },
    {
        match &self.documentation {
            Some(v) => Some(v.as_str()),
            None => None,
        }
    }

    /// The path to the README file.
    pub fn readme(&self) -> (r: Option<&str>)
        ensures
            match r {
                Some(s) => self.readme matches Some(v) && s@ == v@,
                None => self.readme is None,
            },
    {
        match &self.readme {
            Some(v) => Some(v.as_str()),
            None => None,
        }
    }

    /// The homepage URL.
    pub fn homepage(&self) -> (r: Option<&str>)
        ensures
            match r {
                Some(s) => self.homepage matches Some(v) && s@ == v@,
                None => self.homepage is None,
            },
    {
        match &self.homepage {
            Some(v) => Some(v.as_str()),
            None => None,
        }
    }

    /// The repository URL.
    pub fn repository(&self) -> (r: Option<&str>)
        ensures
            match r {
                Some(s) => self.repository matches Some(v) && s@ == v@,
                None => self.repository is None,
            },
    {
        match &self.repository {
            Some(v) => Some(v.as_str()),
            None => None,
        }
    }

    /// The license.
    pub fn license(&self) -> (r: Option<&str>)
        ensures
            match r {
                Some(s) => self.license matches Some(v) && s@ == v@,
                None => self.license is None,
            },
    {
        match &self.license {
            Some(v) => Some(v.as_str()),
            None => None,
        }
    }

    /// The path to the license file.
    pub fn license_file(&self) -> (r: Option<&str>)
        ensures
            match r {
                Some(s) => self.license_file matches Some(v) && s@ == v@,
                None => self.license_file is None,
            },
    {
        match &self.license_file {
            Some(v) => Some(v.as_str()),
            None => None,
        }
    }

    /// The keywords.
    pub fn keywords(&self) -> (r: Option<&Vec<String>>)
        ensures
            match r {
                Some(w) => self.keywords matches Some(x) && w == &x,
                None => self.keywords is None,
            },
    {
        match &self.keywords {
            Some(w) => Some(w),
            None => None,
        }
    }

    /// The categories.
    pub fn categories(&self) -> (r: Option<&Vec<String>>)
        ensures
            match r {
                Some(w) => self.categories matches Some(x) && w == &x,
                None => self.categories is None,
            },
    {
        match &self.categories {
            Some(w) => Some(w),
            None => None,
        }
    }

    /// Whether members may be published.
    pub fn publish(&self) -> (r: Option<bool>)
        ensures
            r == self.publish,
    {
        self.publish
    }

    /// The paths to exclude.
    pub fn exclude(&self) -> (r: Option<&Vec<String>>)
        ensures
            match r {
                Some(w) => self.exclude matches Some(x) && w == &x,
                None => self.exclude is None,
            },
    {
        match &self.exclude {
            Some(w) => Some(w),
            None => None,
        }
    }
}

/// The workspace information.
#[derive(Debug, Clone)]
pub struct Workspace {
    /// The package defaults.
    pub package: Option<Package>,
    /// The resolver version.
    pub resolver: Option<ResolverVersion>,
    /// The shared dependencies.
    pub dependencies: Option<Dependencies>,
    /// The workspace members.
    pub members: Option<Vec<String>>,
    /// The default workspace members.
    pub default_members: Option<Vec<String>>,
    /// The paths to exclude.
    pub exclude: Option<Vec<String>>,
    /// The free-form metadata table.
    pub metadata: Option<Table>,
    /// The lint configuration table.
    pub lints: Option<Table>,
}

/// Whether a parsed value has the shape of a workspace section.  The
/// metadata and lint tables are tracked by presence alone.
pub open spec fn workspace_ok(m: Toml) -> bool {
    match m {
        Toml::Table(t) => {
            &&& (t.contains_key("package"@) ==> ws_package_ok(t["package"@]))
            &&& (t.contains_key("resolver"@) ==> resolver_ok(t["resolver"@]))
            &&& dep_section_ok(t, "dependencies"@)
            &&& list_field_ok(t, "members"@)
            &&& list_field_ok(t, "default-members"@)
            &&& list_field_ok(t, "exclude"@)
            &&& (t.contains_key("metadata"@) ==> t["metadata"@] is Table)
            &&& (t.contains_key("lints"@) ==> t["lints"@] is Table)
        },
        _ => false,
    }
}

/// Whether `w` is the workspace section a parsed value describes.
pub open spec fn workspace_matches(m: Toml, w: Workspace) -> bool {
    match m {
        Toml::Table(t) => {
            &&& match w.package {
                Some(p) => t.contains_key("package"@) && ws_package_matches(t["package"@], p),
                None => !t.contains_key("package"@),
            }
            &&& match w.resolver {
                Some(x) => t.contains_key("resolver"@) && resolver_ok(t["resolver"@]) && x
                    == resolver_of(t["resolver"@]),
                None => !t.contains_key("resolver"@),
            }
            &&& dep_section_matches(t, "dependencies"@, w.dependencies)
            &&& list_field_matches(t, "members"@, w.members)
            &&& list_field_matches(t, "default-members"@, w.default_members)
            &&& list_field_matches(t, "exclude"@, w.exclude)
            &&& (w.metadata is Some <==> t.contains_key("metadata"@))
            &&& (w.lints is Some <==> t.contains_key("lints"@))
        },
        _ => false,
    }
}

/// Read an optional table field, by presence.
pub(crate) fn field_table(t: &Table, key: &str) -> (r: Result<Option<Table>, Error>)
    requires
        table_wf(*t),
    ensures
        match r {
            Ok(x) => (x is Some <==> t@.contains_key(key@)) && (t@.contains_key(key@)
                ==> t@[key@] is Table),
            Err(e) => t@.contains_key(key@) && !(t@[key@] is Table) && e matches Error::Convert {
                ..
            },
        },
{
    match t.get(key) {
        None => Ok(None),
        Some(v) => match v {
            Value::Table(mt) => Ok(Some(mt.clone())),
            _ => Err(Error::Convert { from: "a value", to: "a table" }),
        },
    }
}

impl Workspace {
    /// Read a workspace section out of a parsed value.
    pub fn from_value(value: &Value) -> (r: Result<Workspace, Error>)
        requires
            value_wf(*value),
        ensures
            match r {
                Ok(w) => workspace_ok(value@) && workspace_matches(value@, w),
                Err(e) => !workspace_ok(value@) && e matches Error::Convert { .. },
            },
    {
        let t = match value {
            Value::Table(t) => t,
            _ => {
                return Err(Error::Convert { from: "a value", to: "a workspace section" });
            },
        };
        let package = match t.get("package") {
            None => None,
            Some(v) => match Package::from_value(v) {
                Ok(p) => Some(p),
                Err(e) => {
                    return Err(e);
                },
            },
        };
        let resolver = match t.get("resolver") {
            None => None,
            Some(v) => match ResolverVersion::from_value(v) {
                Ok(x) => Some(x),
                Err(e) => {
                    return Err(e);
                },
            },
        };
        let dependencies = match dep_section(t, "dependencies") {
            Ok(d) => d,
            Err(e) => {
                return Err(e);
            },
        };
        let members = match get_string_list(t, "members") {
            Ok(x) => x,
            Err(e) => {
                return Err(e);
            },
        };
        let default_members = match get_string_list(t, "default-members") {
            Ok(x) => x,
            Err(e) => {
                return Err(e);
            },
        };
        let exclude = match get_string_list(t, "exclude") {
            Ok(x) => x,
            Err(e) => {
                return Err(e);
            },
        };
        let metadata = match field_table(t, "metadata") {
            Ok(x) => x,
            Err(e) => {
                return Err(e);
            },
        };
        let lints = match field_table(t, "lints") {
            Ok(x) => x,
            Err(e) => {
                return Err(e);
            },
        };
        Ok(
            Workspace {
                package,
                resolver,
                dependencies,
                members,
                default_members,
                exclude,
                metadata,
                lints,
            },
        )
    }

    /// The package defaults.
    pub fn package(&self) -> (r: Option<&Package>)
        ensures
            match r {
                Some(p) => self.package matches Some(x) && p == &x,
                None => self.package is None,
            },
    {
        match &self.package {
            Some(p) => Some(p),
            None => None,
        }
    }

    /// The resolver version.
    pub fn resolver(&self) -> (r: Option<ResolverVersion>)
        ensures
            r == self.resolver,
    {
        self.resolver
    }

    /// The shared dependencies.
    pub fn dependencies(&self) -> (r: Option<&Dependencies>)
        ensures
            match r {
                Some(d) => self.dependencies matches Some(x) && d == &x,
                None => self.dependencies is None,
            },
    {
        match &self.dependencies {
            Some(d) => Some(d),
            None => None,
        }
    }

    /// The workspace members.
    pub fn members(&self) -> (r: Option<&Vec<String>>)
        ensures
            match r {
                Some(w) => self.members matches Some(x) && w == &x,
                None => self.members is None,
            },
    {
        match &self.members {
            Some(w) => Some(w),
            None => None,
        }
    }

    /// The default workspace members.
    pub fn default_members(&self) -> (r: Option<&Vec<String>>)
        ensures
            match r {
                Some(w) => self.default_members matches Some(x) && w == &x,
                None => self.default_members is None,
            },
    {
        match &self.default_members {
            Some(w) => Some(w),
            None => None,
        }
    }

    /// The paths to exclude.
    pub fn exclude(&self) -> (r: Option<&Vec<String>>)
        ensures
            match r {
                Some(w) => self.exclude matches Some(x) && w == &x,
                None => self.exclude is None,
            },
    {
        match &self.exclude {
            Some(w) => Some(w),
            None => None,
        }
    }

    /// The free-form metadata table.
    pub fn metadata(&self) -> (r: Option<&Table>)
        ensures
            match r {
                Some(mt) => self.metadata matches Some(x) && mt == &x,
                None => self.metadata is None,
            },
    {
        match &self.metadata {
            Some(mt) => Some(mt),
            None => None,
        }
    }

    /// The lint configuration table.
    pub fn lints(&self) -> (r: Option<&Table>)
        ensures
            match r {
                Some(mt) => self.lints matches Some(x) && mt == &x,
                None => self.lints is None,
            },
    {
        match &self.lints {
            Some(mt) => Some(mt),
            None => None,
        }
    }
}

} // verus!
