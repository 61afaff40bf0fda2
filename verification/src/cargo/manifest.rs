//! A parsed Cargo manifest.
use vstd::prelude::*;

use crate::cargo::bench::{bench_matches, bench_ok, Bench};
use crate::cargo::binary::{binary_matches, binary_ok, Binary};
use crate::cargo::dependency::Dependencies;
use crate::cargo::features::features_ok_map;
use crate::cargo::features::Features;
use crate::cargo::library::{library_matches, library_ok, Library};
use crate::cargo::package::{package_matches, package_ok, Package};
use crate::cargo::target::{dep_section, dep_section_matches, dep_section_ok, targets_ok_map, Targets};
use crate::cargo::test::{test_matches, test_ok, Test};
use crate::cargo::workspace::{workspace_matches, workspace_ok, Workspace};
use crate::error::Error;
use crate::table::Table;
use crate::value::{lemma_array_model, table_wf, value_model, value_wf, Toml, Value};

verus! {

/// A parsed Cargo manifest.
#[derive(Debug, Clone)]
pub struct Manifest {
    /// The package section.
    pub package: Option<Package>,
    /// The workspace section.
    pub workspace: Option<Workspace>,
    /// The dependencies.
    pub dependencies: Option<Dependencies>,
    /// The dev dependencies.
    pub dev_dependencies: Option<Dependencies>,
    /// The build dependencies.
    pub build_dependencies: Option<Dependencies>,
    /// The target sections.
    pub targets: Option<Targets>,
    /// The features section.
    pub features: Option<Features>,
    /// The library target.
    pub library: Option<Library>,
    /// The binary targets.
    pub binaries: Option<Vec<Binary>>,
    /// The example targets.
    pub examples: Option<Vec<Binary>>,
    /// The test targets.
    pub tests: Option<Vec<Test>>,
    /// The benchmark targets.
    pub benches: Option<Vec<Bench>>,
}

impl Manifest {
    /// Read a manifest out of a parsed root table.
    pub fn from_table(t: &Table) -> (r: Result<Manifest, Error>)
        requires
            table_wf(*t),
        ensures
            match r {
                Ok(m) => manifest_ok(t@) && manifest_matches(t@, m),
                Err(e) => !manifest_ok(t@) && e matches Error::Convert { .. },
            },
    {
        let package = match t.get("package") {
            None => None,
            Some(v) => match Package::from_value(v) {
                Ok(p) => Some(p),
                Err(e) => {
                    return Err(e);
                },
            },
        };
        let workspace = match t.get("workspace") {
            None => None,
            Some(v) => match Workspace::from_value(v) {
                Ok(w) => Some(w),
                Err(e) => {
                    return Err(e);
                },
            },
        };
        let dependencies = match dep_section(t, "dependencies") {
            Ok(d) => d,
            Err(e) => {
                return Err(e);
            },
        };
        let dev_dependencies = match dep_section(t, "dev-dependencies") {
            Ok(d) => d,
            Err(e) => {
                return Err(e);
            },
        };
        let build_dependencies = match dep_section(t, "build-dependencies") {
            Ok(d) => d,
            Err(e) => {
                return Err(e);
            },
        };
        let targets = match t.get("target") {
            None => None,
            Some(v) => match Targets::from_value(v) {
                Ok(x) => Some(x),
                Err(e) => {
                    return Err(e);
                },
            },
        };
        let features = match t.get("features") {
            None => None,
            Some(v) => match Features::from_value(v) {
                Ok(x) => Some(x),
                Err(e) => {
                    return Err(e);
                },
            },
        };
        let library = match t.get("lib") {
            None => None,
            Some(v) => match Library::from_value(v) {
                Ok(x) => Some(x),
                Err(e) => {
                    return Err(e);
                },
            },
        };
        let binaries = match t.get("bin") {
            None => None,
            Some(v) => match binaries_of(v) {
                Ok(x) => Some(x),
                Err(e) => {
                    return Err(e);
                },
            },
        };
        let examples = match t.get("example") {
            None => None,
            Some(v) => match binaries_of(v) {
                Ok(x) => Some(x),
                Err(e) => {
                    return Err(e);
                },
            },
        };
        let tests = match t.get("test") {
            None => None,
            Some(v) => match tests_of(v) {
                Ok(x) => Some(x),
                Err(e) => {
                    return Err(e);
                },
            },
        };
        let benches = match t.get("bench") {
            None => None,
            Some(v) => match benches_of(v) {
                Ok(x) => Some(x),
                Err(e) => {
                    return Err(e);
                },
            },
        };
        Ok(
            Manifest {
                package,
                workspace,
                dependencies,
                dev_dependencies,
                build_dependencies,
                targets,
                features,
                library,
                binaries,
                examples,
                tests,
                benches,
            },
        )
    }

    /// Parse a whole Cargo manifest document.
    pub fn from_toml(input: &str) -> (r: Result<Manifest, Error>)
        ensures
            match r {
                Ok(m) => crate::parse::spec_parse_document(input@) matches Some(doc)
                    && manifest_ok(doc) && manifest_matches(doc, m),
                Err(e) => match crate::parse::spec_parse_document(input@) {
                    Some(doc) => !manifest_ok(doc) && e matches Error::Convert { .. },
                    None => e matches Error::Parse(_),
                },
            },
    {
        let t = match crate::parse::parse(input) {
            Ok(t) => t,
            Err(e) => {
                return Err(e);
            },
        };
        Manifest::from_table(&t)
    }

    /// The package section.
    pub fn package(&self) -> (r: Option<&Package>)
        ensures
            match r {
                Some(p) => self.package matches Some(x) && p == &x,
                None => self.package is None,
            },
    {
        match &self.package {
            Some(p) => Some(p),
            None => None,
        }
    }

    /// The workspace section.
    pub fn workspace(&self) -> (r: Option<&Workspace>)
        ensures
            match r {
                Some(p) => self.workspace matches Some(x) && p == &x,
                None => self.workspace is None,
            },
    {
        match &self.workspace {
            Some(p) => Some(p),
            None => None,
        }
    }

    /// The dependencies.
    pub fn dependencies(&self) -> (r: Option<&Dependencies>)
        ensures
            match r {
                Some(p) => self.dependencies matches Some(x) && p == &x,
                None => self.dependencies is None,
            },
    {
        match &self.dependencies {
            Some(p) => Some(p),
            None => None,
        }
    }

    /// The dev dependencies.
    pub fn dev_dependencies(&self) -> (r: Option<&Dependencies>)
        ensures
            match r {
                Some(p) => self.dev_dependencies matches Some(x) && p == &x,
                None => self.dev_dependencies is None,
            },
    {
        match &self.dev_dependencies {
            Some(p) => Some(p),
            None => None,
        }
    }

    /// The build dependencies.
    pub fn build_dependencies(&self) -> (r: Option<&Dependencies>)
        ensures
            match r {
                Some(p) => self.build_dependencies matches Some(x) && p == &x,
                None => self.build_dependencies is None,
            },
    {
        match &self.build_dependencies {
            Some(p) => Some(p),
            None => None,
        }
    }

    /// The target sections.
    pub fn targets(&self) -> (r: Option<&Targets>)
        ensures
            match r {
                Some(p) => self.targets matches Some(x) && p == &x,
                None => self.targets is None,
            },
    {
        match &self.targets {
            Some(p) => Some(p),
            None => None,
        }
    }

    /// The features section.
    pub fn features(&self) -> (r: Option<&Features>)
        ensures
            match r {
                Some(p) => self.features matches Some(x) && p == &x,
                None => self.features is None,
            },
    {
        match &self.features {
            Some(p) => Some(p),
            None => None,
        }
    }

    /// The library target.
    pub fn library(&self) -> (r: Option<&Library>)
        ensures
            match r {
                Some(p) => self.library matches Some(x) && p == &x,
                None => self.library is None,
            },
    {
        match &self.library {
            Some(p) => Some(p),
            None => None,
        }
    }

    /// The binary targets.
    pub fn binaries(&self) -> (r: Option<&Vec<Binary>>)
        ensures
            match r {
                Some(p) => self.binaries matches Some(x) && p == &x,
                None => self.binaries is None,
            },
    {
        match &self.binaries {
            Some(p) => Some(p),
            None => None,
        }
    }

    /// The example targets.
    pub fn examples(&self) -> (r: Option<&Vec<Binary>>)
        ensures
            match r {
                Some(p) => self.examples matches Some(x) && p == &x,
                None => self.examples is None,
            },
    {
        match &self.examples {
            Some(p) => Some(p),
            None => None,
        }
    }

    /// The test targets.
    pub fn tests(&self) -> (r: Option<&Vec<Test>>)
        ensures
            match r {
                Some(p) => self.tests matches Some(x) && p == &x,
                None => self.tests is None,
            },
    {
        match &self.tests {
            Some(p) => Some(p),
            None => None,
        }
    }

    /// The benchmark targets.
    pub fn benches(&self) -> (r: Option<&Vec<Bench>>)
        ensures
            match r {
                Some(p) => self.benches matches Some(x) && p == &x,
                None => self.benches is None,
            },
    {
        match &self.benches {
            Some(p) => Some(p),
            None => None,
        }
    }
}

/// Whether `b` holds the binary targets an array model describes.
pub open spec fn binaries_match(items: Seq<Toml>, out: Seq<Binary>) -> bool {
    &&& out.len() == items.len()
    &&& forall|i: int|
        0 <= i < items.len() ==> (binary_ok(#[trigger] items[i]) && binary_matches(
            items[i],
            out[i],
        ))
}

/// Read an array of binary targets.
fn binaries_of(value: &Value) -> (r: Result<Vec<Binary>, Error>)
    requires
        value_wf(*value),
    ensures
        match r {
            Ok(bs) => value@ matches Toml::Array(items) && binaries_list_ok(items) && binaries_match(
                items,
                bs@,
            ),
            Err(e) => !(value@ matches Toml::Array(items) && binaries_list_ok(items)) && e
                matches Error::Convert { .. },
        },
{
    match value {
        Value::Array(a) => {
            proof {
                lemma_array_model(a.items@);
            }
            let mut out: Vec<Binary> = Vec::new();
            let n = a.items.len();
            let mut i: usize = 0;
            while i < n
                invariant
                    i <= n,
                    n == a.items@.len(),
                    out@.len() == i,
                    value_wf(*value),
                    *value == Value::Array(*a),
                    forall|k: int|
                        0 <= k < i ==> (binary_ok(
                            #[trigger] crate::value::array_model(a.items@)[k],
                        ) && binary_matches(crate::value::array_model(a.items@)[k], out@[k])),
                    forall|k: int|
                        0 <= k < n ==> crate::value::array_model(a.items@)[k] == value_model(
                            #[trigger] a.items@[k],
                        ),
                decreases n - i,
            {
                proof {
                    assert(value_wf(a.items@[i as int]));
                }
                match Binary::from_value(&a.items[i]) {
                    Ok(b) => {
                        out.push(b);
                    },
                    Err(e) => {
                        proof {
                            lemma_array_model(a.items@);
                            assert(crate::value::array_model(a.items@)[i as int] == value_model(
                                a.items@[i as int],
                            ));
                        }
                        return Err(e);
                    },
                }
                i = i + 1;
            }
            Ok(out)
        },
        _ => Err(Error::Convert { from: "a value", to: "a list of binary targets" }),
    }
}

/// Whether `out` holds the test targets an array model describes.
pub open spec fn tests_match(items: Seq<Toml>, out: Seq<Test>) -> bool {
    &&& out.len() == items.len()
    &&& forall|i: int|
        0 <= i < items.len() ==> (test_ok(#[trigger] items[i]) && test_matches(items[i], out[i]))
}

/// Read an array of test targets.
fn tests_of(value: &Value) -> (r: Result<Vec<Test>, Error>)
    requires
        value_wf(*value),
    ensures
        match r {
            Ok(bs) => value@ matches Toml::Array(items) && tests_list_ok(items) && tests_match(
                items,
                bs@,
            ),
            Err(e) => !(value@ matches Toml::Array(items) && tests_list_ok(items)) && e
                matches Error::Convert { .. },
        },
{
    match value {
        Value::Array(a) => {
            proof {
                lemma_array_model(a.items@);
            }
            let mut out: Vec<Test> = Vec::new();
            let n = a.items.len();
            let mut i: usize = 0;
            while i < n
                invariant
                    i <= n,
                    n == a.items@.len(),
                    out@.len() == i,
                    value_wf(*value),
                    *value == Value::Array(*a),
                    forall|k: int|
                        0 <= k < i ==> (test_ok(#[trigger] crate::value::array_model(a.items@)[k])
                            && test_matches(crate::value::array_model(a.items@)[k], out@[k])),
                    forall|k: int|
                        0 <= k < n ==> crate::value::array_model(a.items@)[k] == value_model(
                            #[trigger] a.items@[k],
                        ),
                decreases n - i,
            {
                proof {
                    assert(value_wf(a.items@[i as int]));
                }
                match Test::from_value(&a.items[i]) {
                    Ok(b) => {
                        out.push(b);
                    },
                    Err(e) => {
                        proof {
                            lemma_array_model(a.items@);
                            assert(crate::value::array_model(a.items@)[i as int] == value_model(
                                a.items@[i as int],
                            ));
                        }
                        return Err(e);
                    },
                }
                i = i + 1;
            }
            Ok(out)
        },
        _ => Err(Error::Convert { from: "a value", to: "a list of test targets" }),
    }
}

/// Whether `out` holds the benchmark targets an array model describes.
pub open spec fn benches_match(items: Seq<Toml>, out: Seq<Bench>) -> bool {
    &&& out.len() == items.len()
    &&& forall|i: int|
        0 <= i < items.len() ==> (bench_ok(#[trigger] items[i]) && bench_matches(
            items[i],
            out[i],
        ))
}

/// Read an array of benchmark targets.
fn benches_of(value: &Value) -> (r: Result<Vec<Bench>, Error>)
    requires
        value_wf(*value),
    ensures
        match r {
            Ok(bs) => value@ matches Toml::Array(items) && benches_list_ok(items) && benches_match(
                items,
                bs@,
            ),
            Err(e) => !(value@ matches Toml::Array(items) && benches_list_ok(items)) && e
                matches Error::Convert { .. },
        },
{
    match value {
        Value::Array(a) => {
            proof {
                lemma_array_model(a.items@);
            }
            let mut out: Vec<Bench> = Vec::new();
            let n = a.items.len();
            let mut i: usize = 0;
            while i < n
                invariant
                    i <= n,
                    n == a.items@.len(),
                    out@.len() == i,
                    value_wf(*value),
                    *value == Value::Array(*a),
                    forall|k: int|
                        0 <= k < i ==> (bench_ok(#[trigger] crate::value::array_model(a.items@)[k])
                            && bench_matches(crate::value::array_model(a.items@)[k], out@[k])),
                    forall|k: int|
                        0 <= k < n ==> crate::value::array_model(a.items@)[k] == value_model(
                            #[trigger] a.items@[k],
                        ),
                decreases n - i,
            {
                proof {
                    assert(value_wf(a.items@[i as int]));
                }
                match Bench::from_value(&a.items[i]) {
                    Ok(b) => {
                        out.push(b);
                    },
                    Err(e) => {
                        proof {
                            lemma_array_model(a.items@);
                            assert(crate::value::array_model(a.items@)[i as int] == value_model(
                                a.items@[i as int],
                            ));
                        }
                        return Err(e);
                    },
                }
                i = i + 1;
            }
            Ok(out)
        },
        _ => Err(Error::Convert { from: "a value", to: "a list of benchmark targets" }),
    }
}

/// Whether every element of an array model is a well-shaped binary
/// target.
pub open spec fn binaries_list_ok(items: Seq<Toml>) -> bool {
    forall|i: int| 0 <= i < items.len() ==> binary_ok(#[trigger] items[i])
}

/// Whether every element of an array model is a well-shaped test target.
pub open spec fn tests_list_ok(items: Seq<Toml>) -> bool {
    forall|i: int| 0 <= i < items.len() ==> test_ok(#[trigger] items[i])
}

/// Whether every element of an array model is a well-shaped benchmark
/// target.
pub open spec fn benches_list_ok(items: Seq<Toml>) -> bool {
    forall|i: int| 0 <= i < items.len() ==> bench_ok(#[trigger] items[i])
}

/// Whether the root table model has the shape of a manifest: each section
/// it holds is well shaped.
pub open spec fn manifest_ok(t: Map<Seq<char>, Toml>) -> bool {
    &&& (t.contains_key("package"@) ==> package_ok(t["package"@]))
    &&& (t.contains_key("workspace"@) ==> workspace_ok(t["workspace"@]))
    &&& dep_section_ok(t, "dependencies"@)
    &&& dep_section_ok(t, "dev-dependencies"@)
    &&& dep_section_ok(t, "build-dependencies"@)
    &&& (t.contains_key("target"@) ==> (t["target"@] matches Toml::Table(sub) && targets_ok_map(
        sub,
    )))
    &&& (t.contains_key("features"@) ==> (t["features"@] matches Toml::Table(sub)
        && features_ok_map(sub)))
    &&& (t.contains_key("lib"@) ==> library_ok(t["lib"@]))
    &&& (t.contains_key("bin"@) ==> (t["bin"@] matches Toml::Array(items) && binaries_list_ok(
        items,
    )))
    &&& (t.contains_key("example"@) ==> (t["example"@] matches Toml::Array(items)
        && binaries_list_ok(items)))
    &&& (t.contains_key("test"@) ==> (t["test"@] matches Toml::Array(items) && tests_list_ok(
        items,
    )))
    &&& (t.contains_key("bench"@) ==> (t["bench"@] matches Toml::Array(items)
        && benches_list_ok(items)))
}

/// Whether `m` is the manifest the root table model describes.
pub open spec fn manifest_matches(t: Map<Seq<char>, Toml>, m: Manifest) -> bool {
    &&& match m.package {
        Some(p) => t.contains_key("package"@) && package_matches(t["package"@], p),
        None => !t.contains_key("package"@),
    }
    &&& match m.workspace {
        Some(w) => t.contains_key("workspace"@) && workspace_matches(t["workspace"@], w),
        None => !t.contains_key("workspace"@),
    }
    &&& dep_section_matches(t, "dependencies"@, m.dependencies)
    &&& dep_section_matches(t, "dev-dependencies"@, m.dev_dependencies)
    &&& dep_section_matches(t, "build-dependencies"@, m.build_dependencies)
    &&& match m.targets {
        Some(x) => t.contains_key("target"@) && (t["target"@] matches Toml::Table(sub)),
        None => !t.contains_key("target"@),
    }
    &&& match m.features {
        Some(x) => t.contains_key("features"@) && (t["features"@] matches Toml::Table(sub)),
        None => !t.contains_key("features"@),
    }
    &&& match m.library {
        Some(x) => t.contains_key("lib"@) && library_ok(t["lib"@]) && library_matches(
            t["lib"@],
            x,
        ),
        None => !t.contains_key("lib"@),
    }
    &&& match m.binaries {
        Some(x) => t.contains_key("bin"@) && (t["bin"@] matches Toml::Array(items)
            && binaries_match(items, x@)),
        None => !t.contains_key("bin"@),
    }
    &&& match m.examples {
        Some(x) => t.contains_key("example"@) && (t["example"@] matches Toml::Array(items)
            && binaries_match(items, x@)),
        None => !t.contains_key("example"@),
    }
    &&& match m.tests {
        Some(x) => t.contains_key("test"@) && (t["test"@] matches Toml::Array(items)
            && tests_match(items, x@)),
        None => !t.contains_key("test"@),
    }
    &&& match m.benches {
        Some(x) => t.contains_key("bench"@) && (t["bench"@] matches Toml::Array(items)
            && benches_match(items, x@)),
        None => !t.contains_key("bench"@),
    }
}

} // verus!
