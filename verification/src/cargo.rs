//! A schema layer over the parsed tree for the Cargo manifest dialect:
//! package, dependency and target declarations, read out of a parsed
//! table.
pub mod author;
pub mod bench;
pub mod binary;
pub mod dependency;
pub mod dev_dependency;
pub mod example;
pub mod features;
pub mod library;
pub mod manifest;
pub mod package;
pub mod resolver_version;
pub mod rust_edition;
pub mod target;
pub mod test;
pub mod workspace;

pub use author::Author;
pub use bench::Bench;
pub use binary::Binary;
pub use dependency::{Dependencies, Dependency, Git, GitCommit, Source};
pub use dev_dependency::{BuildDependencies, BuildDependency, DevDependencies, DevDependency};
pub use example::Example;
pub use features::Features;
pub use library::{Library, LibraryType};
pub use manifest::Manifest;
pub use package::{Package, WorkspaceInheritable};
pub use resolver_version::ResolverVersion;
pub use rust_edition::RustEdition;
pub use target::{Target, Targets};
pub use test::Test;
pub use workspace::Workspace;
