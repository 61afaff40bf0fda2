use tomling::{parse, Array, Table, Value};
use tomling::cargo::{Manifest, ResolverVersion, RustEdition};

fn s(text: &str) -> Value {
    Value::String(text.to_string())
}

fn arr(vals: &[&str]) -> Value {
    let mut a = Array::new();
    for v in vals {
        a.push(s(v));
    }
    Value::Array(a)
}

#[test]
fn simple_cargo_toml() {
    let mut map = Table::new();

    let mut version = Table::new();
    version.insert("workspace".to_string(), Value::Boolean(true));
    let mut package = Table::new();
    package.insert("name".to_string(), s("example"));
    package.insert("version".to_string(), Value::Table(version));
    package.insert("edition".to_string(), s("2021"));
    package.insert("resolver".to_string(), s("2"));
    package.insert(
        "authors".to_string(),
        arr(&["Alice Great <foo@bar.com>", "Bob Less"]),
    );
    map.insert("package".to_string(), Value::Table(package));

    let mut serde = Table::new();
    serde.insert("version".to_string(), s("1.0"));
    serde.insert("features".to_string(), arr(&["std", "derive"]));
    let mut dep_from_git = Table::new();
    dep_from_git.insert("git".to_string(), s("https://github.com/zeenix/dep-from-git"));
    dep_from_git.insert("branch".to_string(), s("main"));
    let mut dep_from_path = Table::new();
    dep_from_path.insert("path".to_string(), s("../dep-from-path"));
    let mut dependencies = Table::new();
    dependencies.insert("serde".to_string(), Value::Table(serde));
    dependencies.insert("regex".to_string(), s("1.5"));
    dependencies.insert("dep-from-git".to_string(), Value::Table(dep_from_git));
    dependencies.insert("dep-from-path".to_string(), Value::Table(dep_from_path));
    map.insert("dependencies".to_string(), Value::Table(dependencies));

    let mut cc = Table::new();
    cc.insert("cc".to_string(), s("1.0.3"));
    let mut build_deps = Table::new();
    build_deps.insert("build-dependencies".to_string(), Value::Table(cc));
    let mut target = Table::new();
    target.insert("cfg(unix)".to_string(), Value::Table(build_deps));
    map.insert("target".to_string(), Value::Table(target));

    let mut features = Table::new();
    features.insert("default".to_string(), arr(&["serde"]));
    map.insert("features".to_string(), Value::Table(features));

    let mut binary = Table::new();
    binary.insert("name".to_string(), s("some-binary"));
    binary.insert("path".to_string(), s("src/bin/my-binary.rs"));
    let mut bins = Array::new();
    bins.push(Value::Table(binary));
    map.insert("bin".to_string(), Value::Array(bins));

    let parsed_map = parse(CARGO_TOML).unwrap();
    assert_eq!(parsed_map, map);
}

#[test]
fn simple_cargo_toml_serde() {
    let manifest: Manifest = Manifest::from_toml(CARGO_TOML).unwrap();

    let package = manifest.package().unwrap();
    assert_eq!(package.name(), "example");
    assert!(package.version().unwrap().inherited());
    assert_eq!(
        package.edition().unwrap().uninherited_ref().unwrap(),
        &RustEdition::E2021,
    );
    assert_eq!(package.resolver().unwrap(), ResolverVersion::V2);
    let authors = package.authors().unwrap().uninherited_ref().unwrap();
    let alice = &authors[0];
    assert_eq!(alice.name(), "Alice Great");
    assert_eq!(alice.email(), Some("foo@bar.com"));
    let bob = &authors[1];
    assert_eq!(bob.name(), "Bob Less");
    assert_eq!(bob.email(), None);

    let serde = manifest.dependencies().unwrap().by_name("serde").unwrap();
    assert_eq!(serde.version().unwrap(), "1.0");
    let features: Vec<&str> = serde
        .features()
        .unwrap()
        .iter()
        .map(|f| f.as_str())
        .collect();
    assert_eq!(features, vec!["std", "derive"]);

    let regex = manifest.dependencies().unwrap().by_name("regex").unwrap();
    assert_eq!(regex.version().unwrap(), "1.5");
    let dep_from_git = manifest
        .dependencies()
        .unwrap()
        .by_name("dep-from-git")
        .unwrap();
    let git = dep_from_git.source().unwrap().git().unwrap();
    assert_eq!(git.repository(), "https://github.com/zeenix/dep-from-git");
    let commit = git.commit().unwrap();
    assert_eq!(commit.branch().unwrap(), "main");
    assert!(commit.revision().is_none());
    assert!(commit.tag().is_none());

    let cc = manifest
        .targets()
        .unwrap()
        .by_name("cfg(unix)")
        .unwrap()
        .build_dependencies()
        .unwrap()
        .by_name("cc")
        .unwrap();
    assert_eq!(cc.version().unwrap(), "1.0.3");

    let default: Vec<&str> = manifest
        .features()
        .unwrap()
        .by_name("default")
        .unwrap()
        .iter()
        .map(|f| f.as_str())
        .collect();
    assert_eq!(default, vec!["serde"]);

    let binary = &manifest.binaries().unwrap()[0];
    assert_eq!(binary.name(), "some-binary");
    assert_eq!(binary.path(), Some("src/bin/my-binary.rs"));
}

#[test]
fn test_escape_sequences_basic_strings() {
    let toml_str = r#"
        str1 = "This is a backslash: \\"
        str2 = "This is a double quote: \""
        str3 = "This is a backspace: \b"
        str4 = "This is a tab: \t"
        str5 = "This is a newline: \n"
        str6 = "This is a form feed: \f"
        str7 = "This is a carriage return: \r"
        str8 = "This is a unicode character: \u0041"
        str9 = "This is another unicode character: \U00000041"
    "#;

    let parsed_map = parse(toml_str).unwrap();
    assert_eq!(
        parsed_map.get("str1").unwrap().as_str().unwrap(),
        "This is a backslash: \\"
    );
    assert_eq!(
        parsed_map.get("str2").unwrap().as_str().unwrap(),
        "This is a double quote: \""
    );
    assert_eq!(
        parsed_map.get("str3").unwrap().as_str().unwrap(),
        "This is a backspace: \x08"
    );
    assert_eq!(
        parsed_map.get("str4").unwrap().as_str().unwrap(),
        "This is a tab: \t"
    );
    assert_eq!(
        parsed_map.get("str5").unwrap().as_str().unwrap(),
        "This is a newline: \n"
    );
    assert_eq!(
        parsed_map.get("str6").unwrap().as_str().unwrap(),
        "This is a form feed: \x0C"
    );
    assert_eq!(
        parsed_map.get("str7").unwrap().as_str().unwrap(),
        "This is a carriage return: \r"
    );
    assert_eq!(
        parsed_map.get("str8").unwrap().as_str().unwrap(),
        "This is a unicode character: A"
    );
    assert_eq!(
        parsed_map.get("str9").unwrap().as_str().unwrap(),
        "This is another unicode character: A"
    );
}

#[test]
fn test_escape_sequences_multiline_basic_strings() {
    let toml_str = r#"
        str1 = """This is a backslash: \\"""
        str2 = """This is a double quote: \""""
        str3 = """This is a backspace: \b"""
        str4 = """This is a tab: \t"""
        str5 = """This is a newline: \n"""
        str6 = """This is a form feed: \f"""
        str7 = """This is a carriage return: \r"""
        str8 = """This is a unicode character: \u0041"""
        str9 = """This is another unicode character: \U00000041"""
    "#;

    let parsed_map = parse(toml_str).unwrap();
    assert_eq!(
        parsed_map.get("str1").unwrap().as_str().unwrap(),
        "This is a backslash: \\"
    );
    assert_eq!(
        parsed_map.get("str2").unwrap().as_str().unwrap(),
        "This is a double quote: \""
    );
    assert_eq!(
        parsed_map.get("str3").unwrap().as_str().unwrap(),
        "This is a backspace: \x08"
    );
    assert_eq!(
        parsed_map.get("str4").unwrap().as_str().unwrap(),
        "This is a tab: \t"
    );
    assert_eq!(
        parsed_map.get("str5").unwrap().as_str().unwrap(),
        "This is a newline: \n"
    );
    assert_eq!(
        parsed_map.get("str6").unwrap().as_str().unwrap(),
        "This is a form feed: \x0C"
    );
    assert_eq!(
        parsed_map.get("str7").unwrap().as_str().unwrap(),
        "This is a carriage return: \r"
    );
    assert_eq!(
        parsed_map.get("str8").unwrap().as_str().unwrap(),
        "This is a unicode character: A"
    );
    assert_eq!(
        parsed_map.get("str9").unwrap().as_str().unwrap(),
        "This is another unicode character: A"
    );
}

const CARGO_TOML: &str = r#"
[package]
name = "example"
version.workspace = true
edition = "2021"
authors = ["Alice Great <foo@bar.com>", "Bob Less"]
resolver = "2"

# This is a comment.
[dependencies]
# a comment.
serde = { version = "1.0", features = [
    # A comment here.
    "std",
    # A multiline
    # comment here.
    "derive", # and here.
] }
regex = "1.5" # This is also a comment.
dep-from-git = { git = "https://github.com/zeenix/dep-from-git", branch = "main" }
dep-from-path = { path = "../dep-from-path" }

[target.'cfg(unix)'.build-dependencies]
cc = "1.0.3"

[features]
default = ["serde"]

[[bin]]
name = "some-binary"
path = "src/bin/my-binary.rs"

"#;
