use shadow_rs::ShadowError;
use shadow_rs::gen::generate;
use shadow_rs::gen::generate_now;
use shadow_rs::table::ConstEntry;
use shadow_rs::table::ConstTable;
use shadow_rs::table::ConstType;

fn entry(key: &str, desc: &str, t: ConstType, v: &str) -> ConstEntry {
    ConstEntry::new(key.to_string(), desc.to_string(), t, v.to_string())
}

fn sample_table() -> ConstTable {
    let mut t = ConstTable::new();
    t.insert(entry("PKG_VERSION", "the package version", ConstType::Str, "1.0.0"));
    t.insert(entry("BRANCH", "the branch of this build", ConstType::Str, "master"));
    t.insert(entry("TAG", "the tag of this build", ConstType::OptStr, ""));
    t
}

#[test]
fn generate_is_deterministic() {
    let t1 = sample_table();
    let t2 = sample_table();
    let out1 = generate(&t1, "2020-08-16 13:48:52").unwrap();
    let out2 = generate(&t2, "2020-08-16 13:48:52").unwrap();
    assert_eq!(out1, out2);
}

#[test]
fn generate_tag_flavor() {
    let mut t = sample_table();
    t.insert(entry("TAG", "the tag of this build", ConstType::Str, "v1.0.0"));
    let out = generate(&t, "ts").unwrap();
    assert!(out.contains("tag:"));
    assert!(!out.contains("branch:"));
    assert!(out.contains(", TAG, SHORT_COMMIT"));
}

#[test]
fn generate_branch_flavor_without_tag() {
    let mut t = ConstTable::new();
    t.insert(entry("PKG_VERSION", "the package version", ConstType::Str, "1.0.0"));
    let out = generate(&t, "ts").unwrap();
    assert!(out.contains("branch:"));
    assert!(!out.contains("tag:"));
}

#[test]
fn generate_branch_flavor_with_empty_tag() {
    let out = generate(&sample_table(), "ts").unwrap();
    assert!(out.contains("branch:"));
    assert!(!out.contains("tag:"));
}

#[test]
fn generate_sorted_verbatim_round_trip() {
    let mut t = ConstTable::new();
    t.insert(entry("ZULU", "the last key", ConstType::Str, "z-value"));
    t.insert(entry("ALPHA", "the first key", ConstType::Str, "a value with \"quotes\" inside"));
    t.insert(entry("MIKE", "the middle key", ConstType::Str, "line one\nline two"));
    let out = generate(&t, "ts").unwrap();

    let a = out.find("pub const ALPHA").expect("alpha emitted");
    let m = out.find("pub const MIKE").expect("mike emitted");
    let z = out.find("pub const ZULU").expect("zulu emitted");
    assert!(a < m && m < z, "constants are sorted by key");

    assert_eq!(out.matches("pub const ALPHA").count(), 1);
    assert_eq!(out.matches("pub const MIKE").count(), 1);
    assert_eq!(out.matches("pub const ZULU").count(), 1);

    assert!(out.contains("pub const ALPHA :&str = r#\"a value with \"quotes\" inside\"#;"));
    assert!(out.contains("pub const MIKE :&str = r#\"line one\nline two\"#;"));
    assert!(out.contains("pub const ZULU :&str = r#\"z-value\"#;"));
}

#[test]
fn generate_optional_value_renders_empty() {
    let out = generate(&sample_table(), "ts").unwrap();
    assert!(out.contains("pub const TAG :&str = r#\"\"#;"));
}

#[test]
fn generate_rejects_delimiter_collision() {
    let mut t = ConstTable::new();
    t.insert(entry("BAD", "a value that would corrupt the artifact", ConstType::Str, "oops\"#;pub fn x(){}"));
    assert_eq!(generate(&t, "ts"), Err(ShadowError::ValueDelimiterCollision));
}

#[test]
fn generate_exact_output() {
    let mut t = ConstTable::new();
    t.insert(entry("PKG_VERSION", "the package version", ConstType::Str, "0.3.13"));
    let out = generate(&t, "2020-08-16 13:48:52").unwrap();
    let expected = r##"/// Code generated by shadow-rs generator. DO NOT EDIT.
/// Create time by:2020-08-16 13:48:52


/// the package version
#[allow(dead_code)]
pub const PKG_VERSION :&str = r#"0.3.13"#;

/// The common version method. It's so easy to use this method
#[allow(dead_code)]
pub fn version() -> String {
    format!(r#"
pkg_version:{}
branch:{}
commit_hash:{}
build_time:{}
build_env:{},{}"#,PKG_VERSION, BRANCH, SHORT_COMMIT, BUILD_TIME, RUST_VERSION, RUST_CHANNEL
    )
}

"##;
    assert_eq!(out, expected);
}

#[test]
fn generate_now_renders_the_table() {
    let out = generate_now(&sample_table()).unwrap();
    assert!(out.starts_with("/// Code generated by shadow-rs generator. DO NOT EDIT.\n/// Create time by:"));
    assert!(out.contains("pub const PKG_VERSION :&str = r#\"1.0.0\"#;"));
}
