use shadow_rs::BuildRustChannel;
use shadow_rs::EnvSnapshot;
use shadow_rs::build_channel;
use shadow_rs::git::RepoFacts;
use shadow_rs::is_debug;
use shadow_rs::project::Fact;
use shadow_rs::project::facts_table;
use shadow_rs::run::build_table;
use shadow_rs::run::output_file_path;

fn fact(key: &str, v: Option<&str>) -> Fact {
    Fact::new(key.to_string(), format!("the {} fact", key), v.map(|s| s.to_string()))
}

fn repo() -> RepoFacts {
    RepoFacts {
        commit_hash: "8405e28e64080a09525a6cf1b07c22fcaf71a5c5".to_string(),
        commit_date: "2020-08-16T06:22:24+00:00".to_string(),
        author: "somebody".to_string(),
        email: "somebody@example.com".to_string(),
        branch: Some("master".to_string()),
        tag: None,
    }
}

#[test]
fn output_path_tolerates_trailing_slash() {
    assert_eq!(output_file_path("./out"), "./out/shadow.rs");
    assert_eq!(output_file_path("./out/"), "./out/shadow.rs");
}

#[test]
fn facts_table_omits_absent_facts() {
    let t = facts_table(&vec![
        fact("PKG_VERSION", Some("0.3.13")),
        fact("CARGO_TREE", None),
    ]);
    assert_eq!(t.get("PKG_VERSION").unwrap().v, "0.3.13");
    assert!(t.get("CARGO_TREE").is_none());
}

#[test]
fn facts_table_last_fact_wins() {
    let t = facts_table(&vec![
        fact("BUILD_OS", Some("linux-x86_64")),
        fact("BUILD_OS", Some("macos-x86_64")),
    ]);
    assert_eq!(t.get("BUILD_OS").unwrap().v, "macos-x86_64");
}

#[test]
fn build_table_merges_providers_in_order() {
    let project = vec![
        fact("PKG_VERSION", Some("0.3.13")),
        fact("BUILD_TIME", Some("from-project")),
    ];
    let system = vec![fact("BUILD_TIME", Some("from-system"))];
    let t = build_table(&repo(), &project, &system, &EnvSnapshot::empty());
    assert_eq!(t.get("COMMIT_HASH").unwrap().v, "8405e28e64080a09525a6cf1b07c22fcaf71a5c5");
    assert_eq!(t.get("SHORT_COMMIT").unwrap().v, "8405e28e");
    assert_eq!(t.get("BRANCH").unwrap().v, "master");
    assert_eq!(t.get("PKG_VERSION").unwrap().v, "0.3.13");
    assert_eq!(t.get("BUILD_TIME").unwrap().v, "from-system");
}

#[test]
fn build_table_lets_providers_override_vcs() {
    let system = vec![fact("BRANCH", Some("overridden"))];
    let t = build_table(&repo(), &Vec::new(), &system, &EnvSnapshot::empty());
    assert_eq!(t.get("BRANCH").unwrap().v, "overridden");
}

#[test]
fn full_pass_renders_tagged_build() {
    let mut tagged = repo();
    tagged.tag = Some("v1.0.0".to_string());
    let project = vec![fact("PKG_VERSION", Some("0.3.13"))];
    let table = build_table(&tagged, &project, &Vec::new(), &EnvSnapshot::empty());
    let out = shadow_rs::gen::generate(&table, "2020-08-16 13:48:52").unwrap();
    assert!(out.contains("pub const TAG :&str = r#\"v1.0.0\"#;"));
    assert!(out.contains("pub const PKG_VERSION :&str = r#\"0.3.13\"#;"));
    assert!(out.contains("tag:"));
    assert!(!out.contains("branch:"));
}

#[test]
fn channel_classification() {
    assert_eq!(build_channel("release"), BuildRustChannel::Release);
    assert_eq!(build_channel("debug"), BuildRustChannel::Debug);
    assert_eq!(build_channel(""), BuildRustChannel::Debug);
}

#[test]
fn is_debug_reports_channel() {
    assert!(is_debug(BuildRustChannel::Debug));
    assert!(!is_debug(BuildRustChannel::Release));
}

#[test]
fn env_snapshot_first_binding_wins() {
    let env = EnvSnapshot::new(vec![
        ("PATHLIKE".to_string(), "first".to_string()),
        ("PATHLIKE".to_string(), "second".to_string()),
    ]);
    assert_eq!(env.get("PATHLIKE").unwrap(), "first");
    assert!(env.get("ABSENT").is_none());
}
