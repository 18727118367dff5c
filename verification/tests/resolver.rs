use shadow_rs::CIType;
use shadow_rs::EnvSnapshot;
use shadow_rs::git::RepoFacts;
use shadow_rs::git::resolve;
use shadow_rs::table::ConstType;

fn facts(branch: Option<&str>, tag: Option<&str>) -> RepoFacts {
    RepoFacts {
        commit_hash: "386741540d73c194a3028b96b92fdeb53ca2788a".to_string(),
        commit_date: "2020-08-16 13:12:52".to_string(),
        author: "somebody".to_string(),
        email: "somebody@example.com".to_string(),
        branch: branch.map(|b| b.to_string()),
        tag: tag.map(|t| t.to_string()),
    }
}

fn snapshot(vars: &[(&str, &str)]) -> EnvSnapshot {
    let owned: Vec<(String, String)> =
        vars.iter().map(|(k, v)| (k.to_string(), v.to_string())).collect();
    EnvSnapshot::new(owned)
}

#[test]
fn resolve_hash_and_short_prefix() {
    let t = resolve(&facts(Some("master"), None), CIType::Nothing, &EnvSnapshot::empty());
    let full = t.get("COMMIT_HASH").expect("full hash entry");
    let short = t.get("SHORT_COMMIT").expect("short hash entry");
    assert!(!full.v.is_empty());
    assert_eq!(short.v, "38674154");
    assert!(full.v.starts_with(&short.v));
}

#[test]
fn resolve_commit_metadata() {
    let t = resolve(&facts(Some("master"), None), CIType::Nothing, &EnvSnapshot::empty());
    assert_eq!(t.get("COMMIT_DATE").unwrap().v, "2020-08-16 13:12:52");
    assert_eq!(t.get("COMMIT_AUTHOR").unwrap().v, "somebody");
    assert_eq!(t.get("COMMIT_EMAIL").unwrap().v, "somebody@example.com");
}

#[test]
fn resolve_branch_from_head() {
    let env = snapshot(&[("GITHUB_REF", "refs/heads/other")]);
    let t = resolve(&facts(Some("master"), None), CIType::Github, &env);
    let b = t.get("BRANCH").expect("branch entry");
    assert_eq!(b.t, ConstType::Str);
    assert_eq!(b.v, "master");
}

#[test]
fn resolve_detached_head_github() {
    let env = snapshot(&[("GITHUB_REF", "refs/heads/main")]);
    let t = resolve(&facts(None, None), CIType::Github, &env);
    let b = t.get("BRANCH").expect("branch entry");
    assert_eq!(b.t, ConstType::Str);
    assert_eq!(b.v, "main");
}

#[test]
fn resolve_detached_head_gitlab() {
    let env = snapshot(&[("CI_COMMIT_REF_NAME", "dev")]);
    let t = resolve(&facts(None, None), CIType::Gitlab, &env);
    let b = t.get("BRANCH").expect("branch entry");
    assert_eq!(b.t, ConstType::Str);
    assert_eq!(b.v, "dev");
}

#[test]
fn resolve_detached_head_without_ci() {
    let t = resolve(&facts(None, None), CIType::Nothing, &EnvSnapshot::empty());
    let b = t.get("BRANCH").expect("branch entry");
    assert_eq!(b.t, ConstType::OptStr);
    assert_eq!(b.v, "");
}

#[test]
fn resolve_tag_present_and_absent() {
    let tagged = resolve(&facts(Some("master"), Some("v1.0.0")), CIType::Nothing, &EnvSnapshot::empty());
    let e = tagged.get("TAG").expect("tag entry");
    assert_eq!(e.t, ConstType::Str);
    assert_eq!(e.v, "v1.0.0");

    let untagged = resolve(&facts(Some("master"), None), CIType::Nothing, &EnvSnapshot::empty());
    let e = untagged.get("TAG").expect("tag entry");
    assert_eq!(e.t, ConstType::OptStr);
    assert_eq!(e.v, "");
}
