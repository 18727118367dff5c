use shadow_rs::CIType;
use shadow_rs::EnvSnapshot;
use shadow_rs::detect;

fn snapshot(vars: &[(&str, &str)]) -> EnvSnapshot {
    let owned: Vec<(String, String)> =
        vars.iter().map(|(k, v)| (k.to_string(), v.to_string())).collect();
    EnvSnapshot::new(owned)
}

#[test]
fn detect_gitlab_before_github() {
    let env = snapshot(&[("GITLAB_CI", "true"), ("GITHUB_ACTIONS", "true")]);
    assert_eq!(detect(&env), CIType::Gitlab);
}

#[test]
fn detect_github() {
    let env = snapshot(&[("GITHUB_ACTIONS", "true")]);
    assert_eq!(detect(&env), CIType::Github);
}

#[test]
fn detect_requires_literal_true() {
    let env = snapshot(&[("GITLAB_CI", "1"), ("GITHUB_ACTIONS", "True")]);
    assert_eq!(detect(&env), CIType::Nothing);
}

#[test]
fn detect_empty_environment() {
    let env = EnvSnapshot::empty();
    assert_eq!(detect(&env), CIType::Nothing);
}
