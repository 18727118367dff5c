//! Classification of the continuous-integration platform running the build.
//!
//! The detector is a table of rules — an indicator variable, the value that
//! activates it, and the platform it indicates — checked in a fixed order,
//! so that further platforms can be added without touching the resolver.

use vstd::prelude::*;
use crate::env::EnvSnapshot;
use crate::env::env_lookup;
use crate::strings::str_eq;

verus! {

/// The continuous-integration platform a build runs under.
///
/// Unrecognized platforms are reported as `Nothing`: metadata resolution
/// degrades gracefully rather than failing on an unknown platform.
#[derive(Clone, Copy, Debug, PartialEq, Eq, Structural)]
pub enum CIType {
    Gitlab,
    Github,
    Nothing,
}

/// The detection rules in their documented precedence: GitLab's indicator
/// is checked before GitHub's, and an indicator counts only when set to the
/// literal `true`.
pub open spec fn ci_rules() -> Seq<(Seq<char>, Seq<char>, CIType)> {
    seq![
        ("GITLAB_CI"@, "true"@, CIType::Gitlab),
        ("GITHUB_ACTIONS"@, "true"@, CIType::Github),
    ]
}

/// The platform the first matching rule indicates, or `Nothing`.
pub open spec fn detect_by_rules(
    rules: Seq<(Seq<char>, Seq<char>, CIType)>,
    env: Seq<(Seq<char>, Seq<char>)>,
) -> CIType
    decreases rules.len(),
{
    if rules.len() == 0 {
        CIType::Nothing
    } else if env_lookup(env, rules[0].0) == Some(rules[0].1) {
        rules[0].2
    } else {
        detect_by_rules(rules.drop_first(), env)
    }
}

/// The platform a snapshot indicates.
pub open spec fn detect_spec(env: Seq<(Seq<char>, Seq<char>)>) -> CIType {
    detect_by_rules(ci_rules(), env)
}

/// The rule table spelt out: the fixed, stable precedence the detector obeys.
pub proof fn lemma_detect_precedence(env: Seq<(Seq<char>, Seq<char>)>)
    ensures
        detect_spec(env) == (if env_lookup(env, "GITLAB_CI"@) == Some("true"@) {
            CIType::Gitlab
        } else if env_lookup(env, "GITHUB_ACTIONS"@) == Some("true"@) {
            CIType::Github
        } else {
            CIType::Nothing
        }),
{
    let rules = ci_rules();
    let rest = seq![("GITHUB_ACTIONS"@, "true"@, CIType::Github)];
    assert(rules[0] == ("GITLAB_CI"@, "true"@, CIType::Gitlab));
    assert(rest[0] == ("GITHUB_ACTIONS"@, "true"@, CIType::Github));
    assert(rules.drop_first() =~= rest);
    assert(rest.drop_first() =~= Seq::<(Seq<char>, Seq<char>, CIType)>::empty());
    assert(detect_by_rules(rest.drop_first(), env) == CIType::Nothing);
    assert(detect_by_rules(rest, env) == (if env_lookup(env, "GITHUB_ACTIONS"@) == Some(
        "true"@,
    ) {
        CIType::Github
    } else {
        CIType::Nothing
    }));
}

/// Classifies the CI platform from an environment snapshot: the first rule
/// whose indicator variable is set to its activating value wins.
pub fn detect(env: &EnvSnapshot) -> (r: CIType)
    ensures
        r == detect_spec(env@),
{
    let mut rules: Vec<(&str, &str, CIType)> = Vec::new();
    rules.push(("GITLAB_CI", "true", CIType::Gitlab));
    rules.push(("GITHUB_ACTIONS", "true", CIType::Github));
    proof {
        assert(rules@.len() == 2);
        assert forall|j: int| 0 <= j < rules@.len() implies (
            #[trigger] rules@[j].0@,
            rules@[j].1@,
            rules@[j].2,
        ) == ci_rules()[j] by {}
    }
    let n = rules.len();
    let mut i: usize = 0;
    proof {
        assert(ci_rules().skip(0) =~= ci_rules());
    }
    while i < n
        invariant
            n == rules@.len(),
            n == ci_rules().len(),
            0 <= i <= n,
            forall|j: int|
                0 <= j < n ==> ((#[trigger] rules@[j].0@, rules@[j].1@, rules@[j].2)
                    == ci_rules()[j]),
            detect_spec(env@) == detect_by_rules(ci_rules().skip(i as int), env@),
        decreases n - i,
    {
        proof {
            assert(ci_rules().skip(i as int)[0] == ci_rules()[i as int]);
        }
        let matched = match env.get(rules[i].0) {
            Some(v) => str_eq(v.as_str(), rules[i].1),
            None => false,
        };
        if matched {
            return rules[i].2;
        }
        proof {
            crate::strings::lemma_skip_first(ci_rules(), i as int);
        }
        i = i + 1;
    }
    proof {
        assert(ci_rules().skip(n as int).len() == 0);
    }
    CIType::Nothing
}

} // verus!
