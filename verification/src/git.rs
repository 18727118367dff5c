//! The version-control resolver: turns facts read from the repository,
//! together with the CI classification and the environment snapshot, into
//! the version-control part of the fact table.
//!
//! Branch resolution is the hard case: under a detached HEAD (common in CI
//! checkouts) the branch is recovered from CI-specific environment variables.

use vstd::prelude::*;
use vstd::string::StrSliceExecFns;
use vstd::string::StringExecFns;
use crate::ci::CIType;
use crate::env::EnvSnapshot;
use crate::env::env_lookup;
use crate::strings::strip_prefix_exec;
use crate::strings::strip_prefix_spec;
use crate::strings::upper;
use crate::table::ConstEntry;
use crate::table::ConstTable;
use crate::table::ConstType;
use crate::table::EntrySpec;
use crate::table::lookup_seq;

verus! {

/// The facts read directly from the repository's HEAD commit.
///
/// `branch` is absent when HEAD is detached; `tag` is absent when the commit
/// is not exactly tagged. Neither absence is an error.
pub struct RepoFacts {
    pub commit_hash: String,
    pub commit_date: String,
    pub author: String,
    pub email: String,
    pub branch: Option<String>,
    pub tag: Option<String>,
}

impl RepoFacts {
    /// A repository is usable only once it has a commit to describe.
    pub open spec fn wf(&self) -> bool {
        self.commit_hash@.len() > 0
    }
}

/// The stable-length short form of a commit hash: its first eight
/// characters, or the whole hash when it is shorter than that.
pub open spec fn short_of(h: Seq<char>) -> Seq<char> {
    if h.len() <= 8 {
        h
    } else {
        h.subrange(0, 8)
    }
}

/// The short hash of a non-empty commit hash is a non-empty prefix of it.
pub proof fn lemma_short_commit_is_prefix(h: Seq<char>)
    requires
        h.len() > 0,
    ensures
        short_of(h).len() > 0,
        short_of(h).is_prefix_of(h),
{
    if h.len() <= 8 {
        assert(h =~= h.subrange(0, h.len() as int));
    } else {
        assert(h.subrange(0, 8) =~= h.subrange(0, 8));
    }
}

/// The resolved branch name, if any: the branch HEAD points at when there is
/// one; under a detached HEAD, the CI-specific ref variable (GitLab's ref
/// name as is, GitHub's ref with its `refs/heads/` prefix removed).
pub open spec fn branch_value(
    head_branch: Option<Seq<char>>,
    ci: CIType,
    env: Seq<(Seq<char>, Seq<char>)>,
) -> Option<Seq<char>> {
    match head_branch {
        Some(b) => Some(b),
        None => match ci {
            CIType::Gitlab => env_lookup(env, "CI_COMMIT_REF_NAME"@),
            CIType::Github => match env_lookup(env, "GITHUB_REF"@) {
                Some(r) => Some(strip_prefix_spec(r, "refs/heads/"@)),
                None => None,
            },
            CIType::Nothing => None,
        },
    }
}

/// What the resolved table binds an optional fact to: a plain entry when the
/// value is present, an optional entry rendering empty when it is absent.
pub open spec fn opt_entry_matches(e: EntrySpec, v: Option<Seq<char>>) -> bool {
    match v {
        Some(s) => e.t == ConstType::Str && e.v == s,
        None => e.t == ConstType::OptStr && e.v.len() == 0,
    }
}

fn plain_entry(key: &str, desc: &str, v: String) -> (r: ConstEntry)
    ensures
        r@ == (EntrySpec { key: key@, desc: desc@, t: ConstType::Str, v: v@ }),
{
    ConstEntry::new(String::from_str(key), String::from_str(desc), ConstType::Str, v)
}

fn opt_entry(key: &str, desc: &str, v: &Option<String>) -> (r: ConstEntry)
    ensures
        r@.key == key@,
        r@.desc == desc@,
        opt_entry_matches(r@, match v {
            Some(s) => Some(s@),
            None => None,
        }),
{
    match v {
        Some(s) => ConstEntry::new(
            String::from_str(key),
            String::from_str(desc),
            ConstType::Str,
            s.clone(),
        ),
        None => ConstEntry::new(
            String::from_str(key),
            String::from_str(desc),
            ConstType::OptStr,
            String::new(),
        ),
    }
}

/// What the resolver promises of its table, over the repository facts, the
/// CI classification and the environment snapshot.
pub open spec fn vcs_resolved(
    s: Seq<EntrySpec>,
    facts: RepoFacts,
    ci: CIType,
    env: Seq<(Seq<char>, Seq<char>)>,
) -> bool {
    &&& lookup_seq(s, "COMMIT_HASH"@) matches Some(e) && e.t == ConstType::Str && e.v
        == facts.commit_hash@
    &&& lookup_seq(s, "SHORT_COMMIT"@) matches Some(e) && e.t == ConstType::Str && e.v
        == short_of(facts.commit_hash@)
    &&& lookup_seq(s, "COMMIT_DATE"@) matches Some(e) && e.t == ConstType::Str && e.v
        == facts.commit_date@
    &&& lookup_seq(s, "COMMIT_AUTHOR"@) matches Some(e) && e.t == ConstType::Str && e.v
        == facts.author@
    &&& lookup_seq(s, "COMMIT_EMAIL"@) matches Some(e) && e.t == ConstType::Str && e.v
        == facts.email@
    &&& lookup_seq(s, "BRANCH"@) matches Some(e) && opt_entry_matches(
        e,
        branch_value(
            match facts.branch {
                Some(b) => Some(b@),
                None => None,
            },
            ci,
            env,
        ),
    )
    &&& lookup_seq(s, "TAG"@) matches Some(e) && opt_entry_matches(
        e,
        match facts.tag {
            Some(t) => Some(t@),
            None => None,
        },
    )
}

/// For any valid repository with at least one commit, the resolved table
/// carries a non-empty full commit hash and a short hash that is a
/// non-empty prefix of it.
pub proof fn lemma_resolve_hash_prefix(
    s: Seq<EntrySpec>,
    facts: RepoFacts,
    ci: CIType,
    env: Seq<(Seq<char>, Seq<char>)>,
)
    requires
        facts.wf(),
        vcs_resolved(s, facts, ci, env),
    ensures
        lookup_seq(s, "COMMIT_HASH"@) matches Some(full) && full.v.len() > 0
            && (lookup_seq(s, "SHORT_COMMIT"@) matches Some(short) && short.v.len() > 0
            && short.v.is_prefix_of(full.v)),
{
    lemma_short_commit_is_prefix(facts.commit_hash@);
}

/// Resolves the version-control facts of one build into a fact table.
///
/// The table always carries the full commit hash, its short prefix, and the
/// commit's timestamp, author and email; branch and tag are optional entries
/// that render empty when they cannot be resolved.
pub fn resolve(facts: &RepoFacts, ci: CIType, env: &EnvSnapshot) -> (r: ConstTable)
    requires
        facts.wf(),
    ensures
        r.wf(),
        vcs_resolved(r@, *facts, ci, env@),
    {
    let mut r = ConstTable::new();
    proof {
        reveal_strlit("COMMIT_HASH");
        reveal_strlit("SHORT_COMMIT");
        reveal_strlit("COMMIT_DATE");
        reveal_strlit("COMMIT_AUTHOR");
        reveal_strlit("COMMIT_EMAIL");
        reveal_strlit("BRANCH");
        reveal_strlit("TAG");
        assert(upper("COMMIT_HASH"@) =~= "COMMIT_HASH"@);
        assert(upper("SHORT_COMMIT"@) =~= "SHORT_COMMIT"@);
        assert(upper("COMMIT_DATE"@) =~= "COMMIT_DATE"@);
        assert(upper("COMMIT_AUTHOR"@) =~= "COMMIT_AUTHOR"@);
        assert(upper("COMMIT_EMAIL"@) =~= "COMMIT_EMAIL"@);
        assert(upper("BRANCH"@) =~= "BRANCH"@);
        assert(upper("TAG"@) =~= "TAG"@);
        assert("COMMIT_HASH"@[7] != "COMMIT_DATE"@[7]);
        assert("COMMIT_HASH"@ != "COMMIT_DATE"@);
        assert("SHORT_COMMIT"@[0] != "COMMIT_EMAIL"@[0]);
        assert("SHORT_COMMIT"@ != "COMMIT_EMAIL"@);
    }
    r.insert(
        plain_entry("COMMIT_HASH", "the commit hash of this build", facts.commit_hash.clone()),
    );
    let short = short_commit(facts.commit_hash.as_str());
    r.insert(plain_entry("SHORT_COMMIT", "the short commit hash of this build", short));
    r.insert(
        plain_entry("COMMIT_DATE", "the timestamp of the commit of this build", facts.commit_date.clone()),
    );
    proof {
        assert(r.spec_lookup("COMMIT_HASH"@) matches Some(e) && e.t == ConstType::Str && e.v
            == facts.commit_hash@);
        assert(r.spec_lookup("SHORT_COMMIT"@) matches Some(e) && e.t == ConstType::Str && e.v
            == short_of(facts.commit_hash@));
    }
    r.insert(
        plain_entry("COMMIT_AUTHOR", "the author of the commit of this build", facts.author.clone()),
    );
    r.insert(
        plain_entry("COMMIT_EMAIL", "the author email of the commit of this build", facts.email.clone()),
    );
    proof {
        assert(r.spec_lookup("COMMIT_HASH"@) matches Some(e) && e.t == ConstType::Str && e.v
            == facts.commit_hash@);
        assert(r.spec_lookup("SHORT_COMMIT"@) matches Some(e) && e.t == ConstType::Str && e.v
            == short_of(facts.commit_hash@));
    }
    let branch = resolve_branch(facts, ci, env);
    r.insert(opt_entry("BRANCH", "the branch of this build", &branch));
    r.insert(opt_entry("TAG", "the tag of the commit of this build", &facts.tag));
    r
}

/// Cuts a commit hash down to its stable short form.
fn short_commit(hash: &str) -> (r: String)
    ensures
        r@ == short_of(hash@),
{
    let len = hash.unicode_len();
    if len <= 8 {
        String::from_str(hash)
    } else {
        let s = hash.substring_char(0, 8);
        proof {
            assert(hash@.subrange(0, 8) == short_of(hash@));
        }
        String::from_str(s)
    }
}

/// Resolves the branch name, falling back to CI-provided refs under a
/// detached HEAD.
fn resolve_branch(facts: &RepoFacts, ci: CIType, env: &EnvSnapshot) -> (r: Option<String>)
    ensures
        match r {
            Some(b) => branch_value(
                match facts.branch {
                    Some(x) => Some(x@),
                    None => None,
                },
                ci,
                env@,
            ) == Some(b@),
            None => branch_value(
                match facts.branch {
                    Some(x) => Some(x@),
                    None => None,
                },
                ci,
                env@,
            ) is None,
        },
{
    match &facts.branch {
        Some(b) => Some(b.clone()),
        None => match ci {
            CIType::Gitlab => match env.get("CI_COMMIT_REF_NAME") {
                Some(v) => Some(v.clone()),
                None => None,
            },
            CIType::Github => match env.get("GITHUB_REF") {
                Some(v) => Some(strip_prefix_exec(v.as_str(), "refs/heads/")),
                None => None,
            },
            CIType::Nothing => None,
        },
    }
}

} // verus!
