//! One generation pass: destination-path handling and the fixed, documented
//! composition of the fact providers into the merged table.

use vstd::prelude::*;
use vstd::string::StrSliceExecFns;
use vstd::string::StringExecFns;
use crate::ci::detect;
use crate::ci::detect_spec;
use crate::env::EnvSnapshot;
use crate::git::RepoFacts;
use crate::git::resolve;
use crate::git::vcs_resolved;
use crate::project::Fact;
use crate::project::facts_merged;
use crate::project::facts_table;
use crate::table::ConstTable;
use crate::table::EntrySpec;
use crate::table::lookup_seq;
use crate::table::merge;
use crate::table::merged_lookup;

verus! {

/// The artifact's path under an output directory, tolerating directories
/// given with or without a trailing separator.
pub open spec fn output_path_spec(dir: Seq<char>) -> Seq<char> {
    if dir.len() > 0 && dir.last() == '/' {
        dir + "shadow.rs"@
    } else {
        dir + "/shadow.rs"@
    }
}

/// A directory named with or without its trailing separator yields the same
/// artifact path.
pub proof fn lemma_trailing_slash_irrelevant(dir: Seq<char>)
    requires
        dir.len() == 0 || dir.last() != '/',
    ensures
        output_path_spec(dir.push('/')) == output_path_spec(dir),
{
    reveal_strlit("shadow.rs");
    reveal_strlit("/shadow.rs");
    assert(dir.push('/').last() == '/');
    assert(dir.push('/') + "shadow.rs"@ =~= dir + "/shadow.rs"@);
}

/// Joins the output directory and the fixed artifact name.
pub fn output_file_path(dir: &str) -> (r: String)
    ensures
        r@ == output_path_spec(dir@),
{
    let len = dir.unicode_len();
    let mut r = String::from_str(dir);
    if len > 0 && dir.get_char(len - 1) == '/' {
        r.append("shadow.rs");
    } else {
        r.append("/shadow.rs");
    }
    r
}

/// The relation between one pass's merged table and the three provider
/// tables it merges: the version-control table resolved from the repository
/// facts, and the two fact-provider tables, merged in that order with
/// last-writer-wins precedence.
pub open spec fn pass_tables(
    r: ConstTable,
    vcs: Seq<EntrySpec>,
    proj: Seq<EntrySpec>,
    sys: Seq<EntrySpec>,
    repo: RepoFacts,
    project: Seq<crate::project::FactSpec>,
    system: Seq<crate::project::FactSpec>,
    env: Seq<(Seq<char>, Seq<char>)>,
) -> bool {
    &&& vcs_resolved(vcs, repo, detect_spec(env), env)
    &&& (forall|k: Seq<char>| #[trigger] lookup_seq(proj, k) == facts_merged(project, k))
    &&& (forall|k: Seq<char>| #[trigger] lookup_seq(sys, k) == facts_merged(system, k))
    &&& (forall|k: Seq<char>| #[trigger]
        r.spec_lookup(k) == merged_lookup(seq![vcs, proj, sys], k))
}

/// Builds the merged fact table of one pass: version-control facts first,
/// then project facts, then environment/system facts, with last-writer-wins
/// precedence on any shared key. This provider order is a contract: later
/// providers can override earlier defaults.
pub fn build_table(
    repo: &RepoFacts,
    project: &Vec<Fact>,
    system: &Vec<Fact>,
    env: &EnvSnapshot,
) -> (r: ConstTable)
    requires
        repo.wf(),
    ensures
        r.wf(),
        exists|vcs: Seq<EntrySpec>, proj: Seq<EntrySpec>, sys: Seq<EntrySpec>| #[trigger]
            pass_tables(
                r,
                vcs,
                proj,
                sys,
                *repo,
                project.deep_view(),
                system.deep_view(),
                env@,
            ),
{
    let ci = detect(env);
    let vcs = resolve(repo, ci, env);
    let proj = facts_table(project);
    let sys = facts_table(system);
    let ghost vcs_v = vcs@;
    let ghost proj_v = proj@;
    let ghost sys_v = sys@;
    let ghost proj_t = proj;
    let ghost sys_t = sys;
    let mut tables: Vec<ConstTable> = Vec::new();
    tables.push(vcs);
    tables.push(proj);
    tables.push(sys);
    proof {
        assert(tables.deep_view() =~= seq![vcs_v, proj_v, sys_v]);
    }
    let r = merge(&tables);
    proof {
        assert(vcs_resolved(vcs_v, *repo, detect_spec(env@), env@));
        assert forall|k: Seq<char>| #[trigger]
            lookup_seq(proj_v, k) == facts_merged(project.deep_view(), k) by {
            assert(proj_t.spec_lookup(k) == facts_merged(project.deep_view(), k));
        }
        assert forall|k: Seq<char>| #[trigger]
            lookup_seq(sys_v, k) == facts_merged(system.deep_view(), k) by {
            assert(sys_t.spec_lookup(k) == facts_merged(system.deep_view(), k));
        }
        assert forall|k: Seq<char>| #[trigger]
            r.spec_lookup(k) == merged_lookup(seq![vcs_v, proj_v, sys_v], k) by {
            assert(r.spec_lookup(k) == merged_lookup(tables.deep_view(), k));
        }
        assert(pass_tables(
            r,
            vcs_v,
            proj_v,
            sys_v,
            *repo,
            project.deep_view(),
            system.deep_view(),
            env@,
        ));
    }
    r
}

} // verus!
