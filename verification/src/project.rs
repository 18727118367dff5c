//! Glue for the project and toolchain fact provider: already-resolved,
//! opaque string facts are taken in as optional values, and the absent ones
//! are simply omitted from the table rather than aborting the run.

use vstd::prelude::*;
use crate::strings::upper;
use crate::table::ConstEntry;
use crate::table::ConstTable;
use crate::table::ConstType;
use crate::table::EntrySpec;
use crate::table::lookup_seq;

verus! {

/// One externally resolved fact: a key, its description, and its value when
/// the collaborator could resolve it.
pub struct Fact {
    pub key: String,
    pub desc: String,
    pub value: Option<String>,
}

/// The mathematical image of one fact.
pub struct FactSpec {
    pub key: Seq<char>,
    pub desc: Seq<char>,
    pub value: Option<Seq<char>>,
}

impl View for Fact {
    type V = FactSpec;

    open spec fn view(&self) -> FactSpec {
        FactSpec {
            key: self.key@,
            desc: self.desc@,
            value: match self.value {
                Some(v) => Some(v@),
                None => None,
            },
        }
    }
}

impl DeepView for Fact {
    type V = FactSpec;

    open spec fn deep_view(&self) -> FactSpec {
        self.view()
    }
}

impl Fact {
    /// Builds a fact from its parts.
    pub fn new(key: String, desc: String, value: Option<String>) -> (r: Fact)
        ensures
            r.key@ == key@,
            r.desc@ == desc@,
            r@.value == (match value {
                Some(v) => Some(v@),
                None => None,
            }),
    {
        Fact { key, desc, value }
    }
}

/// The table binding a sequence of facts produces for a key: the last
/// present fact with that (upper-cased) key wins; absent facts are skipped.
pub open spec fn facts_merged(s: Seq<FactSpec>, k: Seq<char>) -> Option<EntrySpec>
    decreases s.len(),
{
    if s.len() == 0 {
        None
    } else if upper(s.last().key) == k && s.last().value is Some {
        Some(
            EntrySpec {
                key: k,
                desc: s.last().desc,
                t: ConstType::Str,
                v: s.last().value->0,
            },
        )
    } else {
        facts_merged(s.drop_last(), k)
    }
}

/// Collects the present facts into a table; a fact whose value could not be
/// resolved is omitted without failing the run.
pub fn facts_table(facts: &Vec<Fact>) -> (r: ConstTable)
    ensures
        r.wf(),
        forall|k: Seq<char>|
            #![trigger r.spec_lookup(k)]
            r.spec_lookup(k) == facts_merged(facts.deep_view(), k),
{
    let mut r = ConstTable::new();
    let n = facts.len();
    let mut i: usize = 0;
    proof {
        assert(facts.deep_view().subrange(0, 0) =~= Seq::<FactSpec>::empty());
        assert forall|k: Seq<char>| lookup_seq(r@, k) is None by {
            crate::table::lemma_lookup_absent(r@, k);
        }
    }
    while i < n
        invariant
            n == facts.len(),
            n == facts.deep_view().len(),
            0 <= i <= n,
            r.wf(),
            forall|k: Seq<char>|
                #![trigger r.spec_lookup(k)]
                r.spec_lookup(k) == facts_merged(facts.deep_view().subrange(0, i as int), k),
        decreases n - i,
    {
        let ghost prev = r@;
        let ghost fv = facts.deep_view()[i as int];
        proof {
            assert(facts.deep_view()[i as int] == facts[i as int].deep_view());
        }
        let present = match &facts[i].value {
            Some(v) => {
                r.insert(
                    ConstEntry::new(
                        facts[i].key.clone(),
                        facts[i].desc.clone(),
                        ConstType::Str,
                        v.clone(),
                    ),
                );
                true
            },
            None => false,
        };
        proof {
            let pre = facts.deep_view().subrange(0, i as int);
            let post = facts.deep_view().subrange(0, i + 1);
            assert(post.drop_last() =~= pre);
            assert(post.last() == fv);
            assert forall|k: Seq<char>| true implies #[trigger] lookup_seq(r@, k)
                == facts_merged(post, k) by {
                assert(r.spec_lookup(k) == lookup_seq(r@, k));
                if present {
                    if k == upper(fv.key) {
                        assert(lookup_seq(r@, k) == Some(
                            EntrySpec { key: upper(fv.key), desc: fv.desc, t: ConstType::Str, v: fv.value->0 },
                        ));
                    } else {
                        assert(lookup_seq(r@, k) == lookup_seq(prev, k));
                    }
                } else {
                    assert(r@ == prev);
                }
            }
        }
        i = i + 1;
    }
    proof {
        assert(facts.deep_view().subrange(0, n as int) =~= facts.deep_view());
    }
    r
}

} // verus!
