//! The fact table: a flat mapping from constant names to string-valued
//! entries, with unique upper-case keys kept in lexicographic order so that
//! every observable iteration is deterministic.

use vstd::prelude::*;
use crate::strings::lemma_lex_lt_connected;
use crate::strings::lemma_lex_lt_irrefl;
use crate::strings::lemma_lex_lt_trans;
use crate::strings::lex_lt;
use crate::strings::str_eq;
use crate::strings::str_lt;
use crate::strings::to_upper;
use crate::strings::upper;

verus! {

/// The kind of a table entry.
///
/// `OptStr` marks a logically absent optional value; it is rendered as an
/// empty string of the plain string type, by design rather than as an error.
#[derive(Clone, Copy, Debug, PartialEq, Eq, Structural)]
pub enum ConstType {
    Str,
    OptStr,
}

/// One named constant: key, one-line description, kind and raw value.
#[derive(Debug)]
pub struct ConstEntry {
    pub key: String,
    pub desc: String,
    pub t: ConstType,
    pub v: String,
}

/// The mathematical image of one entry.
pub struct EntrySpec {
    pub key: Seq<char>,
    pub desc: Seq<char>,
    pub t: ConstType,
    pub v: Seq<char>,
}

impl View for ConstEntry {
    type V = EntrySpec;

    open spec fn view(&self) -> EntrySpec {
        EntrySpec { key: self.key@, desc: self.desc@, t: self.t, v: self.v@ }
    }
}

impl DeepView for ConstEntry {
    type V = EntrySpec;

    open spec fn deep_view(&self) -> EntrySpec {
        self.view()
    }
}

impl ConstEntry {
    /// Builds an entry from its parts.
    pub fn new(key: String, desc: String, t: ConstType, v: String) -> (r: ConstEntry)
        ensures
            r@ == (EntrySpec { key: key@, desc: desc@, t: t, v: v@ }),
    {
        ConstEntry { key, desc, t, v }
    }

    /// A field-for-field copy of the entry.
    pub fn duplicate(&self) -> (r: ConstEntry)
        ensures
            r@ == self@,
    {
        ConstEntry {
            key: self.key.clone(),
            desc: self.desc.clone(),
            t: self.t,
            v: self.v.clone(),
        }
    }
}

/// The string an entry renders as: absent optional values render empty.
pub open spec fn rendered_value(e: EntrySpec) -> Seq<char> {
    match e.t {
        ConstType::Str => e.v,
        ConstType::OptStr => Seq::<char>::empty(),
    }
}

/// The first entry bound to `key` in a sequence of entries.
pub open spec fn lookup_seq(s: Seq<EntrySpec>, key: Seq<char>) -> Option<EntrySpec>
    decreases s.len(),
{
    if s.len() == 0 {
        None
    } else if s[0].key == key {
        Some(s[0])
    } else {
        lookup_seq(s.drop_first(), key)
    }
}

/// Entries in strictly increasing key order (hence with unique keys).
pub open spec fn sorted_by_key(s: Seq<EntrySpec>) -> bool {
    forall|i: int, j: int| 0 <= i < j < s.len() ==> lex_lt(s[i].key, s[j].key)
}

/// Every key already in its canonical upper-case form.
pub open spec fn keys_normalized(s: Seq<EntrySpec>) -> bool {
    forall|i: int| 0 <= i < s.len() ==> s[i].key == upper(s[i].key)
}

/// In a sorted sequence, the entry at any index is what lookup finds.
pub proof fn lemma_lookup_index(s: Seq<EntrySpec>, i: int)
    requires
        sorted_by_key(s),
        0 <= i < s.len(),
    ensures
        lookup_seq(s, s[i].key) == Some(s[i]),
    decreases s.len(),
{
    if i == 0 {
    } else {
        assert(lex_lt(s[0].key, s[i].key));
        if s[0].key == s[i].key {
            lemma_lex_lt_irrefl(s[0].key);
        }
        let t = s.drop_first();
        assert forall|p: int, q: int| 0 <= p < q < t.len() implies lex_lt(t[p].key, t[q].key) by {
            assert(t[p] == s[p + 1]);
            assert(t[q] == s[q + 1]);
        }
        assert(t[i - 1] == s[i]);
        lemma_lookup_index(t, i - 1);
    }
}

/// A key bound at no index is not found.
pub proof fn lemma_lookup_absent(s: Seq<EntrySpec>, key: Seq<char>)
    requires
        forall|i: int| 0 <= i < s.len() ==> s[i].key != key,
    ensures
        lookup_seq(s, key) is None,
    decreases s.len(),
{
    if s.len() > 0 {
        let t = s.drop_first();
        assert forall|i: int| 0 <= i < t.len() implies t[i].key != key by {
            assert(t[i] == s[i + 1]);
        }
        lemma_lookup_absent(t, key);
    }
}

/// What a successful lookup returns stands at some index.
pub proof fn lemma_lookup_some_index(s: Seq<EntrySpec>, key: Seq<char>)
    requires
        lookup_seq(s, key) is Some,
    ensures
        exists|i: int|
            0 <= i < s.len() && s[i].key == key && lookup_seq(s, key) == Some(s[i]),
    decreases s.len(),
{
    if s.len() > 0 && s[0].key != key {
        lemma_lookup_some_index(s.drop_first(), key);
        let i = choose|i: int|
            0 <= i < s.drop_first().len() && s.drop_first()[i].key == key && lookup_seq(
                s.drop_first(),
                key,
            ) == Some(s.drop_first()[i]);
        assert(s[i + 1] == s.drop_first()[i]);
    }
}

/// The merged fact table, keyed by constant name.
///
/// Keys are unique and upper-case, and the entries are kept sorted by key so
/// that rendering the table is reproducible.
pub struct ConstTable {
    entries: Vec<ConstEntry>,
}

impl View for ConstTable {
    type V = Seq<EntrySpec>;

    closed spec fn view(&self) -> Seq<EntrySpec> {
        self.entries.deep_view()
    }
}

impl DeepView for ConstTable {
    type V = Seq<EntrySpec>;

    open spec fn deep_view(&self) -> Seq<EntrySpec> {
        self.view()
    }
}

impl ConstTable {
    /// The table's invariant: sorted unique keys, all upper-case.
    pub open spec fn wf(&self) -> bool {
        sorted_by_key(self@) && keys_normalized(self@)
    }

    /// What the table binds `key` to.
    pub open spec fn spec_lookup(&self, key: Seq<char>) -> Option<EntrySpec> {
        lookup_seq(self@, key)
    }

    /// An empty table.
    pub fn new() -> (r: ConstTable)
        ensures
            r.wf(),
            r@ == Seq::<EntrySpec>::empty(),
    {
        let entries: Vec<ConstEntry> = Vec::new();
        proof {
            assert(entries.deep_view() =~= Seq::<EntrySpec>::empty());
        }
        ConstTable { entries }
    }

    /// The number of entries.
    pub fn len(&self) -> (r: usize)
        ensures
            r == self@.len(),
    {
        self.entries.len()
    }

    /// The entry at a position, in key order.
    pub fn entry_at(&self, i: usize) -> (r: &ConstEntry)
        requires
            i < self@.len(),
        ensures
            r@ == self@[i as int],
    {
        &self.entries[i]
    }

    /// Finds the entry bound to `key`, if any.
    pub fn get(&self, key: &str) -> (r: Option<&ConstEntry>)
        requires
            self.wf(),
        ensures
            match r {
                Some(e) => self.spec_lookup(key@) == Some(e@),
                None => self.spec_lookup(key@) is None,
            },
    {
        let n = self.entries.len();
        let mut i: usize = 0;
        while i < n
            invariant
                n == self.entries.len(),
                n == self@.len(),
                0 <= i <= n,
                self.wf(),
                forall|j: int| 0 <= j < i ==> self@[j].key != key@,
            decreases n - i,
        {
            proof {
                assert(self@[i as int] == self.entries@[i as int].deep_view());
            }
            if str_eq(self.entries[i].key.as_str(), key) {
                proof {
                    lemma_lookup_index(self@, i as int);
                }
                return Some(&self.entries[i]);
            }
            i = i + 1;
        }
        proof {
            lemma_lookup_absent(self@, key@);
        }
        None
    }

    /// Inserts an entry, replacing any entry already bound to the same name.
    ///
    /// The key is normalized to upper case; keys are case-insensitive at
    /// input and rendered upper-case.
    pub fn insert(&mut self, e: ConstEntry)
        requires
            old(self).wf(),
        ensures
            final(self).wf(),
            final(self).spec_lookup(upper(e@.key)) == Some(
                EntrySpec { key: upper(e@.key), desc: e@.desc, t: e@.t, v: e@.v },
            ),
            forall|k: Seq<char>|
                k != upper(e@.key) ==> final(self).spec_lookup(k) == old(self).spec_lookup(k),
    {
        let ukey = to_upper(e.key.as_str());
        let e2 = ConstEntry { key: ukey, desc: e.desc, t: e.t, v: e.v };
        let ghost ev = e2@;
        let ghost s0 = self@;
        let n = self.entries.len();
        let mut i: usize = 0;
        while i < n && str_lt(self.entries[i].key.as_str(), e2.key.as_str())
            invariant
                n == self.entries.len(),
                n == self@.len(),
                0 <= i <= n,
                self.wf(),
                self@ == s0,
                e2@ == ev,
                forall|j: int| 0 <= j < i ==> lex_lt(self@[j].key, ev.key),
            decreases n - i,
        {
            proof {
                assert(self@[i as int] == self.entries@[i as int].deep_view());
            }
            i = i + 1;
        }
        proof {
            if i < n {
                assert(self@[i as int] == self.entries@[i as int].deep_view());
            }
        }
        if i < n && str_eq(self.entries[i].key.as_str(), e2.key.as_str()) {
            self.entries.set(i, e2);
            proof {
                let s1 = self@;
                assert(s1 =~= s0.update(i as int, ev));
                assert forall|p: int, q: int| 0 <= p < q < s1.len() implies lex_lt(
                    s1[p].key,
                    s1[q].key,
                ) by {
                    assert(s0[i as int].key == ev.key);
                }
                assert(keys_normalized(s1)) by {
                    assert(upper(ev.key) =~= ev.key);
                }
                lemma_lookup_index(s1, i as int);
                assert forall|k: Seq<char>| k != ev.key implies lookup_seq(s1, k) == lookup_seq(
                    s0,
                    k,
                ) by {
                    lemma_lookup_swap(s0, s1, i as int, k);
                }
            }
        } else {
            proof {
                if i < n {
                    assert(!lex_lt(s0[i as int].key, ev.key));
                    assert(s0[i as int].key != ev.key);
                    lemma_lex_lt_connected(s0[i as int].key, ev.key);
                    assert(lex_lt(ev.key, s0[i as int].key));
                }
            }
            self.entries.insert(i, e2);
            proof {
                let s1 = self@;
                assert(s1 =~= s0.subrange(0, i as int) + seq![ev] + s0.subrange(
                    i as int,
                    s0.len() as int,
                ));
                assert(s1.len() == s0.len() + 1);
                assert forall|j: int| 0 <= j < s1.len() implies #[trigger] s1[j] == (if j < i {
                    s0[j]
                } else if j == i {
                    ev
                } else {
                    s0[j - 1]
                }) by {}
                assert forall|p: int, q: int| 0 <= p < q < s1.len() implies lex_lt(
                    s1[p].key,
                    s1[q].key,
                ) by {
                    if p < i && q == i {
                    } else if p == i && q > i {
                        if i < n {
                            if q - 1 > i {
                                lemma_lex_lt_trans(ev.key, s0[i as int].key, s0[q - 1].key);
                            }
                        }
                    } else if p < i && q > i {
                    }
                }
                assert(keys_normalized(s1)) by {
                    assert(upper(ev.key) =~= ev.key);
                }
                lemma_lookup_index(s1, i as int);
                assert forall|k: Seq<char>| k != ev.key implies lookup_seq(s1, k) == lookup_seq(
                    s0,
                    k,
                ) by {
                    lemma_lookup_insert_other(s0, s1, i as int, ev, k);
                }
            }
        }
    }
}

impl ConstTable {
    /// Inserts every entry of `other` into this table, so that `other`'s
    /// bindings override this table's on any shared key.
    pub fn insert_table(&mut self, other: &ConstTable)
        requires
            old(self).wf(),
            other.wf(),
        ensures
            final(self).wf(),
            forall|k: Seq<char>|
                #![trigger final(self).spec_lookup(k)]
                final(self).spec_lookup(k) == (if lookup_seq(other@, k) is Some {
                    lookup_seq(other@, k)
                } else {
                    old(self).spec_lookup(k)
                }),
    {
        let ghost s0 = self@;
        let n = other.len();
        let mut i: usize = 0;
        while i < n
            invariant
                n == other@.len(),
                0 <= i <= n,
                self.wf(),
                other.wf(),
                forall|k: Seq<char>|
                    #![trigger lookup_seq(self@, k)]
                    lookup_seq(self@, k) == (if lookup_seq(
                        other@.subrange(0, i as int),
                        k,
                    ) is Some {
                        lookup_seq(other@.subrange(0, i as int), k)
                    } else {
                        lookup_seq(s0, k)
                    }),
            decreases n - i,
        {
            proof {
                assert(other@.subrange(0, 0) =~= Seq::<EntrySpec>::empty());
            }
            let e = other.entry_at(i).duplicate();
            let ghost prev = self@;
            let ghost oe = other@[i as int];
            proof {
                assert(oe.key == upper(oe.key));
                assert(e@ == oe);
            }
            self.insert(e);
            proof {
                let pre = other@.subrange(0, i as int);
                let post = other@.subrange(0, i + 1);
                assert(post =~= pre.push(oe));
                assert(self.spec_lookup(upper(e@.key)) == Some(
                    EntrySpec { key: upper(e@.key), desc: e@.desc, t: e@.t, v: e@.v },
                ));
                assert(upper(e@.key) == oe.key);
                assert((EntrySpec { key: upper(e@.key), desc: e@.desc, t: e@.t, v: e@.v })
                    == oe);
                assert forall|k: Seq<char>| true implies #[trigger] lookup_seq(self@, k) == (
                if lookup_seq(post, k) is Some {
                    lookup_seq(post, k)
                } else {
                    lookup_seq(s0, k)
                }) by {
                    lemma_lookup_push_new(pre, oe, k);
                    if k == oe.key {
                        assert forall|j: int| 0 <= j < pre.len() implies pre[j].key != k by {
                            assert(pre[j] == other@[j]);
                            assert(lex_lt(other@[j].key, oe.key));
                            if other@[j].key == k {
                                lemma_lex_lt_irrefl(k);
                            }
                        }
                        lemma_lookup_absent(pre, k);
                        assert(lookup_seq(self@, k) == Some(oe));
                        assert(lookup_seq(post, k) == Some(oe));
                    } else {
                        assert(self.spec_lookup(k) == lookup_seq(self@, k));
                        assert(lookup_seq(self@, k) == lookup_seq(prev, k));
                        assert(lookup_seq(post, k) == lookup_seq(pre, k));
                    }
                }
            }
            i = i + 1;
        }
        proof {
            assert(other@.subrange(0, n as int) =~= other@);
        }
    }
}

/// The merged binding of `key` over an ordered sequence of tables: the last
/// table that binds the key wins.
pub open spec fn merged_lookup(ts: Seq<Seq<EntrySpec>>, key: Seq<char>) -> Option<EntrySpec>
    decreases ts.len(),
{
    if ts.len() == 0 {
        None
    } else if lookup_seq(ts.last(), key) is Some {
        lookup_seq(ts.last(), key)
    } else {
        merged_lookup(ts.drop_last(), key)
    }
}

/// Combines an ordered sequence of tables into one, with last-writer-wins
/// precedence on key collisions. Values are carried over unchanged.
pub fn merge(tables: &Vec<ConstTable>) -> (r: ConstTable)
    requires
        forall|i: int| 0 <= i < tables.len() ==> (#[trigger] tables[i]).wf(),
    ensures
        r.wf(),
        forall|k: Seq<char>|
            #![trigger r.spec_lookup(k)]
            r.spec_lookup(k) == merged_lookup(tables.deep_view(), k),
{
    let mut acc = ConstTable::new();
    let n = tables.len();
    let mut i: usize = 0;
    proof {
        assert forall|k: Seq<char>| lookup_seq(acc@, k) is None by {
            lemma_lookup_absent(acc@, k);
        }
        assert(tables.deep_view().subrange(0, 0) =~= Seq::<Seq<EntrySpec>>::empty());
    }
    while i < n
        invariant
            n == tables.len(),
            n == tables.deep_view().len(),
            0 <= i <= n,
            acc.wf(),
            forall|j: int| 0 <= j < n ==> (#[trigger] tables[j]).wf(),
            forall|k: Seq<char>|
                #![trigger lookup_seq(acc@, k)]
                lookup_seq(acc@, k) == merged_lookup(
                    tables.deep_view().subrange(0, i as int),
                    k,
                ),
        decreases n - i,
    {
        proof {
            assert(tables.deep_view()[i as int] == tables[i as int].deep_view());
        }
        let ghost prev = acc@;
        acc.insert_table(&tables[i]);
        proof {
            let tv = tables[i as int].deep_view();
            let pre = tables.deep_view().subrange(0, i as int);
            let post = tables.deep_view().subrange(0, i + 1);
            assert(post.drop_last() =~= pre);
            assert(post.last() == tv);
            assert forall|k: Seq<char>| true implies #[trigger] lookup_seq(acc@, k)
                == merged_lookup(post, k) by {
                assert(acc.spec_lookup(k) == lookup_seq(acc@, k));
                assert(lookup_seq(acc@, k) == (if lookup_seq(tv, k) is Some {
                    lookup_seq(tv, k)
                } else {
                    lookup_seq(prev, k)
                }));
            }
        }
        i = i + 1;
    }
    proof {
        assert(tables.deep_view().subrange(0, n as int) =~= tables.deep_view());
    }
    acc
}

/// Last-writer-wins: merging two tables that both bind a key yields the
/// second table's binding for that key.
pub proof fn lemma_merge_last_writer_wins(a: Seq<EntrySpec>, b: Seq<EntrySpec>, key: Seq<char>)
    requires
        lookup_seq(b, key) is Some,
    ensures
        merged_lookup(seq![a, b], key) == lookup_seq(b, key),
{
    assert(seq![a, b].last() == b);
}

/// Appending an entry binds its key only where the key was unbound before.
proof fn lemma_lookup_push_new(s: Seq<EntrySpec>, e: EntrySpec, k: Seq<char>)
    ensures
        lookup_seq(s.push(e), k) == (if lookup_seq(s, k) is Some {
            lookup_seq(s, k)
        } else if e.key == k {
            Some(e)
        } else {
            None
        }),
    decreases s.len(),
{
    if s.len() == 0 {
        assert(s.push(e)[0] == e);
        assert(s.push(e).drop_first() =~= Seq::<EntrySpec>::empty());
    } else {
        assert(s.push(e)[0] == s[0]);
        assert(s.push(e).drop_first() =~= s.drop_first().push(e));
        lemma_lookup_push_new(s.drop_first(), e, k);
    }
}

/// Replacing the entry at one index changes no other binding, provided the
/// replacement carries the same key as what it replaces.
proof fn lemma_lookup_swap(s0: Seq<EntrySpec>, s1: Seq<EntrySpec>, i: int, k: Seq<char>)
    requires
        0 <= i < s0.len(),
        s1 == s0.update(i, s1[i]),
        s0[i].key == s1[i].key,
        s1[i].key != k,
    ensures
        lookup_seq(s1, k) == lookup_seq(s0, k),
    decreases s0.len(),
{
    if i == 0 {
        assert(s1.drop_first() =~= s0.drop_first());
    } else {
        assert(s1[0] == s0[0]);
        if s0[0].key != k {
            let t0 = s0.drop_first();
            let t1 = s1.drop_first();
            assert(t1 =~= t0.update(i - 1, t1[i - 1]));
            assert(t0[i - 1] == s0[i]);
            assert(t1[i - 1] == s1[i]);
            lemma_lookup_swap(t0, t1, i - 1, k);
        }
    }
}

/// Inserting an entry at one index changes no binding for other keys.
proof fn lemma_lookup_insert_other(
    s0: Seq<EntrySpec>,
    s1: Seq<EntrySpec>,
    i: int,
    ev: EntrySpec,
    k: Seq<char>,
)
    requires
        0 <= i <= s0.len(),
        s1 == s0.subrange(0, i) + seq![ev] + s0.subrange(i, s0.len() as int),
        k != ev.key,
    ensures
        lookup_seq(s1, k) == lookup_seq(s0, k),
    decreases s0.len(),
{
    assert(s1.len() == s0.len() + 1);
    if i == 0 {
        assert(s1[0] == ev);
        assert(s1.drop_first() =~= s0);
    } else {
        assert(s1[0] == s0[0]);
        if s0[0].key != k {
            let t0 = s0.drop_first();
            let t1 = s1.drop_first();
            assert(t1 =~= t0.subrange(0, i - 1) + seq![ev] + t0.subrange(
                i - 1,
                t0.len() as int,
            ));
            lemma_lookup_insert_other(t0, t1, i - 1, ev, k);
        }
    }
}

} // verus!
