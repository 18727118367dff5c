//! An immutable snapshot of the process environment, captured once per run
//! and passed explicitly to every component that reads it.

use vstd::prelude::*;
use crate::strings::lemma_skip_first;
use crate::strings::str_eq;

verus! {

/// The value bound to `key` in a snapshot: the first binding wins.
pub open spec fn env_lookup(s: Seq<(Seq<char>, Seq<char>)>, key: Seq<char>) -> Option<Seq<char>>
    decreases s.len(),
{
    if s.len() == 0 {
        None
    } else if s[0].0 == key {
        Some(s[0].1)
    } else {
        env_lookup(s.drop_first(), key)
    }
}

/// A snapshot of environment variables as key/value pairs.
pub struct EnvSnapshot {
    vars: Vec<(String, String)>,
}

impl View for EnvSnapshot {
    type V = Seq<(Seq<char>, Seq<char>)>;

    closed spec fn view(&self) -> Seq<(Seq<char>, Seq<char>)> {
        self.vars.deep_view()
    }
}

impl EnvSnapshot {
    /// Captures the given variable bindings as a snapshot.
    pub fn new(vars: Vec<(String, String)>) -> (r: Self)
        ensures
            r@ == vars.deep_view(),
    {
        EnvSnapshot { vars }
    }

    /// An empty snapshot, with no variable bound.
    pub fn empty() -> (r: Self)
        ensures
            r@ == Seq::<(Seq<char>, Seq<char>)>::empty(),
    {
        let vars: Vec<(String, String)> = Vec::new();
        proof {
            assert(vars.deep_view() =~= Seq::<(Seq<char>, Seq<char>)>::empty());
        }
        EnvSnapshot { vars }
    }

    /// Looks a variable up in the snapshot.
    pub fn get(&self, key: &str) -> (r: Option<&String>)
        ensures
            match r {
                Some(v) => env_lookup(self@, key@) == Some(v@),
                None => env_lookup(self@, key@) is None,
            },
    {
        let n = self.vars.len();
        let mut i: usize = 0;
        proof {
            assert(self@.skip(0) =~= self@);
        }
        while i < n
            invariant
                n == self.vars.len(),
                n == self@.len(),
                0 <= i <= n,
                env_lookup(self@, key@) == env_lookup(self@.skip(i as int), key@),
            decreases n - i,
        {
            proof {
                assert(self@[i as int] == self.vars@[i as int].deep_view());
                assert(self@.skip(i as int)[0] == self@[i as int]);
            }
            if str_eq(self.vars[i].0.as_str(), key) {
                return Some(&self.vars[i].1);
            }
            proof {
                lemma_skip_first(self@, i as int);
            }
            i = i + 1;
        }
        None
    }
}

} // verus!
