//! A small map keyed by strings, kept as an ordered list of entries.
use vstd::prelude::*;

use crate::text::str_eq;

verus! {

/// The value stored under `k` in a list of entries: that of the last entry
/// with key `k`.
pub open spec fn lookup<V>(s: Seq<(Seq<char>, V)>, k: Seq<char>) -> Option<V>
    decreases s.len(),
{
    if s.len() == 0 {
        None
    } else if s.last().0 == k {
        Some(s.last().1)
    } else {
        lookup(s.drop_last(), k)
    }
}

/// A map from strings to values that keeps its entries in insertion order.
#[derive(Debug)]
pub struct StrMap<V> {
    entries: Vec<(String, V)>,
}

proof fn lemma_lookup_update<V>(s: Seq<(Seq<char>, V)>, i: int, v: V, q: Seq<char>)
    requires
        0 <= i < s.len(),
        forall|j: int| i < j < s.len() ==> s[j].0 != s[i].0,
    ensures
        lookup(s.update(i, (s[i].0, v)), q) == if q == s[i].0 {
            Some(v)
        } else {
            lookup(s, q)
        },
    decreases s.len(),
{
    let u = s.update(i, (s[i].0, v));
    if i == s.len() - 1 {
        assert(u.drop_last() =~= s.drop_last());
    } else {
        assert(u.drop_last() =~= s.drop_last().update(i, (s[i].0, v)));
        lemma_lookup_update(s.drop_last(), i, v, q);
    }
}

proof fn lemma_lookup_push<V>(s: Seq<(Seq<char>, V)>, e: (Seq<char>, V), q: Seq<char>)
    ensures
        lookup(s.push(e), q) == if q == e.0 {
            Some(e.1)
        } else {
            lookup(s, q)
        },
{
    assert(s.push(e).drop_last() =~= s);
}

impl<V> StrMap<V> {
    /// The entries, keys read as character sequences.
    pub closed spec fn view(&self) -> Seq<(Seq<char>, V)> {
        self.entries@.map_values(|e: (String, V)| (e.0@, e.1))
    }

    /// An empty map.
    pub fn new() -> (r: StrMap<V>)
        ensures
            r@ == Seq::<(Seq<char>, V)>::empty(),
    {
        let r = StrMap { entries: Vec::new() };
        assert(r@ =~= Seq::<(Seq<char>, V)>::empty());
        r
    }

    /// Number of entries.
    pub fn len(&self) -> (r: usize)
        ensures
            r == self@.len(),
    {
        self.entries.len()
    }

    /// The entries, in insertion order.
    pub fn entries(&self) -> (r: &Vec<(String, V)>)
        ensures
            r@.map_values(|e: (String, V)| (e.0@, e.1)) == self@,
    {
        &self.entries
    }

    /// Position of the last entry with key `k`.
    fn position(&self, k: &str) -> (r: Option<usize>)
        ensures
            match r {
                Some(i) => i < self@.len() && self@[i as int].0 == k@ && (forall|j: int|
                    i < j < self@.len() ==> self@[j].0 != k@) && lookup(self@, k@) == Some(
                    self@[i as int].1,
                ),
                None => lookup(self@, k@) == None::<V>,
            },
    {
        let mut i = self.entries.len();
        assert(self@.take(i as int) =~= self@);
        while i > 0
            invariant
                i <= self.entries.len(),
                self@.len() == self.entries.len(),
                lookup(self@, k@) == lookup(self@.take(i as int), k@),
                forall|j: int| i <= j < self@.len() ==> self@[j].0 != k@,
            decreases i,
        {
            proof {
                assert(self@.take(i as int).drop_last() =~= self@.take(i - 1));
                assert(self@.take(i as int).last() == self@[i - 1]);
            }
            if str_eq(self.entries[i - 1].0.as_str(), k) {
                return Some(i - 1);
            }
            i = i - 1;
        }
        None
    }

    /// The value stored under `k`, if any.
    pub fn get(&self, k: &str) -> (r: Option<&V>)
        ensures
            match r {
                Some(v) => lookup(self@, k@) == Some(*v),
                None => lookup(self@, k@) == None::<V>,
            },
    {
        match self.position(k) {
            Some(i) => Some(&self.entries[i].1),
            None => None,
        }
    }

    /// Whether a value is stored under `k`.
    pub fn contains_key(&self, k: &str) -> (r: bool)
        ensures
            r == lookup(self@, k@).is_some(),
    {
        self.position(k).is_some()
    }

    /// Stores `v` under `k`, replacing the value stored there before: a
    /// new key is appended, an existing key keeps its place.
    pub fn insert(&mut self, k: String, v: V)
        ensures
            forall|q: Seq<char>|
                #[trigger] lookup(final(self)@, q) == if q == k@ {
                    Some(v)
                } else {
                    lookup(old(self)@, q)
                },
            lookup(old(self)@, k@) is None ==> final(self)@ == old(self)@.push((k@, v)),
            lookup(old(self)@, k@) is Some ==> exists|i: int|
                0 <= i < old(self)@.len() && old(self)@[i].0 == k@ && final(self)@ == old(
                    self,
                )@.update(i, (k@, v)),
    {
        match self.position(k.as_str()) {
            Some(i) => {
                let ghost before = self@;
                self.entries.set(i, (k, v));
                proof {
                    assert(self@ =~= before.update(i as int, (before[i as int].0, v)));
                    assert forall|q: Seq<char>| #[trigger]
                        lookup(self@, q) == if q == before[i as int].0 {
                            Some(v)
                        } else {
                            lookup(before, q)
                        } by {
                        lemma_lookup_update(before, i as int, v, q);
                    }
                }
            },
            None => {
                let ghost before = self@;
                let ghost kv = k@;
                self.entries.push((k, v));
                proof {
                    assert(self@ =~= before.push((kv, v)));
                    assert forall|q: Seq<char>| #[trigger]
                        lookup(self@, q) == if q == kv {
                            Some(v)
                        } else {
                            lookup(before, q)
                        } by {
                        lemma_lookup_push(before, (kv, v), q);
                    }
                }
            },
        }
    }
}

/// A value stored under a key is what a lookup of that key then finds, and
/// lookups of other keys are unchanged.
pub proof fn lemma_lookup_after_store<V>(
    before: Seq<(Seq<char>, V)>,
    after: Seq<(Seq<char>, V)>,
    k: Seq<char>,
    v: V,
    q: Seq<char>,
)
    requires
        forall|p: Seq<char>|
            #[trigger] lookup(after, p) == if p == k {
                Some(v)
            } else {
                lookup(before, p)
            },
    ensures
        lookup(after, k) == Some(v),
        q != k ==> lookup(after, q) == lookup(before, q),
{
    assert(lookup(after, k) == Some(v));
    assert(lookup(after, q) == if q == k {
        Some(v)
    } else {
        lookup(before, q)
    });
}

} // verus!
