//! The store of an agent's memories: what it keeps when it is full, what it
//! forgets, and the bookkeeping of recalls.
//!
//! The store reads of a memory only its identifier, category, tags and
//! permanence, and keeps its recall count and the time of its last recall.
//! Everything else (content, importance, feelings) rides along in `data`.
//! Which memory is the least important one is decided outside the store;
//! the store decides from which memories it must be taken.
use vstd::prelude::*;

use crate::memory::MemoryCategory;
use crate::text::str_eq;
use crate::utils::clock_nanos;

verus! {

/// A memory as the store keeps it.
#[derive(Debug)]
pub struct MemoryRecord<P> {
    /// Unique identifier for the memory
    pub id: String,
    /// Memory category
    pub category: MemoryCategory,
    /// Tags for more specific classification
    pub tags: Vec<String>,
    /// The memory is permanent: it is never forgotten or displaced
    pub permanent: bool,
    /// How many times the memory has been recalled
    pub access_count: u32,
    /// When the memory was last recalled (seconds since the Unix epoch)
    pub last_accessed: u64,
    /// What the store does not read
    pub data: P,
}

/// What adding a memory does to a store.
#[derive(Debug, Clone, Copy, PartialEq, Eq, Structural)]
pub enum AddPlan {
    /// The memory is appended
    Append,
    /// A non-permanent memory of the same category makes room for it
    ReplaceInCategory,
    /// A non-permanent memory of any category makes room for it
    ReplaceAny,
    /// The store is full of permanent memories: the memory is refused
    Refuse,
}

/// Why a memory could not be added or forgotten.
#[derive(Debug, Clone, Copy, PartialEq, Eq, Structural)]
pub enum MemoryError {
    /// The store is full and every memory in it is permanent
    AllPermanent,
    /// A permanent memory cannot be forgotten
    Permanent,
    /// No memory has the identifier
    NotFound,
}

/// Non-permanent memories of a category.
pub open spec fn displaceable_in<P>(r: MemoryRecord<P>, category: MemoryCategory) -> bool {
    !r.permanent && r.category == category
}

/// Number of non-permanent memories of a category.
pub open spec fn displaceable_count<P>(s: Seq<MemoryRecord<P>>, category: MemoryCategory) -> nat
    decreases s.len(),
{
    if s.len() == 0 {
        0
    } else {
        displaceable_count(s.drop_last(), category) + if displaceable_in(s.last(), category) {
            1nat
        } else {
            0nat
        }
    }
}

/// What adding a memory of `category` does: a permanent memory, or one
/// added below capacity, is appended. A full store makes room by
/// displacing a non-permanent memory: of the same category when that
/// category holds more than a quarter of the capacity in non-permanent
/// memories, else of any category; with none to displace, it refuses.
pub open spec fn add_plan<P>(
    s: Seq<MemoryRecord<P>>,
    capacity: nat,
    category: MemoryCategory,
    permanent: bool,
) -> AddPlan {
    if permanent || s.len() < capacity {
        AddPlan::Append
    } else if displaceable_count(s, category) > capacity / 4 {
        AddPlan::ReplaceInCategory
    } else if exists|i: int| 0 <= i < s.len() && !(#[trigger] s[i]).permanent {
        AddPlan::ReplaceAny
    } else {
        AddPlan::Refuse
    }
}

/// Whether the memory at `i` may make room under a plan for a memory of
/// `category`.
pub open spec fn may_displace<P>(
    s: Seq<MemoryRecord<P>>,
    plan: AddPlan,
    category: MemoryCategory,
    i: int,
) -> bool {
    &&& 0 <= i < s.len()
    &&& match plan {
        AddPlan::ReplaceInCategory => displaceable_in(s[i], category),
        AddPlan::ReplaceAny => !s[i].permanent,
        _ => false,
    }
}

/// Position of the first memory with the identifier.
pub open spec fn first_with_id<P>(s: Seq<MemoryRecord<P>>, id: Seq<char>) -> Option<int>
    decreases s.len(),
{
    if s.len() == 0 {
        None
    } else {
        match first_with_id(s.drop_last(), id) {
            Some(i) => Some(i),
            None => if s.last().id@ == id {
                Some(s.len() - 1)
            } else {
                None
            },
        }
    }
}

/// Every permanent memory of `before` is still in `after`.
pub open spec fn keeps_permanent<P>(before: Seq<MemoryRecord<P>>, after: Seq<MemoryRecord<P>>) -> bool {
    forall|i: int|
        0 <= i < before.len() && (#[trigger] before[i]).permanent ==> exists|j: int|
            0 <= j < after.len() && after[j] == before[i]
}

/// A memory after a recall at `now`: one more recall, last at `now`.
pub open spec fn touched<P>(r: MemoryRecord<P>, now: u64) -> MemoryRecord<P> {
    MemoryRecord { access_count: (r.access_count + 1) as u32, last_accessed: now, ..r }
}

/// `after` is `before` once the first memory with the identifier was
/// recalled at `now`, and `r` its position (`None` when there is none, and
/// then nothing changed).
pub open spec fn recalled<P>(
    before: Seq<MemoryRecord<P>>,
    id: Seq<char>,
    now: u64,
    r: Option<usize>,
    after: Seq<MemoryRecord<P>>,
) -> bool {
    match first_with_id(before, id) {
        None => r is None && after == before,
        Some(i) => r == Some(i as usize) && after == before.update(i, touched(before[i], now)),
    }
}

/// Whether a memory carries the tag.
pub open spec fn has_tag<P>(r: MemoryRecord<P>, tag: Seq<char>) -> bool {
    exists|k: int| 0 <= k < r.tags@.len() && (#[trigger] r.tags@[k])@ == tag
}

/// Which non-permanent memories a forgetting removes.
#[derive(Debug)]
enum ForgetRule {
    Category(MemoryCategory),
    Tag(String),
    All,
}

/// Whether a rule forgets a memory: never a permanent one.
spec fn forgets<P>(rule: ForgetRule, r: MemoryRecord<P>) -> bool {
    !r.permanent && match rule {
        ForgetRule::Category(c) => r.category == c,
        ForgetRule::Tag(t) => has_tag(r, t@),
        ForgetRule::All => true,
    }
}

/// The memories a forgetting of a category keeps.
pub open spec fn without_category<P>(s: Seq<MemoryRecord<P>>, c: MemoryCategory) -> Seq<MemoryRecord<P>> {
    s.filter(|r: MemoryRecord<P>| r.permanent || r.category != c)
}

/// The memories a forgetting of a tag keeps.
pub open spec fn without_tag<P>(s: Seq<MemoryRecord<P>>, tag: Seq<char>) -> Seq<MemoryRecord<P>> {
    s.filter(|r: MemoryRecord<P>| r.permanent || !has_tag(r, tag))
}

/// The memories a clearing keeps: the permanent ones.
pub open spec fn permanent_only<P>(s: Seq<MemoryRecord<P>>) -> Seq<MemoryRecord<P>> {
    s.filter(|r: MemoryRecord<P>| r.permanent)
}

/// Positions of the memories satisfying `p`, in order.
pub open spec fn positions_where<P>(s: Seq<MemoryRecord<P>>, p: spec_fn(MemoryRecord<P>) -> bool) -> Seq<usize>
    decreases s.len(),
{
    if s.len() == 0 {
        Seq::empty()
    } else {
        positions_where(s.drop_last(), p) + if p(s.last()) {
            seq![(s.len() - 1) as usize]
        } else {
            Seq::empty()
        }
    }
}

/// The store of an agent's memories.
#[derive(Debug)]
pub struct MemoryStore<P> {
    records: Vec<MemoryRecord<P>>,
    capacity: usize,
}

proof fn lemma_first_with_id_bound<P>(s: Seq<MemoryRecord<P>>, id: Seq<char>)
    ensures
        first_with_id(s, id) matches Some(i) ==> 0 <= i < s.len() && s[i].id@ == id && forall|
            j: int,
        | 0 <= j < i ==> (#[trigger] s[j]).id@ != id,
        first_with_id(s, id) is None ==> forall|j: int| 0 <= j < s.len() ==> (#[trigger] s[j]).id@
            != id,
    decreases s.len(),
{
    if s.len() > 0 {
        lemma_first_with_id_bound(s.drop_last(), id);
        assert forall|j: int| 0 <= j < s.len() - 1 implies s.drop_last()[j] == s[j] by {}
    }
}

proof fn lemma_displaceable_count_bound<P>(s: Seq<MemoryRecord<P>>, category: MemoryCategory)
    ensures
        displaceable_count(s, category) <= s.len(),
        displaceable_count(s, category) > 0 ==> exists|i: int|
            0 <= i < s.len() && displaceable_in(#[trigger] s[i], category),
    decreases s.len(),
{
    if s.len() > 0 {
        lemma_displaceable_count_bound(s.drop_last(), category);
        if displaceable_count(s.drop_last(), category) > 0 {
            let i = choose|i: int|
                0 <= i < s.drop_last().len() && displaceable_in(
                    #[trigger] s.drop_last()[i],
                    category,
                );
            assert(s[i] == s.drop_last()[i]);
        }
    }
}

impl<P> MemoryStore<P> {
    /// The memories, oldest first.
    pub closed spec fn view(&self) -> Seq<MemoryRecord<P>> {
        self.records@
    }

    /// The number of memories beyond which non-permanent memories displace
    /// others.
    pub closed spec fn capacity_spec(&self) -> nat {
        self.capacity as nat
    }

    /// An empty store with the given capacity.
    pub fn new(capacity: usize) -> (r: MemoryStore<P>)
        ensures
            r@ == Seq::<MemoryRecord<P>>::empty(),
            r.capacity_spec() == capacity,
    {
        MemoryStore { records: Vec::new(), capacity }
    }

    /// The capacity of the store.
    pub fn capacity(&self) -> (r: usize)
        ensures
            r == self.capacity_spec(),
    {
        self.capacity
    }

    /// Get the total number of memories.
    pub fn count(&self) -> (r: usize)
        ensures
            r == self@.len(),
    {
        self.records.len()
    }

    /// The memories, oldest first.
    pub fn records(&self) -> (r: &Vec<MemoryRecord<P>>)
        ensures
            r@ == self@,
    {
        &self.records
    }

    /// Number of non-permanent memories of a category.
    fn displaceable_count_exec(&self, category: MemoryCategory) -> (r: usize)
        ensures
            r == displaceable_count(self@, category),
    {
        let mut n: usize = 0;
        let mut i: usize = 0;
        while i < self.records.len()
            invariant
                i <= self.records.len(),
                n == displaceable_count(self@.take(i as int), category),
                n <= i,
            decreases self.records.len() - i,
        {
            proof {
                assert(self@.take(i + 1).drop_last() =~= self@.take(i as int));
            }
            let r = &self.records[i];
            if !r.permanent && r.category == category {
                n = n + 1;
            }
            i = i + 1;
        }
        assert(self@.take(self@.len() as int) =~= self@);
        n
    }

    /// What adding a memory of `category` would do.
    pub fn plan_add(&self, category: MemoryCategory, permanent: bool) -> (r: AddPlan)
        ensures
            r == add_plan(self@, self.capacity_spec(), category, permanent),
    {
        if permanent || self.records.len() < self.capacity {
            return AddPlan::Append;
        }
        if self.displaceable_count_exec(category) > self.capacity / 4 {
            return AddPlan::ReplaceInCategory;
        }
        let mut i: usize = 0;
        while i < self.records.len()
            invariant
                i <= self.records.len(),
                !permanent,
                self@.len() >= self.capacity_spec(),
                displaceable_count(self@, category) <= self.capacity_spec() / 4,
                forall|j: int| 0 <= j < i ==> (#[trigger] self@[j]).permanent,
            decreases self.records.len() - i,
        {
            if !self.records[i].permanent {
                assert(!self@[i as int].permanent);
                return AddPlan::ReplaceAny;
            }
            i = i + 1;
        }
        AddPlan::Refuse
    }

    /// Positions of the memories that may make room under a plan for a
    /// memory of `category`, in order.
    pub fn displacement_candidates(&self, plan: AddPlan, category: MemoryCategory) -> (r: Vec<
        usize,
    >)
        ensures
            forall|k: int| 0 <= k < r@.len() ==> may_displace(self@, plan, category, #[trigger] r@[k] as int),
            forall|i: int| may_displace(self@, plan, category, i) ==> #[trigger] r@.contains(i as usize),
            forall|k: int, l: int| 0 <= k < l < r@.len() ==> r@[k] < r@[l],
    {
        let mut out: Vec<usize> = Vec::new();
        let mut i: usize = 0;
        while i < self.records.len()
            invariant
                i <= self.records.len(),
                forall|k: int| 0 <= k < out@.len() ==> may_displace(self@, plan, category, #[trigger] out@[k] as int),
                forall|j: int| 0 <= j < i && may_displace(self@, plan, category, j) ==> #[trigger] out@.contains(j as usize),
                forall|k: int| 0 <= k < out@.len() ==> #[trigger] out@[k] < i,
                forall|k: int, l: int| 0 <= k < l < out@.len() ==> out@[k] < out@[l],
            decreases self.records.len() - i,
        {
            let r = &self.records[i];
            let ok = match plan {
                AddPlan::ReplaceInCategory => !r.permanent && r.category == category,
                AddPlan::ReplaceAny => !r.permanent,
                _ => false,
            };
            let ghost before = out@;
            if ok {
                out.push(i);
                assert(out@[out@.len() - 1] == i);
            }
            proof {
                assert forall|j: int| 0 <= j < i + 1 && may_displace(self@, plan, category, j) implies #[trigger] out@.contains(
                    j as usize,
                ) by {
                    if j < i {
                        assert(before.contains(j as usize));
                        let k = choose|k: int| 0 <= k < before.len() && before[k] == j as usize;
                        assert(out@[k] == j as usize);
                    } else {
                        assert(out@[out@.len() - 1] == i);
                    }
                }
            }
            i = i + 1;
        }
        out
    }

    /// Add a memory. When the store is full, `displaced` names the memory
    /// that makes room for it (the least important one among the
    /// candidates of [`MemoryStore::displacement_candidates`]); otherwise
    /// it is not read.
    pub fn add(&mut self, memory: MemoryRecord<P>, displaced: Option<usize>) -> (r: Result<
        (),
        MemoryError,
    >)
        requires
            ({
                let plan = add_plan(old(self)@, old(self).capacity_spec(), memory.category, memory.permanent);
                (plan == AddPlan::ReplaceInCategory || plan == AddPlan::ReplaceAny) ==> (displaced
                    matches Some(i) && may_displace(old(self)@, plan, memory.category, i as int))
            }),
        ensures
            final(self).capacity_spec() == old(self).capacity_spec(),
            ({
                let plan = add_plan(old(self)@, old(self).capacity_spec(), memory.category, memory.permanent);
                match plan {
                    AddPlan::Append => r is Ok && final(self)@ == old(self)@.push(memory),
                    AddPlan::Refuse => r == Err::<(), MemoryError>(MemoryError::AllPermanent)
                        && final(self)@ == old(self)@,
                    _ => r is Ok && final(self)@ == old(self)@.remove(displaced->0 as int).push(
                        memory,
                    ),
                }
            }),
            !memory.permanent ==> final(self)@.len() <= if old(self)@.len() > old(self).capacity_spec() {
                old(self)@.len()
            } else {
                old(self).capacity_spec()
            },
            keeps_permanent(old(self)@, final(self)@),
    {
        let plan = self.plan_add(memory.category, memory.permanent);
        let ghost before = self@;
        match plan {
            AddPlan::Append => {
                self.records.push(memory);
                proof {
                    assert forall|i: int| 0 <= i < before.len() && (#[trigger] before[i]).permanent implies exists|j: int|
                        0 <= j < self@.len() && self@[j] == before[i] by {
                        assert(self@[i] == before[i]);
                    }
                }
                Ok(())
            },
            AddPlan::Refuse => Err(MemoryError::AllPermanent),
            _ => {
                let i = displaced.unwrap();
                self.records.remove(i);
                let ghost removed = self@;
                self.records.push(memory);
                proof {
                    assert(removed == before.remove(i as int));
                    assert forall|k: int| 0 <= k < before.len() && (#[trigger] before[k]).permanent implies exists|j: int|
                        0 <= j < self@.len() && self@[j] == before[k] by {
                        if k < i {
                            assert(self@[k] == before[k]);
                        } else {
                            assert(k != i);
                            assert(self@[k - 1] == before[k]);
                        }
                    }
                }
                Ok(())
            },
        }
    }

    /// Position of the first memory with the identifier.
    pub fn position(&self, id: &str) -> (r: Option<usize>)
        ensures
            match r {
                Some(i) => first_with_id(self@, id@) == Some(i as int),
                None => first_with_id(self@, id@) is None,
            },
    {
        let mut i: usize = 0;
        while i < self.records.len()
            invariant
                i <= self.records.len(),
                first_with_id(self@.take(i as int), id@) is None,
            decreases self.records.len() - i,
        {
            proof {
                assert(self@.take(i + 1).drop_last() =~= self@.take(i as int));
            }
            if str_eq(self.records[i].id.as_str(), id) {
                proof {
                    assert(first_with_id(self@.take(i + 1), id@) == Some(i as int));
                    lemma_first_with_id_prefix(self@, id@, i + 1);
                }
                return Some(i);
            }
            i = i + 1;
        }
        assert(self@.take(self@.len() as int) =~= self@);
        None
    }
}

proof fn lemma_first_with_id_prefix<P>(s: Seq<MemoryRecord<P>>, id: Seq<char>, k: int)
    requires
        0 <= k <= s.len(),
        first_with_id(s.take(k), id) is Some,
    ensures
        first_with_id(s, id) == first_with_id(s.take(k), id),
    decreases s.len() - k,
{
    if k < s.len() {
        assert(s.take(k + 1).drop_last() =~= s.take(k));
        lemma_first_with_id_prefix(s, id, k + 1);
    } else {
        assert(s.take(k) =~= s);
    }
}

fn record_has_tag<P>(r: &MemoryRecord<P>, tag: &str) -> (b: bool)
    ensures
        b == has_tag(*r, tag@),
{
    let mut k: usize = 0;
    while k < r.tags.len()
        invariant
            k <= r.tags.len(),
            forall|j: int| 0 <= j < k ==> (#[trigger] r.tags@[j])@ != tag@,
        decreases r.tags.len() - k,
    {
        if str_eq(r.tags[k].as_str(), tag) {
            return true;
        }
        k = k + 1;
    }
    false
}

impl<P> MemoryStore<P> {
    /// The memory at position `i`.
    pub fn record(&self, i: usize) -> (r: &MemoryRecord<P>)
        requires
            i < self@.len(),
        ensures
            *r == self@[i as int],
    {
        &self.records[i]
    }

    /// Recall the first memory with the identifier at time `now`: its
    /// recall count grows by one and its last recall is `now`. Gives the
    /// memory's position, or `None` when no memory has the identifier.
    pub fn touch_at(&mut self, id: &str, now: u64) -> (r: Option<usize>)
        requires
            first_with_id(old(self)@, id@) matches Some(i) ==> old(self)@[i].access_count < u32::MAX,
        ensures
            final(self).capacity_spec() == old(self).capacity_spec(),
            recalled(old(self)@, id@, now, r, final(self)@),
    {
        proof {
            lemma_first_with_id_bound(self@, id@);
        }
        match self.position(id) {
            Some(i) => {
                let ghost before = self@;
                let count = self.records[i].access_count;
                self.records[i].access_count = count + 1;
                self.records[i].last_accessed = now;
                assert(self@ =~= before.update(i as int, touched(before[i as int], now)));
                Some(i)
            },
            None => None,
        }
    }

    /// Recall the first memory with the identifier now (see
    /// [`MemoryStore::touch_at`]).
    pub fn touch(&mut self, id: &str) -> (r: Option<usize>)
        requires
            first_with_id(old(self)@, id@) matches Some(i) ==> old(self)@[i].access_count < u32::MAX,
        ensures
            final(self).capacity_spec() == old(self).capacity_spec(),
            exists|now: u64| #[trigger] recalled(old(self)@, id@, now, r, final(self)@),
    {
        let now = (clock_nanos() / 1_000_000_000) as u64;
        self.touch_at(id, now)
    }

    /// Positions of the memories of a category, in order.
    pub fn positions_in_category(&self, category: MemoryCategory) -> (r: Vec<usize>)
        ensures
            r@ == positions_where(self@, |m: MemoryRecord<P>| m.category == category),
    {
        let ghost p = |m: MemoryRecord<P>| m.category == category;
        let mut out: Vec<usize> = Vec::new();
        let mut i: usize = 0;
        while i < self.records.len()
            invariant
                i <= self.records.len(),
                out@ == positions_where(self@.take(i as int), p),
                p == (|m: MemoryRecord<P>| m.category == category),
            decreases self.records.len() - i,
        {
            proof {
                assert(self@.take(i + 1).drop_last() =~= self@.take(i as int));
                assert(self@.take(i + 1).last() == self@[i as int]);
            }
            if self.records[i].category == category {
                out.push(i);
            }
            proof {
                let t = self@.take(i + 1);
                assert(positions_where(t, p) == positions_where(t.drop_last(), p) + if p(t.last()) {
                    seq![(t.len() - 1) as usize]
                } else {
                    Seq::<usize>::empty()
                });
                if p(self@[i as int]) {
                    assert(out@ =~= positions_where(t, p));
                } else {
                    assert(out@ =~= positions_where(t, p));
                }
            }
            i = i + 1;
        }
        assert(self@.take(self@.len() as int) =~= self@);
        out
    }

    /// Positions of the memories carrying a tag, in order.
    pub fn positions_with_tag(&self, tag: &str) -> (r: Vec<usize>)
        ensures
            r@ == positions_where(self@, |m: MemoryRecord<P>| has_tag(m, tag@)),
    {
        let ghost p = |m: MemoryRecord<P>| has_tag(m, tag@);
        let mut out: Vec<usize> = Vec::new();
        let mut i: usize = 0;
        while i < self.records.len()
            invariant
                i <= self.records.len(),
                out@ == positions_where(self@.take(i as int), p),
                p == (|m: MemoryRecord<P>| has_tag(m, tag@)),
            decreases self.records.len() - i,
        {
            proof {
                assert(self@.take(i + 1).drop_last() =~= self@.take(i as int));
                assert(self@.take(i + 1).last() == self@[i as int]);
            }
            if record_has_tag(&self.records[i], tag) {
                out.push(i);
            }
            proof {
                let t = self@.take(i + 1);
                assert(positions_where(t, p) == positions_where(t.drop_last(), p) + if p(t.last()) {
                    seq![(t.len() - 1) as usize]
                } else {
                    Seq::<usize>::empty()
                });
                if p(self@[i as int]) {
                    assert(out@ =~= positions_where(t, p));
                } else {
                    assert(out@ =~= positions_where(t, p));
                }
            }
            i = i + 1;
        }
        assert(self@.take(self@.len() as int) =~= self@);
        out
    }

    /// Forget the first memory with the identifier, unless it is permanent.
    pub fn forget(&mut self, id: &str) -> (r: Result<(), MemoryError>)
        ensures
            final(self).capacity_spec() == old(self).capacity_spec(),
            match first_with_id(old(self)@, id@) {
                None => r == Err::<(), MemoryError>(MemoryError::NotFound) && final(self)@ == old(
                    self,
                )@,
                Some(i) => if old(self)@[i].permanent {
                    r == Err::<(), MemoryError>(MemoryError::Permanent) && final(self)@ == old(
                        self,
                    )@
                } else {
                    r is Ok && final(self)@ == old(self)@.remove(i)
                },
            },
            keeps_permanent(old(self)@, final(self)@),
    {
        proof {
            lemma_first_with_id_bound(self@, id@);
        }
        match self.position(id) {
            Some(i) => {
                if self.records[i].permanent {
                    return Err(MemoryError::Permanent);
                }
                let ghost before = self@;
                self.records.remove(i);
                proof {
                    assert forall|k: int| 0 <= k < before.len() && (#[trigger] before[k]).permanent implies exists|j: int|
                        0 <= j < self@.len() && self@[j] == before[k] by {
                        if k < i {
                            assert(self@[k] == before[k]);
                        } else {
                            assert(self@[k - 1] == before[k]);
                        }
                    }
                }
                Ok(())
            },
            None => Err(MemoryError::NotFound),
        }
    }

    /// Remove the memories a rule forgets; gives how many were removed.
    fn forget_where(&mut self, rule: &ForgetRule) -> (r: usize)
        ensures
            final(self).capacity_spec() == old(self).capacity_spec(),
            final(self)@ == old(self)@.filter(|m: MemoryRecord<P>| !forgets(*rule, m)),
            r == old(self)@.len() - final(self)@.len(),
            keeps_permanent(old(self)@, final(self)@),
    {
        let ghost keep = |m: MemoryRecord<P>| !forgets(*rule, m);
        let ghost orig = self@;
        let initial = self.records.len();
        let mut i: usize = 0;
        let ghost mut j: int = 0;
        proof {
            reveal(Seq::filter);
            assert(orig.take(0).filter(keep) =~= Seq::<MemoryRecord<P>>::empty());
            assert(orig.skip(0) =~= orig);
            assert(self@ =~= orig.take(0).filter(keep) + orig.skip(0));
        }
        while i < self.records.len()
            invariant
                orig == old(self)@,
                self.capacity_spec() == old(self).capacity_spec(),
                keep == (|m: MemoryRecord<P>| !forgets(*rule, m)),
                0 <= j <= orig.len(),
                i as int == orig.take(j).filter(keep).len(),
                self@ == orig.take(j).filter(keep) + orig.skip(j),
            decreases self.records.len() - i,
        {
            let ghost before = self@;
            proof {
                assert(before[i as int] == orig[j]);
                reveal(Seq::filter);
                assert(orig.take(j + 1).drop_last() =~= orig.take(j));
                assert(orig.skip(j + 1) =~= orig.skip(j).drop_first());
                assert(orig.take(j + 1).last() == orig[j]);
            }
            let r = &self.records[i];
            let gone = !r.permanent && match rule {
                ForgetRule::Category(c) => r.category == *c,
                ForgetRule::Tag(t) => record_has_tag(r, t.as_str()),
                ForgetRule::All => true,
            };
            assert(gone == forgets(*rule, orig[j]));
            if gone {
                self.records.remove(i);
                proof {
                    assert(orig.take(j + 1).filter(keep) == orig.take(j).filter(keep));
                    assert(self@ =~= orig.take(j + 1).filter(keep) + orig.skip(j + 1));
                }
            } else {
                i = i + 1;
                proof {
                    assert(orig.take(j + 1).filter(keep) == orig.take(j).filter(keep).push(orig[j]));
                    assert(self@ =~= orig.take(j + 1).filter(keep) + orig.skip(j + 1));
                }
            }
            proof {
                j = j + 1;
            }
        }
        proof {
            assert(orig.take(j) =~= orig);
            assert(orig.skip(j) =~= Seq::<MemoryRecord<P>>::empty());
            assert(self@ =~= orig.filter(keep));
            orig.lemma_filter_len(keep);
            assert forall|k: int| 0 <= k < orig.len() && (#[trigger] orig[k]).permanent implies exists|l: int|
                0 <= l < self@.len() && self@[l] == orig[k] by {
                orig.lemma_filter_contains(keep, k);
            }
        }
        initial - self.records.len()
    }

    /// Forget the non-permanent memories of a category; gives how many
    /// were forgotten.
    pub fn forget_by_category(&mut self, category: MemoryCategory) -> (r: usize)
        ensures
            final(self).capacity_spec() == old(self).capacity_spec(),
            final(self)@ == without_category(old(self)@, category),
            r == old(self)@.len() - final(self)@.len(),
            keeps_permanent(old(self)@, final(self)@),
    {
        let rule = ForgetRule::Category(category);
        let r = self.forget_where(&rule);
        assert(final(self)@ =~= without_category(old(self)@, category)) by {
            assert((|m: MemoryRecord<P>| !forgets(rule, m)) =~= (|m: MemoryRecord<P>| m.permanent
                || m.category != category));
        }
        r
    }

    /// Forget the non-permanent memories carrying a tag; gives how many
    /// were forgotten.
    pub fn forget_by_tag(&mut self, tag: &str) -> (r: usize)
        ensures
            final(self).capacity_spec() == old(self).capacity_spec(),
            final(self)@ == without_tag(old(self)@, tag@),
            r == old(self)@.len() - final(self)@.len(),
            keeps_permanent(old(self)@, final(self)@),
    {
        let rule = ForgetRule::Tag(tag.to_owned());
        let r = self.forget_where(&rule);
        assert(final(self)@ =~= without_tag(old(self)@, tag@)) by {
            assert((|m: MemoryRecord<P>| !forgets(rule, m)) =~= (|m: MemoryRecord<P>| m.permanent
                || !has_tag(m, tag@)));
        }
        r
    }

    /// Clear all non-permanent memories; gives how many were cleared.
    pub fn clear(&mut self) -> (r: usize)
        ensures
            final(self).capacity_spec() == old(self).capacity_spec(),
            final(self)@ == permanent_only(old(self)@),
            r == old(self)@.len() - final(self)@.len(),
            keeps_permanent(old(self)@, final(self)@),
    {
        let rule = ForgetRule::All;
        let r = self.forget_where(&rule);
        assert(final(self)@ =~= permanent_only(old(self)@)) by {
            assert((|m: MemoryRecord<P>| !forgets(rule, m)) =~= (|m: MemoryRecord<P>| m.permanent));
        }
        r
    }
}

proof fn lemma_displaceable_count_all_permanent<P>(s: Seq<MemoryRecord<P>>, category: MemoryCategory)
    requires
        forall|i: int| 0 <= i < s.len() ==> (#[trigger] s[i]).permanent,
    ensures
        displaceable_count(s, category) == 0,
    decreases s.len(),
{
    if s.len() > 0 {
        assert(s.last() == s[s.len() - 1]);
        assert forall|i: int| 0 <= i < s.drop_last().len() implies (#[trigger] s.drop_last()[i]).permanent by {
            assert(s.drop_last()[i] == s[i]);
        }
        lemma_displaceable_count_all_permanent(s.drop_last(), category);
    }
}

/// Adding a memory is refused exactly when it is not permanent, the store
/// is at or above capacity, and every stored memory is permanent; a
/// permanent memory is always appended, even beyond capacity.
pub proof fn lemma_add_refused_iff<P>(
    s: Seq<MemoryRecord<P>>,
    capacity: nat,
    category: MemoryCategory,
    permanent: bool,
)
    ensures
        (add_plan(s, capacity, category, permanent) == AddPlan::Refuse) <==> (!permanent && s.len()
            >= capacity && forall|i: int| 0 <= i < s.len() ==> (#[trigger] s[i]).permanent),
        permanent ==> add_plan(s, capacity, category, permanent) == AddPlan::Append,
{
    if !permanent && s.len() >= capacity && forall|i: int| 0 <= i < s.len() ==> (#[trigger] s[i]).permanent {
        lemma_displaceable_count_all_permanent(s, category);
    }
}

/// A memory added under an identifier that no stored memory has is what a
/// recall of that identifier finds, whether it was appended or displaced
/// another memory.
pub proof fn lemma_recall_after_add<P>(
    before: Seq<MemoryRecord<P>>,
    after: Seq<MemoryRecord<P>>,
    memory: MemoryRecord<P>,
)
    requires
        forall|j: int| 0 <= j < before.len() ==> (#[trigger] before[j]).id@ != memory.id@,
        after == before.push(memory) || exists|i: int|
            0 <= i < before.len() && after == before.remove(i).push(memory),
    ensures
        first_with_id(after, memory.id@) == Some(after.len() - 1),
{
    let rest = after.drop_last();
    if after == before.push(memory) {
        assert(rest =~= before);
    } else {
        let i = choose|i: int| 0 <= i < before.len() && after == before.remove(i).push(memory);
        assert(rest =~= before.remove(i));
        assert forall|j: int| 0 <= j < rest.len() implies (#[trigger] rest[j]).id@ != memory.id@ by {
            if j < i {
                assert(rest[j] == before[j]);
            } else {
                assert(rest[j] == before[j + 1]);
            }
        }
    }
    lemma_first_with_id_bound(rest, memory.id@);
    assert(after.last() == memory);
}

/// What the recall selection knows of a candidate memory.
#[derive(Debug, Clone, Copy, PartialEq, Eq, Structural)]
pub struct RecallCandidate {
    /// The memory is less than an hour old
    pub short_term: bool,
    /// The memory is important enough to pass the short-term limit
    pub important: bool,
}

/// Positions (counted from `base`) of the candidates a recall takes, when
/// `short_taken` short-term memories were taken already: a short-term
/// candidate is passed over once `short_capacity` short-term memories were
/// taken, unless it is important.
pub open spec fn recall_picks(
    cands: Seq<RecallCandidate>,
    base: nat,
    short_taken: nat,
    short_capacity: nat,
) -> Seq<nat>
    decreases cands.len(),
{
    if cands.len() == 0 {
        Seq::empty()
    } else {
        let c = cands[0];
        if c.short_term && short_taken >= short_capacity && !c.important {
            recall_picks(cands.skip(1), base + 1, short_taken, short_capacity)
        } else {
            seq![base] + recall_picks(
                cands.skip(1),
                base + 1,
                short_taken + if c.short_term {
                    1nat
                } else {
                    0nat
                },
                short_capacity,
            )
        }
    }
}

/// The candidates a recall of at most `limit` memories takes, the
/// candidates given from most to least relevant: only the first `limit`
/// candidates are considered.
pub open spec fn recall_selection(cands: Seq<RecallCandidate>, limit: nat, short_capacity: nat) -> Seq<
    nat,
> {
    let n = if limit < cands.len() {
        limit as int
    } else {
        cands.len() as int
    };
    recall_picks(cands.take(n), 0, 0, short_capacity)
}

/// Number of the chosen positions below `i` that hold short-term
/// candidates: the short-term memories a recall took before reaching `i`.
pub open spec fn short_taken_before(cands: Seq<RecallCandidate>, chosen: Seq<nat>, i: nat) -> nat
    decreases chosen.len(),
{
    if chosen.len() == 0 {
        0
    } else {
        (if chosen[0] < i && chosen[0] < cands.len() && cands[chosen[0] as int].short_term {
            1nat
        } else {
            0nat
        }) + short_taken_before(cands, chosen.skip(1), i)
    }
}

proof fn lemma_short_taken_before_none(cands: Seq<RecallCandidate>, chosen: Seq<nat>, i: nat)
    requires
        forall|t: int| 0 <= t < chosen.len() ==> chosen[t] >= i,
    ensures
        short_taken_before(cands, chosen, i) == 0,
    decreases chosen.len(),
{
    if chosen.len() > 0 {
        assert forall|t: int| 0 <= t < chosen.skip(1).len() implies chosen.skip(1)[t] >= i by {
            assert(chosen.skip(1)[t] == chosen[t + 1]);
        }
        lemma_short_taken_before_none(cands, chosen.skip(1), i);
    }
}

proof fn lemma_recall_picks_law(
    cands: Seq<RecallCandidate>,
    n: nat,
    b: nat,
    st: nat,
    cap: nat,
)
    requires
        n <= cands.len(),
        b <= n,
    ensures
        ({
            let p = recall_picks(cands.take(n as int).skip(b as int), b, st, cap);
            &&& forall|t: int| 0 <= t < p.len() ==> b <= #[trigger] p[t] < n
            &&& forall|s: int, t: int| 0 <= s < t < p.len() ==> p[s] < p[t]
            &&& forall|i: nat|
                b <= i < n ==> (#[trigger] p.contains(i) <==> !(cands[i as int].short_term
                    && !cands[i as int].important && st + short_taken_before(cands, p, i) >= cap))
        }),
    decreases n - b,
{
    let w = cands.take(n as int);
    let p = recall_picks(w.skip(b as int), b, st, cap);
    if b == n {
        assert(w.skip(b as int).len() == 0);
    } else {
        let c = w.skip(b as int)[0];
        assert(c == cands[b as int]);
        assert(w.skip(b as int).skip(1) =~= w.skip(b + 1 as int));
        let skipped = c.short_term && st >= cap && !c.important;
        let st2 = if skipped {
            st
        } else {
            st + if c.short_term {
                1nat
            } else {
                0nat
            }
        };
        lemma_recall_picks_law(cands, n, b + 1, st2, cap);
        let q = recall_picks(w.skip(b + 1 as int), (b + 1) as nat, st2, cap);
        lemma_short_taken_before_none(cands, q, b + 1);
        if skipped {
            assert(p == q);
            assert(!p.contains(b));
            lemma_short_taken_before_none(cands, q, b);
        } else {
            assert(p == seq![b] + q);
            assert(p[0] == b);
            assert(p.skip(1) =~= q);
            assert forall|t: int| 0 <= t < p.len() implies b <= #[trigger] p[t] < n by {
                if t > 0 {
                    assert(p[t] == q[t - 1]);
                }
            }
            assert forall|s: int, t: int| 0 <= s < t < p.len() implies p[s] < p[t] by {
                assert(p[t] == q[t - 1]);
                if s > 0 {
                    assert(p[s] == q[s - 1]);
                }
            }
            lemma_short_taken_before_none(cands, q, b);
            assert(short_taken_before(cands, p, b) == 0);
            assert(p.contains(b));
            assert forall|i: nat| b < i < n implies (#[trigger] p.contains(i) <==> q.contains(i)) by {
                if p.contains(i) {
                    let t = choose|t: int| 0 <= t < p.len() && p[t] == i;
                    assert(t > 0);
                    assert(q[t - 1] == i);
                }
                if q.contains(i) {
                    let t = choose|t: int| 0 <= t < q.len() && q[t] == i;
                    assert(p[t + 1] == i);
                }
            }
            assert forall|i: nat| b < i < n implies short_taken_before(cands, p, i) == (if cands[b as int].short_term {
                1nat
            } else {
                0nat
            }) + short_taken_before(cands, q, i) by {
            }
        }
    }
}

/// A recall takes, among the first `limit` candidates and in order, every
/// candidate except the short-term ones that are not important and come
/// when `short_capacity` short-term memories, important ones included,
/// were taken already.
pub proof fn lemma_recall_short_capacity(cands: Seq<RecallCandidate>, limit: nat, short_capacity: nat)
    ensures
        ({
            let r = recall_selection(cands, limit, short_capacity);
            let n = if limit < cands.len() {
                limit
            } else {
                cands.len()
            };
            &&& forall|t: int| 0 <= t < r.len() ==> #[trigger] r[t] < n
            &&& forall|s: int, t: int| 0 <= s < t < r.len() ==> r[s] < r[t]
            &&& forall|i: nat|
                i < n ==> (#[trigger] r.contains(i) <==> !(cands[i as int].short_term
                    && !cands[i as int].important && short_taken_before(cands, r, i)
                    >= short_capacity))
        }),
{
    let n: nat = if limit < cands.len() {
        limit
    } else {
        cands.len()
    };
    lemma_recall_picks_law(cands, n, 0, 0, short_capacity);
    assert(cands.take(n as int).skip(0) =~= cands.take(n as int));
}

/// Choose which of the relevant memories a recall returns, given from most
/// to least relevant: the positions of the chosen ones, in order.
pub fn select_recalled(cands: &Vec<RecallCandidate>, limit: usize, short_capacity: usize) -> (r: Vec<
    usize,
>)
    ensures
        r@.map_values(|i: usize| i as nat) == recall_selection(cands@, limit as nat, short_capacity as nat),
{
    let n = if limit < cands.len() {
        limit
    } else {
        cands.len()
    };
    let ghost window = cands@.take(n as int);
    let mut out: Vec<usize> = Vec::new();
    let mut taken: usize = 0;
    let mut k: usize = 0;
    assert(window.skip(0) =~= window);
    assert(out@.map_values(|i: usize| i as nat) =~= Seq::<nat>::empty());
    while k < n
        invariant
            n <= cands.len(),
            k <= n,
            taken <= k,
            window == cands@.take(n as int),
            out@.map_values(|i: usize| i as nat) + recall_picks(
                window.skip(k as int),
                k as nat,
                taken as nat,
                short_capacity as nat,
            ) == recall_picks(window, 0, 0, short_capacity as nat),
        decreases n - k,
    {
        let ghost rest = window.skip(k as int);
        proof {
            assert(rest[0] == cands@[k as int]);
            assert(rest.skip(1) =~= window.skip(k + 1));
        }
        let c = cands[k];
        let ghost before = out@.map_values(|i: usize| i as nat);
        if c.short_term && taken >= short_capacity && !c.important {
        } else {
            out.push(k);
            assert(out@.map_values(|i: usize| i as nat) =~= before + seq![k as nat]);
            if c.short_term {
                taken = taken + 1;
            }
        }
        k = k + 1;
    }
    proof {
        assert(window.skip(k as int).len() == 0);
        assert(out@.map_values(|i: usize| i as nat) =~= out@.map_values(|i: usize| i as nat) + recall_picks(
            window.skip(k as int),
            k as nat,
            taken as nat,
            short_capacity as nat,
        ));
    }
    out
}

} // verus!
