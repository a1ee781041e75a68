//! Audio clips produced by speech synthesis, and a size-bounded cache for
//! them that evicts the least recently used clips first.
use vstd::prelude::*;

use crate::text::{contains_seq, contains_str, str_eq, str_lowercase, to_lowercase};
use crate::utils::clock_nanos;

verus! {

/// Synthesised audio: the encoded bytes and how long they play.
#[derive(Debug)]
pub struct AudioData {
    /// Encoded audio bytes
    pub data: Vec<u8>,
    /// Playing time in milliseconds
    pub duration_ms: u64,
}

/// A byte-for-byte copy of `v`.
pub fn copy_bytes(v: &Vec<u8>) -> (r: Vec<u8>)
    ensures
        r@ == v@,
{
    let mut r: Vec<u8> = Vec::new();
    let mut i: usize = 0;
    while i < v.len()
        invariant
            i <= v.len(),
            r@ == v@.subrange(0, i as int),
        decreases v.len() - i,
    {
        r.push(v[i]);
        assert(v@.subrange(0, i + 1) =~= v@.subrange(0, i as int).push(v@[i as int]));
        i = i + 1;
    }
    assert(v@.subrange(0, v@.len() as int) =~= v@);
    r
}

impl AudioData {
    /// Size of the encoded audio in bytes.
    pub fn size_bytes(&self) -> (r: usize)
        ensures
            r == self.data@.len(),
    {
        self.data.len()
    }

    /// A copy of this clip.
    pub fn duplicate(&self) -> (r: AudioData)
        ensures
            r.data@ == self.data@,
            r.duration_ms == self.duration_ms,
    {
        AudioData { data: copy_bytes(&self.data), duration_ms: self.duration_ms }
    }
}

/// A clip held by the cache, with its bookkeeping. Times are nanoseconds
/// since the Unix epoch.
#[derive(Debug)]
pub struct CachedAudio {
    /// The cached clip
    pub data: AudioData,
    /// When the clip entered the cache
    pub created_at: u128,
    /// How many times the clip was stored or read; the count wraps to 0
    /// past `u32::MAX` rather than failing
    pub access_count: u32,
    /// When the clip was last stored or read
    pub last_accessed: u128,
}

#[derive(Debug)]
struct CacheEntry {
    key: String,
    audio: CachedAudio,
}

/// Bytes taken by a cached clip.
pub open spec fn clip_size(c: CachedAudio) -> nat {
    c.data.data@.len()
}

/// Total bytes of the clips in a sequence of cache entries.
pub open spec fn total_size(s: Seq<(Seq<char>, CachedAudio)>) -> nat
    decreases s.len(),
{
    if s.len() == 0 {
        0
    } else {
        total_size(s.drop_last()) + clip_size(s.last().1)
    }
}

/// No key occurs twice.
pub open spec fn unique_keys(s: Seq<(Seq<char>, CachedAudio)>) -> bool {
    forall|i: int, j: int| 0 <= i < s.len() && 0 <= j < s.len() && i != j ==> s[i].0 != s[j].0
}

/// `k` is one of the keys.
pub open spec fn has_key(s: Seq<(Seq<char>, CachedAudio)>, k: Seq<char>) -> bool {
    exists|i: int| 0 <= i < s.len() && s[i].0 == k
}

/// The position of key `k`.
pub open spec fn key_pos(s: Seq<(Seq<char>, CachedAudio)>, k: Seq<char>) -> int {
    choose|i: int| 0 <= i < s.len() && s[i].0 == k
}

/// The entries without the one stored under `k`, if any.
pub open spec fn without_key(s: Seq<(Seq<char>, CachedAudio)>, k: Seq<char>) -> Seq<
    (Seq<char>, CachedAudio),
> {
    s.filter(|e: (Seq<char>, CachedAudio)| e.0 != k)
}

/// `c` read once more at time `now`.
pub open spec fn touched(c: CachedAudio, now: u128) -> CachedAudio {
    CachedAudio {
        access_count: if c.access_count == u32::MAX {
            0
        } else {
            (c.access_count + 1) as u32
        },
        last_accessed: now,
        ..c
    }
}

/// Whether a clip last read at `c.last_accessed` was accessed within
/// `max_age` of `now`: it is kept unless its last access came no later than
/// `now` and more than `max_age` nanoseconds before it.
pub open spec fn still_fresh(c: CachedAudio, now: u128, max_age: u128) -> bool {
    !(c.last_accessed <= now && now - c.last_accessed > max_age)
}

/// The entries still fresh at `now` for the given maximum age, in order.
pub open spec fn fresh_entries(s: Seq<(Seq<char>, CachedAudio)>, now: u128, max_age: u128) -> Seq<
    (Seq<char>, CachedAudio),
> {
    s.filter(fresh_pred(now, max_age))
}

/// The freshness test as a predicate on entries.
pub open spec fn fresh_pred(now: u128, max_age: u128) -> spec_fn((Seq<char>, CachedAudio)) -> bool {
    |e: (Seq<char>, CachedAudio)| still_fresh(e.1, now, max_age)
}

/// Whether `kept` is what remains of `base` after evicting least recently
/// used clips until `need` more bytes fit under `max` (or nothing is left),
/// and no further.
pub open spec fn lru_evicted(
    base: Seq<(Seq<char>, CachedAudio)>,
    kept: Seq<(Seq<char>, CachedAudio)>,
    need: nat,
    max: nat,
) -> bool {
    // only entries of `base` remain
    &&& forall|j: int| 0 <= j < kept.len() ==> base.contains(#[trigger] kept[j])
    // every evicted clip was used no later than every remaining one
    &&& forall|i: int, j: int|
        0 <= i < base.len() && !kept.contains(#[trigger] base[i]) && 0 <= j < kept.len()
            ==> base[i].1.last_accessed <= (#[trigger] kept[j]).1.last_accessed
    // the new clip fits, or the cache was emptied
    &&& total_size(kept) + need <= max || kept.len() == 0
    // eviction stopped as soon as it fitted
    &&& (exists|i: int| 0 <= i < base.len() && !kept.contains(base[i])) ==> exists|i: int|
        0 <= i < base.len() && !kept.contains(#[trigger] base[i]) && total_size(kept)
            + clip_size(base[i].1) + need > max
}

/// Sum of the access counts, wrapping at `u32::MAX + 1`.
pub open spec fn total_accesses(s: Seq<(Seq<char>, CachedAudio)>) -> u32
    decreases s.len(),
{
    if s.len() == 0 {
        0
    } else {
        ((total_accesses(s.drop_last()) + s.last().1.access_count) % 0x1_0000_0000) as u32
    }
}

/// The earliest creation time, or `now` if every entry is newer.
pub open spec fn earliest_created(s: Seq<(Seq<char>, CachedAudio)>, now: u128) -> u128
    decreases s.len(),
{
    if s.len() == 0 {
        now
    } else {
        let e = earliest_created(s.drop_last(), now);
        if s.last().1.created_at < e {
            s.last().1.created_at
        } else {
            e
        }
    }
}

/// The latest creation time, or 0 if there is no entry.
pub open spec fn latest_created(s: Seq<(Seq<char>, CachedAudio)>) -> u128
    decreases s.len(),
{
    if s.len() == 0 {
        0
    } else {
        let l = latest_created(s.drop_last());
        if s.last().1.created_at > l {
            s.last().1.created_at
        } else {
            l
        }
    }
}

/// Counts describing a cache; times are nanoseconds since the Unix epoch.
#[derive(Debug, Clone, Copy, PartialEq, Eq, Structural)]
pub struct CacheCounts {
    /// The number of entries currently in the cache
    pub entry_count: usize,
    /// The total size of all cached audio data in bytes
    pub current_size_bytes: usize,
    /// The maximum allowed size of the cache in bytes
    pub max_size_bytes: usize,
    /// The total number of accesses to cached entries, wrapping past
    /// `u32::MAX`
    pub total_access_count: u32,
    /// The creation time of the oldest entry
    pub oldest_entry: Option<u128>,
    /// The creation time of the newest entry
    pub newest_entry: Option<u128>,
}

/// Caches audio data with LRU eviction and statistics.
#[derive(Debug)]
pub struct AudioCache {
    entries: Vec<CacheEntry>,
    max_size_bytes: usize,
    current_size_bytes: usize,
}

proof fn lemma_total_remove(s: Seq<(Seq<char>, CachedAudio)>, i: int)
    requires
        0 <= i < s.len(),
    ensures
        total_size(s.remove(i)) + clip_size(s[i].1) == total_size(s),
    decreases s.len(),
{
    if i == s.len() - 1 {
        assert(s.remove(i) =~= s.drop_last());
    } else {
        lemma_total_remove(s.drop_last(), i);
        assert(s.remove(i).drop_last() =~= s.drop_last().remove(i));
        assert(s.remove(i).last() == s.last());
    }
}

proof fn lemma_total_push(s: Seq<(Seq<char>, CachedAudio)>, e: (Seq<char>, CachedAudio))
    ensures
        total_size(s.push(e)) == total_size(s) + clip_size(e.1),
{
    assert(s.push(e).drop_last() =~= s);
}

proof fn lemma_total_update(s: Seq<(Seq<char>, CachedAudio)>, i: int, e: (Seq<char>, CachedAudio))
    requires
        0 <= i < s.len(),
        clip_size(e.1) == clip_size(s[i].1),
    ensures
        total_size(s.update(i, e)) == total_size(s),
    decreases s.len(),
{
    if i == s.len() - 1 {
        assert(s.update(i, e).drop_last() =~= s.drop_last());
    } else {
        lemma_total_update(s.drop_last(), i, e);
        assert(s.update(i, e).drop_last() =~= s.drop_last().update(i, e));
    }
}

proof fn lemma_key_pos(s: Seq<(Seq<char>, CachedAudio)>, j: int)
    requires
        unique_keys(s),
        0 <= j < s.len(),
    ensures
        has_key(s, s[j].0),
        key_pos(s, s[j].0) == j,
{
    assert(has_key(s, s[j].0));
}

impl AudioCache {
    /// The cached entries: each key with its clip.
    pub closed spec fn view(&self) -> Seq<(Seq<char>, CachedAudio)> {
        self.entries@.map_values(|e: CacheEntry| (e.key@, e.audio))
    }

    /// The configured maximum size in bytes.
    pub closed spec fn max_bytes(&self) -> nat {
        self.max_size_bytes as nat
    }

    /// The cache's internal consistency: keys are unique, the byte count is
    /// exact, and the maximum is exceeded only by a single clip that alone
    /// is larger than it.
    pub closed spec fn wf(&self) -> bool {
        &&& unique_keys(self@)
        &&& self.current_size_bytes as nat == total_size(self@)
        &&& self.current_size_bytes <= self.max_size_bytes || self@.len() <= 1
    }

    /// Create a new audio cache with a specified maximum size in megabytes.
    /// The cache will evict the least recently used entries when it exceeds this size.
    pub fn new(max_size_mb: usize) -> (r: AudioCache)
        requires
            max_size_mb * 1024 * 1024 <= usize::MAX,
        ensures
            r.wf(),
            r@.len() == 0,
            r.max_bytes() == max_size_mb * 1024 * 1024,
    {
        let r = AudioCache {
            entries: Vec::new(),
            max_size_bytes: max_size_mb * 1024 * 1024,
            current_size_bytes: 0,
        };
        assert(r@ =~= Seq::<(Seq<char>, CachedAudio)>::empty());
        r
    }

    fn find(&self, key: &str) -> (r: Option<usize>)
        requires
            self.wf(),
        ensures
            match r {
                Some(i) => i < self@.len() && self@[i as int].0 == key@ && has_key(self@, key@)
                    && key_pos(self@, key@) == i,
                None => !has_key(self@, key@),
            },
    {
        let mut i: usize = 0;
        while i < self.entries.len()
            invariant
                self.wf(),
                i <= self.entries.len(),
                self@.len() == self.entries.len(),
                forall|j: int| 0 <= j < i ==> self@[j].0 != key@,
            decreases self.entries.len() - i,
        {
            if str_eq(self.entries[i].key.as_str(), key) {
                proof {
                    lemma_key_pos(self@, i as int);
                }
                return Some(i);
            }
            i = i + 1;
        }
        None
    }

    /// Evicts one least recently used entry; returns its former position.
    fn evict_lru(&mut self) -> (i: usize)
        requires
            old(self).wf(),
            old(self)@.len() > 0,
        ensures
            final(self).wf(),
            final(self).max_bytes() == old(self).max_bytes(),
            i < old(self)@.len(),
            final(self)@ == old(self)@.remove(i as int),
            forall|j: int|
                0 <= j < old(self)@.len() ==> old(self)@[i as int].1.last_accessed <= (
                #[trigger] old(self)@[j]).1.last_accessed,
    {
        let mut oldest: usize = 0;
        let mut k: usize = 1;
        while k < self.entries.len()
            invariant
                self@.len() == self.entries.len(),
                oldest < self.entries.len(),
                1 <= k <= self.entries.len(),
                forall|j: int|
                    0 <= j < k ==> self@[oldest as int].1.last_accessed <= (
                    #[trigger] self@[j]).1.last_accessed,
            decreases self.entries.len() - k,
        {
            if self.entries[k].audio.last_accessed < self.entries[oldest].audio.last_accessed {
                oldest = k;
            }
            k = k + 1;
        }
        let ghost old_view = self@;
        let entry = self.entries.remove(oldest);
        proof {
            assert(self@ =~= old_view.remove(oldest as int));
            lemma_total_remove(old_view, oldest as int);
            lemma_unique_remove(old_view, oldest as int);
        }
        self.current_size_bytes = self.current_size_bytes - entry.audio.data.size_bytes();
        oldest
    }

    /// Evicts least recently used entries until `needed_bytes` more fit
    /// under the maximum, or the cache is empty.
    fn ensure_capacity(&mut self, needed_bytes: usize)
        requires
            old(self).wf(),
        ensures
            final(self).wf(),
            final(self).max_bytes() == old(self).max_bytes(),
            lru_evicted(old(self)@, final(self)@, needed_bytes as nat, old(self).max_bytes()),
            total_size(old(self)@) + needed_bytes <= old(self).max_bytes() ==> final(self)@ == old(
                self,
            )@,
    {
        let ghost base = self@;
        while self.current_size_bytes as u128 + needed_bytes as u128 > self.max_size_bytes as u128
            && self.entries.len() > 0
            invariant
                self.wf(),
                self.max_bytes() == old(self).max_bytes(),
                base == old(self)@,
                total_size(base) + needed_bytes <= self.max_bytes() ==> self@ == base,
                forall|j: int| 0 <= j < self@.len() ==> base.contains(#[trigger] self@[j]),
                forall|a: int, j: int|
                    0 <= a < base.len() && !self@.contains(#[trigger] base[a]) && 0 <= j
                        < self@.len() ==> base[a].1.last_accessed <= (
                    #[trigger] self@[j]).1.last_accessed,
                (exists|a: int| 0 <= a < base.len() && !self@.contains(base[a])) ==> exists|a: int|
                    0 <= a < base.len() && !self@.contains(#[trigger] base[a]) && total_size(
                        self@,
                    ) + clip_size(base[a].1) + needed_bytes > self.max_bytes(),
            decreases self.entries.len(),
        {
            let ghost before = self@;
            let i = self.evict_lru();
            proof {
                let m = before[i as int];
                lemma_total_remove(before, i as int);
                lemma_remove_elements(before, i as int);
                assert(!self@.contains(m));
                assert(base.contains(m));
                let am = choose|a: int| 0 <= a < base.len() && base[a] == m;
                assert(!self@.contains(base[am]));
                assert forall|j: int| 0 <= j < self@.len() implies base.contains(
                    #[trigger] self@[j],
                ) by {
                    assert(before.contains(self@[j]));
                }
                assert forall|a: int, j: int|
                    0 <= a < base.len() && !self@.contains(#[trigger] base[a]) && 0 <= j
                        < self@.len() implies base[a].1.last_accessed <= (
                #[trigger] self@[j]).1.last_accessed by {
                    assert(before.contains(self@[j]));
                    let jb = choose|x: int| 0 <= x < before.len() && before[x] == self@[j];
                    if before.contains(base[a]) {
                        let x = choose|x: int| 0 <= x < before.len() && before[x] == base[a];
                        if x != i {
                            assert(self@.contains(before[x]));
                        }
                        assert(before[i as int].1.last_accessed <= before[jb].1.last_accessed);
                    } else {
                        assert(base[a].1.last_accessed <= before[jb].1.last_accessed);
                    }
                }
            }
        }
    }

    /// Get the audio data from the cache by key, reading the clock once.
    /// If the key exists, it updates the access statistics and returns the audio data.
    pub fn get(&mut self, key: &str) -> (r: Option<AudioData>)
        requires
            old(self).wf(),
        ensures
            final(self).wf(),
            final(self).max_bytes() == old(self).max_bytes(),
            match r {
                Some(d) => has_key(old(self)@, key@) && ({
                    let i = key_pos(old(self)@, key@);
                    &&& d.data@ == old(self)@[i].1.data.data@
                    &&& d.duration_ms == old(self)@[i].1.data.duration_ms
                    &&& exists|t: u128| final(self)@ == old(self)@.update(
                        i,
                        (key@, #[trigger] touched(old(self)@[i].1, t)),
                    )
                }),
                None => !has_key(old(self)@, key@) && final(self)@ == old(self)@,
            },
    {
        let now = clock_nanos();
        self.get_at(key, now)
    }

    /// Get the audio data from the cache by key, at time `now`.
    pub fn get_at(&mut self, key: &str, now: u128) -> (r: Option<AudioData>)
        requires
            old(self).wf(),
        ensures
            final(self).wf(),
            final(self).max_bytes() == old(self).max_bytes(),
            match r {
                Some(d) => has_key(old(self)@, key@) && ({
                    let i = key_pos(old(self)@, key@);
                    &&& d.data@ == old(self)@[i].1.data.data@
                    &&& d.duration_ms == old(self)@[i].1.data.duration_ms
                    &&& final(self)@ == old(self)@.update(i, (key@, touched(old(self)@[i].1, now)))
                }),
                None => !has_key(old(self)@, key@) && final(self)@ == old(self)@,
            },
    {
        match self.find(key) {
            Some(i) => {
                let ghost old_view = self@;
                let copy = self.entries[i].audio.data.duplicate();
                let count = self.entries[i].audio.access_count;
                let new_count = if count == u32::MAX {
                    0
                } else {
                    count + 1
                };
                let mut entry = self.entries.remove(i);
                entry.audio.access_count = new_count;
                entry.audio.last_accessed = now;
                self.entries.insert(i, entry);
                proof {
                    assert(self@ =~= old_view.update(i as int, (key@, touched(old_view[i as int].1, now))));
                    lemma_total_update(old_view, i as int, (key@, touched(old_view[i as int].1, now)));
                }
                Some(copy)
            },
            None => None,
        }
    }

    /// Insert new audio data into the cache, reading the clock once.
    /// If the key already exists, it replaces the existing entry.
    pub fn insert(&mut self, key: String, data: AudioData)
        requires
            old(self).wf(),
        ensures
            final(self).wf(),
            final(self).max_bytes() == old(self).max_bytes(),
            final(self)@.len() > 0,
            final(self)@.last().0 == key@,
            final(self)@.last().1.data == data,
            final(self)@.last().1.access_count == 1,
            final(self)@.last().1.created_at == final(self)@.last().1.last_accessed,
            lru_evicted(
                without_key(old(self)@, key@),
                final(self)@.drop_last(),
                data.data@.len(),
                old(self).max_bytes(),
            ),
            total_size(without_key(old(self)@, key@)) + data.data@.len() <= old(self).max_bytes()
                ==> final(self)@.drop_last() == without_key(old(self)@, key@),
    {
        let now = clock_nanos();
        self.insert_at(key, data, now)
    }

    /// Insert new audio data into the cache at time `now`.
    /// If the key already exists, it replaces the existing entry.
    pub fn insert_at(&mut self, key: String, data: AudioData, now: u128)
        requires
            old(self).wf(),
        ensures
            final(self).wf(),
            final(self).max_bytes() == old(self).max_bytes(),
            final(self)@.len() > 0,
            final(self)@.last() == (
            key@,
            CachedAudio { data, created_at: now, access_count: 1, last_accessed: now },
            ),
            lru_evicted(
                without_key(old(self)@, key@),
                final(self)@.drop_last(),
                data.data@.len(),
                old(self).max_bytes(),
            ),
            total_size(without_key(old(self)@, key@)) + data.data@.len() <= old(self).max_bytes()
                ==> final(self)@.drop_last() == without_key(old(self)@, key@),
    {
        let data_size = data.size_bytes();
        let _ = self.remove(key.as_str());
        self.ensure_capacity(data_size);
        let ghost before = self@;
        let entry = CacheEntry {
            key,
            audio: CachedAudio { data, created_at: now, access_count: 1, last_accessed: now },
        };
        self.entries.push(entry);
        self.current_size_bytes = self.current_size_bytes + data_size;
        proof {
            assert(self@ =~= before.push(self@.last()));
            assert(self@.drop_last() =~= before);
            lemma_total_push(before, self@.last());
            assert forall|i: int, j: int|
                0 <= i < self@.len() && 0 <= j < self@.len() && i != j implies self@[i].0
                != self@[j].0 by {
                if i < before.len() && j < before.len() {
                } else if i == before.len() {
                    assert(self@[j] == before[j]);
                } else {
                    assert(self@[i] == before[i]);
                }
            }
        }
    }

    /// Remove an entry from the cache by key.
    /// If the key exists, it removes the entry and returns the audio data.
    pub fn remove(&mut self, key: &str) -> (r: Option<AudioData>)
        requires
            old(self).wf(),
        ensures
            final(self).wf(),
            final(self).max_bytes() == old(self).max_bytes(),
            final(self)@ == without_key(old(self)@, key@),
            match r {
                Some(d) => {
                    &&& has_key(old(self)@, key@)
                    &&& d == old(self)@[key_pos(old(self)@, key@)].1.data
                    &&& final(self)@ == old(self)@.remove(key_pos(old(self)@, key@))
                    &&& final(self)@.len() + 1 == old(self)@.len()
                    &&& total_size(final(self)@) + d.data@.len() == total_size(old(self)@)
                },
                None => !has_key(old(self)@, key@) && final(self)@ == old(self)@,
            },
    {
        proof {
            reveal(Seq::filter);
        }
        match self.find(key) {
            Some(i) => {
                let ghost old_view = self@;
                let entry = self.entries.remove(i);
                proof {
                    assert(self@ =~= old_view.remove(i as int));
                    lemma_total_remove(old_view, i as int);
                    lemma_without_key_at(old_view, i as int);
                    lemma_unique_remove(old_view, i as int);
                    lemma_key_pos(old_view, i as int);
                }
                self.current_size_bytes = self.current_size_bytes - entry.audio.data.size_bytes();
                Some(entry.audio.data)
            },
            None => {
                proof {
                    lemma_without_absent(self@, key@);
                }
                None
            },
        }
    }

    /// Cleanup expired entries: remove every entry that has not been
    /// accessed within `max_age_nanos` nanoseconds, reading the clock once.
    pub fn cleanup_expired(&mut self, max_age_nanos: u128)
        requires
            old(self).wf(),
        ensures
            final(self).wf(),
            final(self).max_bytes() == old(self).max_bytes(),
            exists|now: u128| final(self)@ == #[trigger] fresh_entries(old(self)@, now, max_age_nanos),
    {
        let now = clock_nanos();
        self.cleanup_expired_at(now, max_age_nanos);
    }

    /// Remove every entry whose last access came more than `max_age_nanos`
    /// before `now`. Entries last read after `now` are kept.
    pub fn cleanup_expired_at(&mut self, now: u128, max_age_nanos: u128)
        requires
            old(self).wf(),
        ensures
            final(self).wf(),
            final(self).max_bytes() == old(self).max_bytes(),
            final(self)@ == fresh_entries(old(self)@, now, max_age_nanos),
    {
        let ghost keep = fresh_pred(now, max_age_nanos);
        let ghost orig = self@;
        let mut i: usize = 0;
        let ghost mut j: int = 0;
        proof {
            reveal(Seq::filter);
            assert(orig.take(0).filter(keep) =~= Seq::<(Seq<char>, CachedAudio)>::empty());
            assert(orig.skip(0) =~= orig);
            assert(self@ =~= orig.take(0).filter(keep) + orig.skip(0));
        }
        while i < self.entries.len()
            invariant
                self.wf(),
                self.max_bytes() == old(self).max_bytes(),
                orig == old(self)@,
                keep == fresh_pred(now, max_age_nanos),
                0 <= j <= orig.len(),
                i as int == orig.take(j).filter(keep).len(),
                self@ == orig.take(j).filter(keep) + orig.skip(j),
                self@.len() == self.entries.len(),
            decreases self.entries.len() - i,
        {
            let ghost before = self@;
            proof {
                assert(before[i as int] == (self.entries@[i as int].key@, self.entries@[i as int].audio));
                assert(before[i as int] == orig[j]);
                assert(orig.take(j + 1) =~= orig.take(j).push(orig[j]));
                reveal(Seq::filter);
                assert(orig.take(j + 1).drop_last() =~= orig.take(j));
                assert(orig.skip(j + 1) =~= orig.skip(j).drop_first());
                assert(orig.take(j + 1).last() == orig[j]);
                if keep(orig[j]) {
                    assert(orig.take(j + 1).filter(keep) == orig.take(j).filter(keep).push(orig[j]));
                } else {
                    assert(orig.take(j + 1).filter(keep) == orig.take(j).filter(keep));
                }
            }
            let c = &self.entries[i].audio;
            let expired = c.last_accessed <= now && now - c.last_accessed > max_age_nanos;
            if expired {
                let entry = self.entries.remove(i);
                proof {
                    assert(self@ =~= before.remove(i as int));
                    lemma_total_remove(before, i as int);
                    lemma_unique_remove(before, i as int);
                    assert(!keep(orig[j]));
                    assert(orig.take(j + 1).filter(keep) == orig.take(j).filter(keep));
                    assert(before.remove(i as int) =~= orig.take(j).filter(keep) + orig.skip(j + 1));
                    assert(self@ =~= orig.take(j + 1).filter(keep) + orig.skip(j + 1));
                }
                self.current_size_bytes = self.current_size_bytes - entry.audio.data.size_bytes();
            } else {
                i = i + 1;
                proof {
                    assert(keep(orig[j]));
                    assert(orig.take(j + 1).filter(keep) == orig.take(j).filter(keep).push(orig[j]));
                    assert(self@ =~= orig.take(j + 1).filter(keep) + orig.skip(j + 1));
                }
            }
            proof {
                j = j + 1;
            }
        }
        proof {
            assert(orig.take(j) =~= orig);
            assert(orig.skip(j) =~= Seq::<(Seq<char>, CachedAudio)>::empty());
            assert(self@ =~= orig.filter(keep));
            assert(fresh_entries(orig, now, max_age_nanos) == orig.filter(keep));
        }
    }

    /// Counts describing the cache, the clock reading `now`: entries,
    /// bytes, total accesses, and the creation times of the oldest entry (no
    /// later than `now`) and of the newest.
    pub fn counts_at(&self, now: u128) -> (r: CacheCounts)
        requires
            self.wf(),
        ensures
            r.entry_count == self@.len(),
            r.current_size_bytes == total_size(self@),
            r.max_size_bytes == self.max_bytes(),
            r.total_access_count == total_accesses(self@),
            r.oldest_entry == if self@.len() == 0 {
                None
            } else {
                Some(earliest_created(self@, now))
            },
            r.newest_entry == if self@.len() == 0 {
                None
            } else {
                Some(latest_created(self@))
            },
    {
        let mut total: u32 = 0;
        let mut oldest: u128 = now;
        let mut newest: u128 = 0;
        let mut i: usize = 0;
        while i < self.entries.len()
            invariant
                i <= self.entries.len(),
                self@.len() == self.entries.len(),
                total == total_accesses(self@.take(i as int)),
                oldest == earliest_created(self@.take(i as int), now),
                newest == latest_created(self@.take(i as int)),
            decreases self.entries.len() - i,
        {
            proof {
                assert(self@.take(i + 1).drop_last() =~= self@.take(i as int));
                assert(self@.take(i + 1).last() == self@[i as int]);
            }
            let c = &self.entries[i].audio;
            total = total.wrapping_add(c.access_count);
            if c.created_at < oldest {
                oldest = c.created_at;
            }
            if c.created_at > newest {
                newest = c.created_at;
            }
            i = i + 1;
        }
        assert(self@.take(self@.len() as int) =~= self@);
        let empty = self.entries.len() == 0;
        CacheCounts {
            entry_count: self.entries.len(),
            current_size_bytes: self.current_size_bytes,
            max_size_bytes: self.max_size_bytes,
            total_access_count: total,
            oldest_entry: if empty {
                None
            } else {
                Some(oldest)
            },
            newest_entry: if empty {
                None
            } else {
                Some(newest)
            },
        }
    }

    /// Counts describing the cache, reading the clock once for the oldest
    /// entry's bound.
    pub fn counts(&self) -> (r: CacheCounts)
        requires
            self.wf(),
        ensures
            exists|now: u128| r == #[trigger] self.counts_spec(now),
    {
        let now = clock_nanos();
        let r = self.counts_at(now);
        assert(r == self.counts_spec(now));
        r
    }

    /// What `counts_at` returns for a clock reading.
    pub open spec fn counts_spec(&self, now: u128) -> CacheCounts {
        CacheCounts {
            entry_count: self@.len() as usize,
            current_size_bytes: total_size(self@) as usize,
            max_size_bytes: self.max_bytes() as usize,
            total_access_count: total_accesses(self@),
            oldest_entry: if self@.len() == 0 {
                None
            } else {
                Some(earliest_created(self@, now))
            },
            newest_entry: if self@.len() == 0 {
                None
            } else {
                Some(latest_created(self@))
            },
        }
    }

    /// Check if the cache contains a key.
    /// Returns true if the key exists in the cache, false otherwise.
    pub fn contains_key(&self, key: &str) -> (r: bool)
        requires
            self.wf(),
        ensures
            r == has_key(self@, key@),
    {
        self.find(key).is_some()
    }

    /// Clear the cache, removing all entries.
    /// This resets the cache size to zero.
    pub fn clear(&mut self)
        requires
            old(self).wf(),
        ensures
            final(self).wf(),
            final(self)@.len() == 0,
            final(self).max_bytes() == old(self).max_bytes(),
    {
        self.entries = Vec::new();
        self.current_size_bytes = 0;
        assert(self@ =~= Seq::<(Seq<char>, CachedAudio)>::empty());
    }

    /// Get the number of entries in the cache.
    /// Returns the count of cached audio entries.
    pub fn len(&self) -> (r: usize)
        ensures
            r == self@.len(),
    {
        self.entries.len()
    }

    /// Check if the cache is empty.
    /// Returns true if there are no entries in the cache, false otherwise.
    pub fn is_empty(&self) -> (r: bool)
        ensures
            r == (self@.len() == 0),
    {
        self.entries.len() == 0
    }

    /// Get the current size of the cache in bytes.
    /// Returns the total size of all cached audio data.
    pub fn current_size_bytes(&self) -> (r: usize)
        requires
            self.wf(),
        ensures
            r == total_size(self@),
    {
        self.current_size_bytes
    }

    /// Get the maximum size of the cache in bytes.
    /// Returns the configured maximum size of the cache.
    pub fn max_size_bytes(&self) -> (r: usize)
        ensures
            r == self.max_bytes(),
    {
        self.max_size_bytes
    }
}

/// The cache never holds more bytes than its maximum, except when a single
/// clip alone is larger than the maximum.
pub proof fn lemma_cache_within_capacity(c: &AudioCache)
    requires
        c.wf(),
    ensures
        total_size(c@) <= c.max_bytes() || c@.len() <= 1,
{
}

/// A well-formed cache holds no key twice.
pub proof fn lemma_wf_unique_keys(c: &AudioCache)
    requires
        c.wf(),
    ensures
        unique_keys(c@),
{
}

/// Without the entry of a key, a cache whose keys are unique is one entry
/// shorter where the key was there, and unchanged where it was not.
pub proof fn lemma_without_key_len(s: Seq<(Seq<char>, CachedAudio)>, k: Seq<char>)
    requires
        unique_keys(s),
    ensures
        has_key(s, k) ==> without_key(s, k) == s.remove(key_pos(s, k)) && without_key(s, k).len()
            + 1 == s.len(),
        !has_key(s, k) ==> without_key(s, k) == s,
{
    if has_key(s, k) {
        lemma_without_key_at(s, key_pos(s, k));
    } else {
        lemma_without_absent(s, k);
    }
}

/// A read after a write finds what was written: the clip a cache stores
/// last under a key is the one found under that key.
pub proof fn lemma_read_after_write(c: &AudioCache, k: Seq<char>, clip: CachedAudio)
    requires
        c.wf(),
        c@.len() > 0,
        c@.last() == (k, clip),
    ensures
        has_key(c@, k),
        c@[key_pos(c@, k)].1 == clip,
{
    lemma_key_pos(c@, c@.len() - 1);
}

/// A removed key is no longer found.
pub proof fn lemma_removed_key_absent(s: Seq<(Seq<char>, CachedAudio)>, k: Seq<char>)
    ensures
        !has_key(without_key(s, k), k),
{
    let w = without_key(s, k);
    let pred = |e: (Seq<char>, CachedAudio)| e.0 != k;
    if has_key(w, k) {
        let i = choose|i: int| 0 <= i < w.len() && w[i].0 == k;
        s.lemma_filter_pred(pred, i);
    }
}

proof fn lemma_unique_remove(s: Seq<(Seq<char>, CachedAudio)>, i: int)
    requires
        unique_keys(s),
        0 <= i < s.len(),
    ensures
        unique_keys(s.remove(i)),
{
    let r = s.remove(i);
    assert forall|a: int, b: int| 0 <= a < r.len() && 0 <= b < r.len() && a != b implies r[a].0
        != r[b].0 by {
        let sa = if a < i { a } else { a + 1 };
        let sb = if b < i { b } else { b + 1 };
        assert(r[a] == s[sa] && r[b] == s[sb]);
    }
}

/// What stays after removing position `i`: every other entry, and not the
/// removed one (its key is unique).
proof fn lemma_remove_elements(s: Seq<(Seq<char>, CachedAudio)>, i: int)
    requires
        unique_keys(s),
        0 <= i < s.len(),
    ensures
        forall|x: int| 0 <= x < s.len() && x != i ==> s.remove(i).contains(#[trigger] s[x]),
        forall|j: int| 0 <= j < s.remove(i).len() ==> s.contains(#[trigger] s.remove(i)[j]),
        !s.remove(i).contains(s[i]),
{
    let r = s.remove(i);
    assert forall|x: int| 0 <= x < s.len() && x != i implies r.contains(#[trigger] s[x]) by {
        let y = if x < i { x } else { x - 1 };
        assert(r[y] == s[x]);
    }
    assert forall|j: int| 0 <= j < r.len() implies s.contains(#[trigger] r[j]) by {
        let y = if j < i { j } else { j + 1 };
        assert(r[j] == s[y]);
    }
    if r.contains(s[i]) {
        let j = choose|j: int| 0 <= j < r.len() && r[j] == s[i];
        let y = if j < i { j } else { j + 1 };
        assert(r[j] == s[y]);
    }
}

proof fn lemma_without_absent(s: Seq<(Seq<char>, CachedAudio)>, k: Seq<char>)
    requires
        !has_key(s, k),
    ensures
        without_key(s, k) == s,
    decreases s.len(),
{
    reveal(Seq::filter);
    if s.len() > 0 {
        assert(!has_key(s.drop_last(), k)) by {
            if has_key(s.drop_last(), k) {
                let i = choose|i: int| 0 <= i < s.drop_last().len() && s.drop_last()[i].0 == k;
                assert(s[i].0 == k);
            }
        }
        lemma_without_absent(s.drop_last(), k);
        assert(s.last().0 != k);
        assert(s.drop_last().push(s.last()) =~= s);
    }
}

proof fn lemma_without_key_at(s: Seq<(Seq<char>, CachedAudio)>, i: int)
    requires
        unique_keys(s),
        0 <= i < s.len(),
    ensures
        without_key(s, s[i].0) == s.remove(i),
    decreases s.len(),
{
    reveal(Seq::filter);
    let k = s[i].0;
    if i == s.len() - 1 {
        assert(!has_key(s.drop_last(), k)) by {
            if has_key(s.drop_last(), k) {
                let j = choose|j: int| 0 <= j < s.drop_last().len() && s.drop_last()[j].0 == k;
                assert(s[j].0 == k);
            }
        }
        lemma_without_absent(s.drop_last(), k);
        assert(s.remove(i) =~= s.drop_last());
    } else {
        lemma_without_key_at(s.drop_last(), i);
        assert(s.drop_last()[i].0 == k);
        assert(s.last().0 != k);
        assert(s.remove(i) =~= s.drop_last().remove(i).push(s.last()));
    }
}

/// Represents Gender options for voice profiles
#[derive(Debug, Clone, Copy, PartialEq, Eq, Structural)]
pub enum Gender {
    /// Male agent voice
    Male,
    /// Female agent voice
    Female,
    /// Non-binary agent voice
    NonBinary,
    /// Androgynous agent voice
    Androgynous,
}

/// The traits of a personality description that shape an NPC's emotional
/// voice range.
#[derive(Debug, Clone, Copy, PartialEq, Eq, Structural)]
pub struct VoiceTraits {
    /// Cheerful or optimistic
    pub cheerful: bool,
    /// Grumpy or irritable
    pub grumpy: bool,
    /// Nervous or anxious
    pub nervous: bool,
    /// Energetic or enthusiastic
    pub energetic: bool,
}

/// Whether the description, lowercased, mentions one of two words.
pub open spec fn mentions_either(description: Seq<char>, a: Seq<char>, b: Seq<char>) -> bool {
    contains_seq(str_lowercase(description), a) || contains_seq(str_lowercase(description), b)
}

/// Read the voice traits from a personality description, ignoring case.
pub fn voice_traits(personality: &str) -> (r: VoiceTraits)
    ensures
        r.cheerful == mentions_either(personality@, "cheerful"@, "optimistic"@),
        r.grumpy == mentions_either(personality@, "grumpy"@, "irritable"@),
        r.nervous == mentions_either(personality@, "nervous"@, "anxious"@),
        r.energetic == mentions_either(personality@, "energetic"@, "enthusiastic"@),
{
    let lower = to_lowercase(personality);
    let l = lower.as_str();
    VoiceTraits {
        cheerful: contains_str(l, "cheerful") || contains_str(l, "optimistic"),
        grumpy: contains_str(l, "grumpy") || contains_str(l, "irritable"),
        nervous: contains_str(l, "nervous") || contains_str(l, "anxious"),
        energetic: contains_str(l, "energetic") || contains_str(l, "enthusiastic"),
    }
}

} // verus!
