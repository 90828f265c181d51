//! LRU frame cache with a byte budget, for low-memory resilience.
//!
//! Frames are keyed by `(asset, frame number)`.  When either the entry
//! budget or the byte budget would be exceeded, the least recently used
//! frames are dropped first.

use vstd::prelude::*;
use std::sync::Arc;
use crate::ids::AssetId;
use crate::num::F32Bits;

verus! {

/// Counters for monitoring cache performance.
#[derive(Debug, Clone, Copy)]
pub struct CacheStats {
    pub hits: u64,
    pub misses: u64,
    pub evictions: u64,
    /// Total bytes of cached frame data (pixel buffers) counted so far.
    pub total_bytes: u64,
    pub entry_count: usize,
}

impl Default for CacheStats {
    fn default() -> (s: Self)
        ensures
            s.hits == 0 && s.misses == 0 && s.evictions == 0 && s.total_bytes == 0 && s.entry_count == 0,
    {
        CacheStats { hits: 0, misses: 0, evictions: 0, total_bytes: 0, entry_count: 0 }
    }
}

/// Budget of the frame cache.
#[derive(Debug, Clone, Copy)]
pub struct CacheConfig {
    /// Maximum number of cached frames.
    pub max_entries: usize,
    /// Maximum total bytes of pixel data before eviction; 0 means no byte
    /// limit (only `max_entries` governs).
    pub max_bytes: u64,
}

impl Default for CacheConfig {
    /// 512 frames, 512 MiB.
    fn default() -> (c: Self)
        ensures
            c.max_entries == 512 && c.max_bytes == 512 * 1024 * 1024,
    {
        CacheConfig { max_entries: 512, max_bytes: 512 * 1024 * 1024 }
    }
}

impl CacheConfig {
    /// A reduced-footprint budget for low-memory / proxy workflows: 128
    /// frames, 128 MiB.
    pub fn low_memory() -> (c: Self)
        ensures
            c.max_entries == 128 && c.max_bytes == 128 * 1024 * 1024,
    {
        CacheConfig { max_entries: 128, max_bytes: 128 * 1024 * 1024 }
    }
}

/// Configuration of the media pool.
#[derive(Debug, Clone, Copy)]
pub struct PoolConfig {
    /// Frame cache budget.
    pub cache: CacheConfig,
}

impl Default for PoolConfig {
    /// The default cache budget.
    fn default() -> (c: Self)
        ensures
            c.cache.max_entries == 512 && c.cache.max_bytes == 512 * 1024 * 1024,
    {
        PoolConfig { cache: CacheConfig::default() }
    }
}

impl PoolConfig {
    /// The reduced-footprint cache budget for low-memory / proxy workflows.
    pub fn low_memory() -> (c: Self)
        ensures
            c.cache.max_entries == 128 && c.cache.max_bytes == 128 * 1024 * 1024,
    {
        PoolConfig { cache: CacheConfig::low_memory() }
    }
}

/// The cache budget for low-memory mode on or off.
pub fn cache_config_for(low_memory: bool) -> (c: CacheConfig)
    ensures
        low_memory ==> c.max_entries == 128 && c.max_bytes == 128 * 1024 * 1024,
        !low_memory ==> c.max_entries == 512 && c.max_bytes == 512 * 1024 * 1024,
{
    if low_memory {
        CacheConfig::low_memory()
    } else {
        CacheConfig::default()
    }
}

/// Audio samples decoded alongside a frame (each sample an `f32` carried by
/// its bit pattern).
#[derive(Debug, Clone)]
pub struct AudioFrame {
    pub samples: Vec<F32Bits>,
    pub sample_rate: u32,
    pub channels: u8,
}

/// A decoded frame: RGBA pixels plus optional audio.
#[derive(Debug, Clone)]
pub struct DecodedFrame {
    pub width: u32,
    pub height: u32,
    /// RGBA pixel data, row-major, `width * height * 4` bytes.
    pub data: Vec<u8>,
    /// Presentation timestamp in the source's time base.
    pub pts: i64,
    pub audio: Option<AudioFrame>,
}

/// The byte cost of a cached frame: the length of its pixel data.
pub open spec fn frame_bytes(f: Arc<DecodedFrame>) -> int {
    f.data@.len() as int
}

/// Sum of the byte costs of the frames in `entries`.
pub open spec fn bytes_of(entries: Seq<((AssetId, i64), Arc<DecodedFrame>)>) -> int
    decreases entries.len(),
{
    if entries.len() == 0 {
        0
    } else {
        bytes_of(entries.drop_last()) + frame_bytes(entries.last().1)
    }
}

/// Position of the entry with key `key`.
pub open spec fn entry_pos(entries: Seq<((AssetId, i64), Arc<DecodedFrame>)>, key: (AssetId, i64)) -> Option<int> {
    if exists|i: int| 0 <= i < entries.len() && entries[i].0 == key {
        Some(choose|i: int| 0 <= i < entries.len() && entries[i].0 == key)
    } else {
        None
    }
}

/// The frame stored under `key`.
pub open spec fn lookup(entries: Seq<((AssetId, i64), Arc<DecodedFrame>)>, key: (AssetId, i64)) -> Option<
    Arc<DecodedFrame>,
> {
    match entry_pos(entries, key) {
        Some(i) => Some(entries[i].1),
        None => None,
    }
}

/// Position of the first occurrence of `key` in `s`.
pub open spec fn first_pos(s: Seq<(AssetId, i64)>, key: (AssetId, i64)) -> Option<int> {
    if exists|i: int| 0 <= i < s.len() && s[i] == key && forall|j: int| 0 <= j < i ==> s[j] != key {
        Some(choose|i: int| 0 <= i < s.len() && s[i] == key && forall|j: int| 0 <= j < i ==> s[j] != key)
    } else {
        None
    }
}

/// `s` without its first occurrence of `key`.
pub open spec fn without_first(s: Seq<(AssetId, i64)>, key: (AssetId, i64)) -> Seq<(AssetId, i64)> {
    match first_pos(s, key) {
        Some(i) => s.remove(i),
        None => s,
    }
}

/// The abstract state of a cache: its entries, its recency list (least
/// recently used first) and its counters.
pub struct CacheState {
    pub entries: Seq<((AssetId, i64), Arc<DecodedFrame>)>,
    pub lru: Seq<(AssetId, i64)>,
    pub stats: CacheStats,
}

/// No key is stored twice, every stored key is in the recency list, the
/// entry count is the number of entries, and the byte total covers the
/// stored frames.
pub open spec fn state_wf(s: CacheState) -> bool {
    &&& forall|i: int, j: int| 0 <= i < j < s.entries.len() ==> s.entries[i].0 != s.entries[j].0
    &&& forall|i: int| 0 <= i < s.entries.len() ==> s.lru.contains(#[trigger] s.entries[i].0)
    &&& s.stats.entry_count == s.entries.len()
    &&& s.stats.total_bytes == bytes_of(s.entries)
}

/// The state after evicting `key`: its frame (if stored) leaves and its
/// bytes are released and counted as an eviction; its first occurrence
/// leaves the recency list.
pub open spec fn evict_key(s: CacheState, key: (AssetId, i64)) -> CacheState {
    let entries = match entry_pos(s.entries, key) {
        Some(i) => s.entries.remove(i),
        None => s.entries,
    };
    let stats = match entry_pos(s.entries, key) {
        Some(i) => CacheStats {
            total_bytes: (s.stats.total_bytes - frame_bytes(s.entries[i].1)) as u64,
            evictions: (s.stats.evictions + 1) as u64,
            entry_count: entries.len() as usize,
            ..s.stats
        },
        None => CacheStats { entry_count: entries.len() as usize, ..s.stats },
    };
    CacheState { entries, lru: without_first(s.lru, key), stats }
}

/// Evict the least recently used key (the front of the recency list).
pub open spec fn evict_oldest(s: CacheState) -> CacheState {
    CacheState { lru: s.lru.drop_first(), ..evict_key(s, s.lru[0]) }
}

/// Evict oldest keys while there are at least `max_entries` frames (and at
/// least one).
pub open spec fn shrink_to_count(s: CacheState, max_entries: int) -> CacheState
    decreases s.lru.len(),
{
    if s.entries.len() >= max_entries && s.entries.len() > 0 && s.lru.len() > 0 {
        shrink_to_count(evict_oldest(s), max_entries)
    } else {
        s
    }
}

/// Evict oldest keys while the counted bytes plus `incoming` exceed
/// `max_bytes` (and a frame is left).
pub open spec fn shrink_to_bytes(s: CacheState, max_bytes: int, incoming: int) -> CacheState
    decreases s.lru.len(),
{
    if s.stats.total_bytes + incoming > max_bytes && s.entries.len() > 0 && s.lru.len() > 0 {
        shrink_to_bytes(evict_oldest(s), max_bytes, incoming)
    } else {
        s
    }
}

/// Evict oldest keys while the frame count exceeds `max_entries`.
pub open spec fn shrink_above_count(s: CacheState, max_entries: int) -> CacheState
    decreases s.lru.len(),
{
    if s.entries.len() > max_entries && s.lru.len() > 0 {
        shrink_above_count(evict_oldest(s), max_entries)
    } else {
        s
    }
}

/// Make room for a frame of `incoming` bytes: below `max_entries` frames,
/// then (with a byte limit) within `max_bytes` bytes.
pub open spec fn make_room(s: CacheState, max_entries: int, max_bytes: int, incoming: int) -> CacheState {
    let s1 = shrink_to_count(s, max_entries);
    if max_bytes > 0 {
        shrink_to_bytes(s1, max_bytes, incoming)
    } else {
        s1
    }
}

/// Fit within the budgets after they changed.
pub open spec fn fit_budget(s: CacheState, max_entries: int, max_bytes: int) -> CacheState {
    let s1 = shrink_above_count(s, max_entries);
    if max_bytes > 0 {
        shrink_to_bytes(s1, max_bytes, 0)
    } else {
        s1
    }
}

/// `entries` with `key` bound to `f` (in place when already stored).
pub open spec fn upsert(
    entries: Seq<((AssetId, i64), Arc<DecodedFrame>)>,
    key: (AssetId, i64),
    f: Arc<DecodedFrame>,
) -> Seq<((AssetId, i64), Arc<DecodedFrame>)> {
    match entry_pos(entries, key) {
        Some(i) => entries.update(i, (key, f)),
        None => entries.push((key, f)),
    }
}

/// The state after inserting frame `f` under `key`: room is made, the frame
/// is stored (replacing any frame under that key, whose bytes are released),
/// the key becomes the most recently used, and its bytes are counted.
pub open spec fn inserted_state(
    s: CacheState,
    max_entries: int,
    max_bytes: int,
    key: (AssetId, i64),
    f: Arc<DecodedFrame>,
) -> CacheState {
    let r = make_room(s, max_entries, max_bytes, frame_bytes(f));
    let entries = upsert(r.entries, key, f);
    let released = match entry_pos(r.entries, key) {
        Some(i) => frame_bytes(r.entries[i].1),
        None => 0,
    };
    CacheState {
        entries,
        lru: without_first(r.lru, key).push(key),
        stats: CacheStats {
            total_bytes: (r.stats.total_bytes - released + frame_bytes(f)) as u64,
            entry_count: entries.len() as usize,
            ..r.stats
        },
    }
}

/// The state after looking up `key`: a hit is counted and the key becomes
/// the most recently used; a miss is counted.
pub open spec fn read_state(s: CacheState, key: (AssetId, i64)) -> CacheState {
    if lookup(s.entries, key) is Some {
        CacheState {
            lru: match first_pos(s.lru, key) {
                Some(i) => s.lru.remove(i).push(key),
                None => s.lru,
            },
            stats: CacheStats { hits: (s.stats.hits + 1) as u64, ..s.stats },
            ..s
        }
    } else {
        CacheState { stats: CacheStats { misses: (s.stats.misses + 1) as u64, ..s.stats }, ..s }
    }
}


proof fn lemma_bytes_remove(e: Seq<((AssetId, i64), Arc<DecodedFrame>)>, i: int)
    requires
        0 <= i < e.len(),
    ensures
        bytes_of(e.remove(i)) == bytes_of(e) - frame_bytes(e[i].1),
    decreases e.len(),
{
    if i == e.len() - 1 {
        assert(e.remove(i) =~= e.drop_last());
    } else {
        lemma_bytes_remove(e.drop_last(), i);
        assert(e.remove(i).drop_last() =~= e.drop_last().remove(i));
        assert(e.remove(i).last() == e.last());
    }
}

proof fn lemma_bytes_update(e: Seq<((AssetId, i64), Arc<DecodedFrame>)>, i: int, x: ((AssetId, i64), Arc<DecodedFrame>))
    requires
        0 <= i < e.len(),
    ensures
        bytes_of(e.update(i, x)) == bytes_of(e) - frame_bytes(e[i].1) + frame_bytes(x.1),
    decreases e.len(),
{
    if i == e.len() - 1 {
        assert(e.update(i, x).drop_last() =~= e.drop_last());
    } else {
        lemma_bytes_update(e.drop_last(), i, x);
        assert(e.update(i, x).drop_last() =~= e.drop_last().update(i, x));
    }
}

proof fn lemma_bytes_nonneg(e: Seq<((AssetId, i64), Arc<DecodedFrame>)>)
    ensures
        bytes_of(e) >= 0,
    decreases e.len(),
{
    if e.len() > 0 {
        lemma_bytes_nonneg(e.drop_last());
    }
}

proof fn lemma_first_pos_is(s: Seq<(AssetId, i64)>, key: (AssetId, i64), i: int)
    requires
        0 <= i < s.len(),
        s[i] == key,
        forall|j: int| 0 <= j < i ==> s[j] != key,
    ensures
        first_pos(s, key) == Some(i),
{
    let k = first_pos(s, key)->0;
    if k < i {
        assert(s[k] != key);
    }
    if i < k {
        assert(s[i] != key);
    }
}

proof fn lemma_entry_pos_unique(e: Seq<((AssetId, i64), Arc<DecodedFrame>)>, key: (AssetId, i64), i: int)
    requires
        0 <= i < e.len(),
        e[i].0 == key,
        forall|a: int, b: int| 0 <= a < b < e.len() ==> e[a].0 != e[b].0,
    ensures
        entry_pos(e, key) == Some(i),
{
    let k = entry_pos(e, key)->0;
    if k != i {
        if k < i {
            assert(e[k].0 != e[i].0);
        } else {
            assert(e[i].0 != e[k].0);
        }
    }
}

/// Evicting a key keeps the cache well formed.
proof fn lemma_evict_wf(s: CacheState, key: (AssetId, i64))
    requires
        state_wf(s),
    ensures
        state_wf(evict_key(s, key)),
        evict_key(s, key).entries.len() <= s.entries.len(),
        evict_key(s, key).stats.total_bytes <= s.stats.total_bytes,
        evict_key(s, key).stats.evictions + evict_key(s, key).entries.len() <= s.stats.evictions + s.entries.len(),
        evict_key(s, key).stats.hits == s.stats.hits,
        evict_key(s, key).stats.misses == s.stats.misses,
        s.lru.len() > 0 && s.lru[0] == key ==> evict_oldest(s) == evict_key(s, key),
{
    let t = evict_key(s, key);
    lemma_bytes_nonneg(s.entries);
    if s.lru.len() > 0 && s.lru[0] == key {
        lemma_first_pos_is(s.lru, key, 0);
        assert(s.lru.remove(0) =~= s.lru.drop_first());
    }
    match entry_pos(s.entries, key) {
        Some(i) => {
            lemma_bytes_remove(s.entries, i);
            lemma_bytes_nonneg(s.entries.remove(i));
            assert forall|a: int, b: int| 0 <= a < b < t.entries.len() implies t.entries[a].0 != t.entries[b].0 by {
                let a2 = if a < i { a } else { a + 1 };
                let b2 = if b < i { b } else { b + 1 };
                assert(t.entries[a] == s.entries[a2] && t.entries[b] == s.entries[b2]);
            }
            assert forall|j: int| 0 <= j < t.entries.len() implies t.lru.contains(#[trigger] t.entries[j].0) by {
                let j2 = if j < i { j } else { j + 1 };
                assert(t.entries[j] == s.entries[j2]);
                assert(s.entries[j2].0 != key) by {
                    assert(j2 != i);
                    if j2 < i {
                        assert(s.entries[j2].0 != s.entries[i].0);
                    } else {
                        assert(s.entries[i].0 != s.entries[j2].0);
                    }
                }
                lemma_without_first_keeps(s.lru, key, s.entries[j2].0);
            }
        },
        None => {
            assert forall|j: int| 0 <= j < t.entries.len() implies t.lru.contains(#[trigger] t.entries[j].0) by {
                assert(t.entries[j].0 != key);
                lemma_without_first_keeps(s.lru, key, t.entries[j].0);
            }
        },
    }
}

proof fn lemma_without_first_keeps(s: Seq<(AssetId, i64)>, key: (AssetId, i64), other: (AssetId, i64))
    requires
        s.contains(other),
        other != key,
    ensures
        without_first(s, key).contains(other),
{
    let j = choose|j: int| 0 <= j < s.len() && s[j] == other;
    match first_pos(s, key) {
        Some(i) => {
            assert(0 <= i < s.len() && s[i] == key);
            assert(j != i);
            let r = s.remove(i);
            if j < i {
                assert(r[j] == other);
            } else {
                assert(j != i);
                assert(r[j - 1] == other);
            }
        },
        None => {},
    }
}

/// In a well-formed cache with frames, the recency list is not empty.
proof fn lemma_wf_lru_nonempty(s: CacheState)
    requires
        state_wf(s),
        s.entries.len() > 0,
    ensures
        s.lru.len() > 0,
{
    assert(s.lru.contains(s.entries[0].0));
}

proof fn lemma_shrink_count(s: CacheState, max_entries: int)
    requires
        state_wf(s),
    ensures
        state_wf(shrink_to_count(s, max_entries)),
        shrink_to_count(s, max_entries).entries.len() < max_entries || shrink_to_count(s, max_entries).entries.len() == 0,
        shrink_to_count(s, max_entries).entries.len() <= s.entries.len(),
        shrink_to_count(s, max_entries).stats.total_bytes <= s.stats.total_bytes,
        shrink_to_count(s, max_entries).stats.evictions + shrink_to_count(s, max_entries).entries.len()
            <= s.stats.evictions + s.entries.len(),
        shrink_to_count(s, max_entries).stats.hits == s.stats.hits,
        shrink_to_count(s, max_entries).stats.misses == s.stats.misses,
    decreases s.lru.len(),
{
    if s.entries.len() >= max_entries && s.entries.len() > 0 && s.lru.len() > 0 {
        lemma_evict_wf(s, s.lru[0]);
        lemma_shrink_count(evict_oldest(s), max_entries);
    } else if s.entries.len() > 0 {
        lemma_wf_lru_nonempty(s);
    }
}

proof fn lemma_shrink_bytes(s: CacheState, max_bytes: int, incoming: int)
    requires
        state_wf(s),
    ensures
        state_wf(shrink_to_bytes(s, max_bytes, incoming)),
        shrink_to_bytes(s, max_bytes, incoming).entries.len() <= s.entries.len(),
        shrink_to_bytes(s, max_bytes, incoming).stats.total_bytes <= s.stats.total_bytes,
        shrink_to_bytes(s, max_bytes, incoming).stats.evictions + shrink_to_bytes(s, max_bytes, incoming).entries.len()
            <= s.stats.evictions + s.entries.len(),
        shrink_to_bytes(s, max_bytes, incoming).stats.hits == s.stats.hits,
        shrink_to_bytes(s, max_bytes, incoming).stats.misses == s.stats.misses,
    decreases s.lru.len(),
{
    if s.stats.total_bytes + incoming > max_bytes && s.entries.len() > 0 && s.lru.len() > 0 {
        lemma_evict_wf(s, s.lru[0]);
        lemma_shrink_bytes(evict_oldest(s), max_bytes, incoming);
    }
}


/// Evicting the oldest key keeps the cache well formed.
proof fn lemma_evict_oldest_wf(s: CacheState)
    requires
        state_wf(s),
        s.lru.len() > 0,
    ensures
        state_wf(evict_oldest(s)),
        evict_oldest(s) == evict_key(s, s.lru[0]),
{
    lemma_evict_wf(s, s.lru[0]);
}

/// An LRU cache of decoded frames keyed by `(asset, frame number)`.
pub struct FrameCache {
    entries: Vec<((AssetId, i64), Arc<DecodedFrame>)>,
    /// Keys from least to most recently used.
    lru: Vec<(AssetId, i64)>,
    stats: CacheStats,
    max_entries: usize,
    max_bytes: u64,
}

impl FrameCache {
    /// The abstract state: entries, recency list, counters.
    pub closed spec fn state(self) -> CacheState {
        CacheState { entries: self.entries@, lru: self.lru@, stats: self.stats }
    }

    /// The entry budget.
    pub closed spec fn entry_limit(self) -> usize {
        self.max_entries
    }

    /// The byte budget (0 = none).
    pub closed spec fn byte_limit(self) -> u64 {
        self.max_bytes
    }

    /// The cache is well formed.
    pub open spec fn wf(self) -> bool {
        state_wf(self.state())
    }

    /// Evictions cannot overflow the eviction counter, whatever is evicted.
    pub open spec fn eviction_room(self) -> bool {
        self.state().stats.evictions + self.state().entries.len() <= u64::MAX
    }

    /// An empty cache with the given budget.
    pub fn new(config: CacheConfig) -> (c: Self)
        ensures
            c.wf(),
            c.state().entries.len() == 0,
            c.state().lru.len() == 0,
            c.state().stats == (CacheStats { hits: 0, misses: 0, evictions: 0, total_bytes: 0, entry_count: 0 }),
            c.entry_limit() == config.max_entries,
            c.byte_limit() == config.max_bytes,
    {
        FrameCache {
            entries: Vec::new(),
            lru: Vec::new(),
            stats: CacheStats::default(),
            max_entries: config.max_entries,
            max_bytes: config.max_bytes,
        }
    }

    fn entry_index(&self, key: (AssetId, i64)) -> (r: Option<usize>)
        requires
            self.wf(),
        ensures
            r matches Some(i) ==> entry_pos(self.entries@, key) == Some(i as int) && i < self.entries@.len(),
            r is None ==> entry_pos(self.entries@, key) is None,
    {
        let mut i: usize = 0;
        while i < self.entries.len()
            invariant
                0 <= i <= self.entries@.len(),
                self.wf(),
                forall|j: int| 0 <= j < i ==> self.entries@[j].0 != key,
            decreases self.entries@.len() - i,
        {
            if self.entries[i].0.0 == key.0 && self.entries[i].0.1 == key.1 {
                proof {
                    lemma_entry_pos_unique(self.entries@, key, i as int);
                }
                return Some(i);
            }
            i = i + 1;
        }
        None
    }

    fn lru_index(&self, key: (AssetId, i64)) -> (r: Option<usize>)
        ensures
            r matches Some(i) ==> first_pos(self.lru@, key) == Some(i as int) && i < self.lru@.len(),
            r is None ==> first_pos(self.lru@, key) is None,
    {
        let mut i: usize = 0;
        while i < self.lru.len()
            invariant
                0 <= i <= self.lru@.len(),
                forall|j: int| 0 <= j < i ==> self.lru@[j] != key,
            decreases self.lru@.len() - i,
        {
            if self.lru[i].0 == key.0 && self.lru[i].1 == key.1 {
                proof {
                    lemma_first_pos_is(self.lru@, key, i as int);
                }
                return Some(i);
            }
            i = i + 1;
        }
        None
    }

    /// Evict `key`: drop its frame (releasing its bytes) and its first
    /// place in the recency list.
    fn evict_one(&mut self, key: (AssetId, i64))
        requires
            old(self).wf(),
            old(self).eviction_room(),
        ensures
            final(self).state() == evict_key(old(self).state(), key),
            final(self).wf(),
            final(self).eviction_room(),
            final(self).entry_limit() == old(self).entry_limit(),
            final(self).byte_limit() == old(self).byte_limit(),
    {
        proof {
            lemma_evict_wf(self.state(), key);
            lemma_bytes_nonneg(self.entries@);
        }
        let ghost pre = self.state();
        match self.entry_index(key) {
            Some(i) => {
                proof {
                    lemma_bytes_remove(self.entries@, i as int);
                    lemma_bytes_nonneg(self.entries@.remove(i as int));
                }
                let removed = self.entries.remove(i);
                self.stats.total_bytes = self.stats.total_bytes - removed.1.data.len() as u64;
                self.stats.evictions = self.stats.evictions + 1;
            },
            None => {},
        }
        if self.lru.len() > 0 && self.lru[0].0 == key.0 && self.lru[0].1 == key.1 {
            proof {
                lemma_first_pos_is(self.lru@, key, 0);
            }
            self.lru.remove(0);
        } else {
            match self.lru_index(key) {
                Some(pos) => {
                    self.lru.remove(pos);
                },
                None => {},
            }
        }
        self.stats.entry_count = self.entries.len();
        assert(self.state() =~= evict_key(pre, key));
    }

    /// Evict the least recently used key.
    fn evict_front(&mut self)
        requires
            old(self).wf(),
            old(self).eviction_room(),
            old(self).state().lru.len() > 0,
        ensures
            final(self).state() == evict_oldest(old(self).state()),
            final(self).wf(),
            final(self).eviction_room(),
            final(self).entry_limit() == old(self).entry_limit(),
            final(self).byte_limit() == old(self).byte_limit(),
    {
        proof {
            lemma_evict_oldest_wf(self.state());
        }
        let oldest = self.lru[0];
        self.evict_one(oldest);
    }

    /// Evict oldest frames until there is room for a frame of `incoming`
    /// bytes.
    fn ensure_room(&mut self, incoming: u64)
        requires
            old(self).wf(),
            old(self).eviction_room(),
            old(self).state().stats.total_bytes + incoming <= u64::MAX,
        ensures
            final(self).state() == make_room(
                old(self).state(),
                old(self).entry_limit() as int,
                old(self).byte_limit() as int,
                incoming as int,
            ),
            final(self).wf(),
            final(self).eviction_room(),
            final(self).state().entries.len() <= old(self).state().entries.len(),
            final(self).state().stats.total_bytes <= old(self).state().stats.total_bytes,
            final(self).state().stats.evictions + final(self).state().entries.len() <= old(self).state().stats.evictions
                + old(self).state().entries.len(),
            final(self).entry_limit() == old(self).entry_limit(),
            final(self).byte_limit() == old(self).byte_limit(),
    {
        let ghost s0 = self.state();
        proof {
            lemma_shrink_count(s0, self.max_entries as int);
            lemma_shrink_bytes(shrink_to_count(s0, self.max_entries as int), self.max_bytes as int, incoming as int);
        }
        let ghost me = self.max_entries as int;
        let ghost mb = self.max_bytes as int;
        while self.entries.len() >= self.max_entries && self.entries.len() > 0
            invariant
                self.wf(),
                self.eviction_room(),
                self.max_entries == me && self.max_bytes == mb,
                shrink_to_count(self.state(), me) == shrink_to_count(s0, me),
                self.stats.total_bytes <= s0.stats.total_bytes,
                self.entries@.len() <= s0.entries.len(),
            decreases self.lru@.len(),
        {
            proof {
                lemma_wf_lru_nonempty(self.state());
                lemma_evict_wf(self.state(), self.lru@[0]);
            }
            self.evict_front();
        }
        let ghost s1 = self.state();
        proof {
            if s1.entries.len() > 0 {
                lemma_wf_lru_nonempty(s1);
            }
        }
        if self.max_bytes > 0 {
            while self.stats.total_bytes + incoming > self.max_bytes && self.entries.len() > 0
                invariant
                    self.wf(),
                    self.eviction_room(),
                    self.max_entries == me && self.max_bytes == mb,
                    mb > 0,
                    shrink_to_bytes(self.state(), mb, incoming as int) == shrink_to_bytes(s1, mb, incoming as int),
                    self.stats.total_bytes <= s0.stats.total_bytes,
                    s0.stats.total_bytes + incoming <= u64::MAX,
                    self.entries@.len() <= s0.entries.len(),
                decreases self.lru@.len(),
            {
                proof {
                    lemma_wf_lru_nonempty(self.state());
                    lemma_evict_wf(self.state(), self.lru@[0]);
                }
                self.evict_front();
            }
            proof {
                if self.entries@.len() > 0 {
                    lemma_wf_lru_nonempty(self.state());
                }
            }
        }
    }

    /// Evict oldest frames until the cache fits its budgets.
    fn evict_to_budget(&mut self)
        requires
            old(self).wf(),
            old(self).eviction_room(),
        ensures
            final(self).state() == fit_budget(
                old(self).state(),
                old(self).entry_limit() as int,
                old(self).byte_limit() as int,
            ),
            final(self).wf(),
            final(self).eviction_room(),
            final(self).entry_limit() == old(self).entry_limit(),
            final(self).byte_limit() == old(self).byte_limit(),
    {
        let ghost s0 = self.state();
        let ghost me = self.max_entries as int;
        let ghost mb = self.max_bytes as int;
        while self.entries.len() > self.max_entries
            invariant
                self.wf(),
                self.eviction_room(),
                self.max_entries == me && self.max_bytes == mb,
                shrink_above_count(self.state(), me) == shrink_above_count(s0, me),
            decreases self.lru@.len(),
        {
            proof {
                lemma_wf_lru_nonempty(self.state());
                lemma_evict_wf(self.state(), self.lru@[0]);
            }
            self.evict_front();
        }
        let ghost s1 = self.state();
        proof {
            if s1.entries.len() > 0 {
                lemma_wf_lru_nonempty(s1);
            }
        }
        if self.max_bytes > 0 {
            while self.stats.total_bytes > self.max_bytes && self.entries.len() > 0
                invariant
                    self.wf(),
                    self.eviction_room(),
                    self.max_entries == me && self.max_bytes == mb,
                    mb > 0,
                    shrink_to_bytes(self.state(), mb, 0) == shrink_to_bytes(s1, mb, 0),
                decreases self.lru@.len(),
            {
                proof {
                    lemma_wf_lru_nonempty(self.state());
                    lemma_evict_wf(self.state(), self.lru@[0]);
                }
                self.evict_front();
            }
            proof {
                if self.entries@.len() > 0 {
                    lemma_wf_lru_nonempty(self.state());
                }
            }
        }
    }

    /// Change the budget at runtime; frames over the new budget are evicted
    /// at once.
    pub fn resize(&mut self, config: CacheConfig)
        requires
            old(self).wf(),
            old(self).eviction_room(),
        ensures
            final(self).state() == fit_budget(old(self).state(), config.max_entries as int, config.max_bytes as int),
            final(self).wf(),
            final(self).eviction_room(),
            final(self).entry_limit() == config.max_entries,
            final(self).byte_limit() == config.max_bytes,
    {
        self.max_entries = config.max_entries;
        self.max_bytes = config.max_bytes;
        self.evict_to_budget();
    }

    /// The frame stored under `(asset, frame)`, if any; a hit makes it the
    /// most recently used.
    pub fn get(&mut self, asset: AssetId, frame: i64) -> (r: Option<Arc<DecodedFrame>>)
        requires
            old(self).wf(),
            old(self).state().stats.hits < u64::MAX,
            old(self).state().stats.misses < u64::MAX,
        ensures
            r == lookup(old(self).state().entries, (asset, frame)),
            final(self).state() == read_state(old(self).state(), (asset, frame)),
            final(self).wf(),
            old(self).eviction_room() ==> final(self).eviction_room(),
            final(self).entry_limit() == old(self).entry_limit(),
            final(self).byte_limit() == old(self).byte_limit(),
    {
        let ghost s0 = self.state();
        let key = (asset, frame);
        match self.entry_index(key) {
            Some(i) => {
                let result = share_frame(&self.entries[i].1);
                self.stats.hits = self.stats.hits + 1;
                match self.lru_index(key) {
                    Some(pos) => {
                        self.lru.remove(pos);
                        self.lru.push(key);
                        proof {
                            assert forall|j: int| 0 <= j < self.entries@.len() implies self.lru@.contains(
                                #[trigger] self.entries@[j].0,
                            ) by {
                                let k2 = self.entries@[j].0;
                                if k2 != key {
                                    lemma_without_first_keeps(s0.lru, key, k2);
                                    let w = choose|w: int| 0 <= w < s0.lru.remove(pos as int).len() && s0.lru.remove(pos as int)[w] == k2;
                                    assert(self.lru@[w] == k2);
                                } else {
                                    assert(self.lru@[self.lru@.len() - 1] == key);
                                }
                            }
                        }
                    },
                    None => {},
                }
                assert(self.state() =~= read_state(s0, key));
                Some(result)
            },
            None => {
                self.stats.misses = self.stats.misses + 1;
                assert(self.state() =~= read_state(s0, key));
                None
            },
        }
    }

    /// Store `data` under `(asset, frame)` after evicting the least recently
    /// used frames that leave no room for it.
    pub fn insert(&mut self, asset: AssetId, frame: i64, data: Arc<DecodedFrame>)
        requires
            old(self).wf(),
            old(self).state().stats.evictions + old(self).state().entries.len() + 1 <= u64::MAX,
            old(self).state().stats.total_bytes + data.data@.len() <= u64::MAX,
        ensures
            final(self).state() == inserted_state(
                old(self).state(),
                old(self).entry_limit() as int,
                old(self).byte_limit() as int,
                (asset, frame),
                data,
            ),
            final(self).wf(),
            final(self).eviction_room(),
            final(self).entry_limit() == old(self).entry_limit(),
            final(self).byte_limit() == old(self).byte_limit(),
    {
        let key = (asset, frame);
        let frame_bytes = data.data.len() as u64;
        self.ensure_room(frame_bytes);
        let ghost r = self.state();
        let ghost f = data;
        proof {
            lemma_bytes_nonneg(r.entries);
        }
        let mut released: u64 = 0;
        match self.entry_index(key) {
            Some(i) => {
                proof {
                    lemma_bytes_update(r.entries, i as int, (key, f));
                    lemma_bytes_remove(r.entries, i as int);
                    lemma_bytes_nonneg(r.entries.remove(i as int));
                }
                released = self.entries[i].1.data.len() as u64;
                self.entries.set(i, (key, data));
            },
            None => {
                self.entries.push((key, data));
                assert(self.entries@.drop_last() =~= r.entries);
            },
        }
        match self.lru_index(key) {
            Some(pos) => {
                self.lru.remove(pos);
            },
            None => {},
        }
        let ghost lru_mid = self.lru@;
        assert(lru_mid == without_first(r.lru, key));
        self.lru.push(key);
        self.stats.total_bytes = self.stats.total_bytes - released + frame_bytes;
        self.stats.entry_count = self.entries.len();
        proof {
            let e = self.entries@;
            assert forall|a: int, b: int| 0 <= a < b < e.len() implies e[a].0 != e[b].0 by {
                if a < r.entries.len() && b < r.entries.len() {
                    assert(e[a].0 == r.entries[a].0 && e[b].0 == r.entries[b].0);
                } else if b == r.entries.len() {
                    assert(e[a].0 == r.entries[a].0);
                }
            }
            assert forall|j: int| 0 <= j < e.len() implies self.lru@.contains(#[trigger] e[j].0) by {
                if e[j].0 == key {
                    assert(self.lru@[self.lru@.len() - 1] == key);
                } else {
                    assert(e[j].0 == r.entries[j].0);
                    assert(r.lru.contains(r.entries[j].0));
                    lemma_without_first_keeps(r.lru, key, r.entries[j].0);
                    let w = choose|w: int| 0 <= w < lru_mid.len() && lru_mid[w] == r.entries[j].0;
                    assert(self.lru@[w] == lru_mid[w]);
                }
            }
        }
    }

    /// Evict every frame of `asset`.
    pub fn evict_asset(&mut self, asset: AssetId)
        requires
            old(self).wf(),
            old(self).eviction_room(),
        ensures
            final(self).wf(),
            final(self).eviction_room(),
            final(self).state().entries == old(self).state().entries.filter(
                |e: ((AssetId, i64), Arc<DecodedFrame>)| e.0.0 != asset,
            ),
            final(self).state().stats.hits == old(self).state().stats.hits,
            final(self).state().stats.misses == old(self).state().stats.misses,
            final(self).entry_limit() == old(self).entry_limit(),
            final(self).byte_limit() == old(self).byte_limit(),
    {
        let ghost s0 = self.state();
        let ghost pred = |e: ((AssetId, i64), Arc<DecodedFrame>)| e.0.0 != asset;
        let ghost mut j: int = 0;
        let mut i: usize = 0;
        proof {
            reveal(Seq::filter);
            assert(s0.entries.take(0).filter(pred) =~= Seq::<((AssetId, i64), Arc<DecodedFrame>)>::empty());
            assert(s0.entries.skip(0) =~= s0.entries);
        }
        while i < self.entries.len()
            invariant
                self.wf(),
                self.eviction_room(),
                pred == (|e: ((AssetId, i64), Arc<DecodedFrame>)| e.0.0 != asset),
                0 <= j <= s0.entries.len(),
                i == s0.entries.take(j).filter(pred).len(),
                self.entries@ =~= s0.entries.take(j).filter(pred) + s0.entries.skip(j),
                self.stats.hits == s0.stats.hits && self.stats.misses == s0.stats.misses,
                self.max_entries == old(self).max_entries && self.max_bytes == old(self).max_bytes,
            decreases s0.entries.len() - j,
        {
            proof {
                reveal(Seq::filter);
                assert(s0.entries.take(j + 1).drop_last() =~= s0.entries.take(j));
                assert(self.entries@[i as int] == s0.entries[j]);
            }
            if self.entries[i].0.0 == asset {
                let key = self.entries[i].0;
                proof {
                    lemma_entry_pos_unique(self.entries@, key, i as int);
                    lemma_evict_wf(self.state(), key);
                }
                self.evict_one(key);
                proof {
                    reveal(Seq::filter);
                    let sq = s0.entries.take(j + 1);
                    assert(sq.drop_last() =~= s0.entries.take(j));
                    assert(sq.last() == s0.entries[j]);
                    assert(sq.filter(pred) == s0.entries.take(j).filter(pred));
                    assert(s0.entries.skip(j + 1) =~= s0.entries.skip(j).remove(0));
                    j = j + 1;
                }
            } else {
                proof {
                    reveal(Seq::filter);
                    let sq = s0.entries.take(j + 1);
                    assert(sq.drop_last() =~= s0.entries.take(j));
                    assert(sq.last() == s0.entries[j]);
                    assert(sq.filter(pred) == s0.entries.take(j).filter(pred).push(s0.entries[j]));
                    j = j + 1;
                }
                i = i + 1;
            }
        }
        proof {
            assert(j == s0.entries.len());
            assert(s0.entries.take(j) =~= s0.entries);
        }
    }

    /// The counters.
    pub fn stats(&self) -> (s: CacheStats)
        ensures
            s == self.state().stats,
    {
        self.stats
    }
}

/// `Arc::clone`: another pointer to the same frame.
#[verifier::external_body]
fn share_frame(f: &Arc<DecodedFrame>) -> (r: Arc<DecodedFrame>)
    ensures
        r == *f,
{
    Arc::clone(f)
}


proof fn lemma_shrink_above(s: CacheState, max_entries: int)
    requires
        state_wf(s),
    ensures
        state_wf(shrink_above_count(s, max_entries)),
        shrink_above_count(s, max_entries).entries.len() <= max_entries || shrink_above_count(s, max_entries).entries.len() == 0,
    decreases s.lru.len(),
{
    if s.entries.len() > max_entries && s.lru.len() > 0 {
        lemma_evict_wf(s, s.lru[0]);
        lemma_shrink_above(evict_oldest(s), max_entries);
    } else if s.entries.len() > 0 {
        lemma_wf_lru_nonempty(s);
    }
}

proof fn lemma_make_room(s: CacheState, max_entries: int, max_bytes: int, incoming: int)
    requires
        state_wf(s),
    ensures
        state_wf(make_room(s, max_entries, max_bytes, incoming)),
        make_room(s, max_entries, max_bytes, incoming).entries.len() < max_entries || make_room(
            s,
            max_entries,
            max_bytes,
            incoming,
        ).entries.len() == 0,
        max_bytes > 0 ==> make_room(s, max_entries, max_bytes, incoming).stats.total_bytes + incoming <= max_bytes
            || make_room(s, max_entries, max_bytes, incoming).entries.len() == 0,
{
    let s1 = shrink_to_count(s, max_entries);
    lemma_shrink_count(s, max_entries);
    if max_bytes > 0 {
        lemma_shrink_bytes_stops(s1, max_bytes, incoming);
        lemma_shrink_bytes(s1, max_bytes, incoming);
    }
}

proof fn lemma_shrink_bytes_stops(s: CacheState, max_bytes: int, incoming: int)
    requires
        state_wf(s),
    ensures
        shrink_to_bytes(s, max_bytes, incoming).stats.total_bytes + incoming <= max_bytes || shrink_to_bytes(
            s,
            max_bytes,
            incoming,
        ).entries.len() == 0,
    decreases s.lru.len(),
{
    if s.stats.total_bytes + incoming > max_bytes && s.entries.len() > 0 && s.lru.len() > 0 {
        lemma_evict_wf(s, s.lru[0]);
        lemma_shrink_bytes_stops(evict_oldest(s), max_bytes, incoming);
    } else if s.entries.len() > 0 {
        lemma_wf_lru_nonempty(s);
    }
}

/// A read after a write gives back what was written: right after a frame is
/// inserted under a key, the cache holds that frame under that key.
pub proof fn lemma_read_after_insert(
    s: CacheState,
    max_entries: int,
    max_bytes: int,
    key: (AssetId, i64),
    f: Arc<DecodedFrame>,
)
    requires
        state_wf(s),
    ensures
        lookup(inserted_state(s, max_entries, max_bytes, key, f).entries, key) == Some(f),
{
    let r = make_room(s, max_entries, max_bytes, frame_bytes(f));
    lemma_make_room(s, max_entries, max_bytes, frame_bytes(f));
    let e = upsert(r.entries, key, f);
    match entry_pos(r.entries, key) {
        Some(i) => {
            assert forall|a: int, b: int| 0 <= a < b < e.len() implies e[a].0 != e[b].0 by {
                assert(e[a].0 == r.entries[a].0 && e[b].0 == r.entries[b].0);
            }
            lemma_entry_pos_unique(e, key, i);
        },
        None => {
            assert forall|a: int, b: int| 0 <= a < b < e.len() implies e[a].0 != e[b].0 by {
                if b < r.entries.len() {
                    assert(e[a] == r.entries[a] && e[b] == r.entries[b]);
                } else {
                    assert(e[a] == r.entries[a]);
                    assert(r.entries[a].0 != key);
                }
            }
            lemma_entry_pos_unique(e, key, e.len() - 1);
        },
    }
}

/// An insert never leaves more frames than the entry budget (a budget of 0
/// still keeps the new frame).
pub proof fn lemma_insert_within_entry_budget(
    s: CacheState,
    max_entries: int,
    max_bytes: int,
    key: (AssetId, i64),
    f: Arc<DecodedFrame>,
)
    requires
        state_wf(s),
    ensures
        inserted_state(s, max_entries, max_bytes, key, f).entries.len() <= (if max_entries >= 1 {
            max_entries
        } else {
            1
        }),
{
    lemma_make_room(s, max_entries, max_bytes, frame_bytes(f));
}

/// With a byte budget, an insert leaves the counted bytes within it unless
/// the new frame is all the cache holds.
pub proof fn lemma_insert_within_byte_budget(
    s: CacheState,
    max_entries: int,
    max_bytes: int,
    key: (AssetId, i64),
    f: Arc<DecodedFrame>,
)
    requires
        state_wf(s),
        max_bytes > 0,
        s.stats.total_bytes + frame_bytes(f) <= u64::MAX,
    ensures
        inserted_state(s, max_entries, max_bytes, key, f).stats.total_bytes <= max_bytes || inserted_state(
            s,
            max_entries,
            max_bytes,
            key,
            f,
        ).entries.len() == 1,
{
    lemma_make_room(s, max_entries, max_bytes, frame_bytes(f));
    let r = make_room(s, max_entries, max_bytes, frame_bytes(f));
    lemma_shrink_count(s, max_entries);
    lemma_shrink_bytes(shrink_to_count(s, max_entries), max_bytes, frame_bytes(f));
    match entry_pos(r.entries, key) {
        Some(i) => {
            lemma_bytes_remove(r.entries, i);
            lemma_bytes_nonneg(r.entries.remove(i));
        },
        None => {},
    }
}

/// After a resize the cache holds no more frames than the new entry budget.
pub proof fn lemma_resize_within_entry_budget(s: CacheState, max_entries: int, max_bytes: int)
    requires
        state_wf(s),
        max_entries >= 0,
    ensures
        fit_budget(s, max_entries, max_bytes).entries.len() <= max_entries,
{
    lemma_shrink_above(s, max_entries);
    let s1 = shrink_above_count(s, max_entries);
    if max_bytes > 0 {
        lemma_shrink_bytes(s1, max_bytes, 0);
    }
}

/// A read never changes which frames are stored.
pub proof fn lemma_read_keeps_frames(s: CacheState, key: (AssetId, i64))
    ensures
        read_state(s, key).entries == s.entries,
{
}

} // verus!
