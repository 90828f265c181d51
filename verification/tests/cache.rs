use std::sync::Arc;

use rook::cache::{cache_config_for, CacheConfig, CacheStats, DecodedFrame, FrameCache, PoolConfig};
use rook::ids::AssetId;

fn frame(bytes: usize, pts: i64) -> Arc<DecodedFrame> {
    Arc::new(DecodedFrame { width: 1, height: 1, data: vec![0u8; bytes], pts, audio: None })
}

#[test]
fn read_after_insert_gives_the_frame() {
    let mut c = FrameCache::new(CacheConfig { max_entries: 4, max_bytes: 0 });
    let a = AssetId::from_u64(1);
    let f = frame(16, 3);
    c.insert(a, 3, f.clone());
    let got = c.get(a, 3).unwrap();
    assert!(Arc::ptr_eq(&got, &f));
    let s = c.stats();
    assert_eq!(s.hits, 1);
    assert_eq!(s.entry_count, 1);
    assert_eq!(s.total_bytes, 16);
    assert!(c.get(a, 4).is_none());
    assert_eq!(c.stats().misses, 1);
}

#[test]
fn entry_budget_evicts_least_recently_used() {
    let mut c = FrameCache::new(CacheConfig { max_entries: 2, max_bytes: 0 });
    let a = AssetId::from_u64(1);
    c.insert(a, 0, frame(1, 0));
    c.insert(a, 1, frame(1, 1));
    c.get(a, 0).unwrap();
    c.insert(a, 2, frame(1, 2));
    assert!(c.get(a, 1).is_none());
    assert!(c.get(a, 0).is_some());
    assert!(c.get(a, 2).is_some());
    assert_eq!(c.stats().evictions, 1);
    assert_eq!(c.stats().entry_count, 2);
}

#[test]
fn byte_budget_is_kept() {
    let mut c = FrameCache::new(CacheConfig { max_entries: 100, max_bytes: 30 });
    let a = AssetId::from_u64(1);
    for i in 0..5 {
        c.insert(a, i, frame(10, i));
    }
    let s = c.stats();
    assert!(s.total_bytes <= 30);
    assert_eq!(s.entry_count, 3);
    assert!(c.get(a, 4).is_some());
    assert!(c.get(a, 0).is_none());
}

#[test]
fn evict_asset_drops_only_that_asset() {
    let mut c = FrameCache::new(CacheConfig::default());
    let a = AssetId::from_u64(1);
    let b = AssetId::from_u64(2);
    c.insert(a, 0, frame(4, 0));
    c.insert(b, 0, frame(4, 0));
    c.insert(a, 1, frame(4, 1));
    c.evict_asset(a);
    assert!(c.get(a, 0).is_none());
    assert!(c.get(a, 1).is_none());
    assert!(c.get(b, 0).is_some());
    assert_eq!(c.stats().entry_count, 1);
    assert_eq!(c.stats().total_bytes, 4);
}

#[test]
fn resize_shrinks_to_new_budget() {
    let mut c = FrameCache::new(CacheConfig { max_entries: 10, max_bytes: 0 });
    let a = AssetId::from_u64(1);
    for i in 0..6 {
        c.insert(a, i, frame(1, i));
    }
    c.resize(CacheConfig { max_entries: 2, max_bytes: 0 });
    assert_eq!(c.stats().entry_count, 2);
    assert!(c.get(a, 5).is_some());
    assert!(c.get(a, 4).is_some());
    assert!(c.get(a, 3).is_none());
}

#[test]
fn reinserting_a_key_replaces_the_frame() {
    let mut c = FrameCache::new(CacheConfig { max_entries: 4, max_bytes: 0 });
    let a = AssetId::from_u64(1);
    c.insert(a, 0, frame(8, 0));
    let g = frame(2, 0);
    c.insert(a, 0, g.clone());
    assert_eq!(c.stats().entry_count, 1);
    // the replaced frame's bytes are released
    assert_eq!(c.stats().total_bytes, 2);
    assert!(Arc::ptr_eq(&c.get(a, 0).unwrap(), &g));
    // the key is listed once for recency: two more keys push out the oldest
    c.insert(a, 1, frame(1, 1));
    c.insert(a, 2, frame(1, 2));
    c.insert(a, 3, frame(1, 3));
    c.insert(a, 4, frame(1, 4));
    assert!(c.get(a, 0).is_none());
    assert_eq!(c.stats().entry_count, 4);
}

#[test]
fn configs() {
    let d = CacheConfig::default();
    assert_eq!(d.max_entries, 512);
    assert_eq!(d.max_bytes, 512 * 1024 * 1024);
    let l = CacheConfig::low_memory();
    assert_eq!(l.max_entries, 128);
    assert_eq!(l.max_bytes, 128 * 1024 * 1024);
    assert_eq!(cache_config_for(true).max_entries, 128);
    assert_eq!(cache_config_for(false).max_entries, 512);
    assert_eq!(PoolConfig::default().cache.max_entries, 512);
    assert_eq!(PoolConfig::low_memory().cache.max_bytes, 128 * 1024 * 1024);
    let s = CacheStats::default();
    assert_eq!((s.hits, s.misses, s.evictions, s.total_bytes, s.entry_count), (0, 0, 0, 0, 0));
}
