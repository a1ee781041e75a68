use std::time::Duration;

use oxyde::audio::{AudioCache, AudioData};

fn clip(n: usize, ms: u64) -> AudioData {
    AudioData { data: vec![7u8; n], duration_ms: ms }
}

#[test]
fn new_cache_is_empty_with_size_in_megabytes() {
    let cache = AudioCache::new(2);
    assert!(cache.is_empty());
    assert_eq!(cache.len(), 0);
    assert_eq!(cache.current_size_bytes(), 0);
    assert_eq!(cache.max_size_bytes(), 2 * 1024 * 1024);
}

#[test]
fn read_after_write_returns_the_clip() {
    let mut cache = AudioCache::new(1);
    cache.insert_at("hello".to_string(), AudioData { data: vec![1, 2, 3], duration_ms: 40 }, 10);
    let got = cache.get_at("hello", 20).expect("stored clip");
    assert_eq!(got.data, vec![1, 2, 3]);
    assert_eq!(got.duration_ms, 40);
    assert!(cache.contains_key("hello"));
    assert_eq!(cache.current_size_bytes(), 3);
    assert!(cache.get_at("other", 30).is_none());
}

#[test]
fn insert_replaces_existing_key() {
    let mut cache = AudioCache::new(1);
    cache.insert("k".to_string(), clip(10, 1));
    cache.insert("k".to_string(), clip(4, 2));
    assert_eq!(cache.len(), 1);
    assert_eq!(cache.current_size_bytes(), 4);
    assert_eq!(cache.get("k").unwrap().duration_ms, 2);
}

#[test]
fn least_recently_used_clip_is_evicted_first() {
    // 1 MiB cache filled with two half-MiB clips
    let half = 512 * 1024;
    let mut cache = AudioCache::new(1);
    cache.insert_at("a".to_string(), clip(half, 1), 100);
    cache.insert_at("b".to_string(), clip(half, 2), 200);
    // reading "a" makes "b" the least recently used
    assert!(cache.get_at("a", 300).is_some());
    cache.insert_at("c".to_string(), clip(half, 3), 400);
    assert!(cache.contains_key("a"));
    assert!(!cache.contains_key("b"));
    assert!(cache.contains_key("c"));
    assert_eq!(cache.current_size_bytes(), 2 * half);
}

#[test]
fn oversized_clip_empties_the_cache_and_stays_alone() {
    let mut cache = AudioCache::new(1);
    cache.insert_at("small".to_string(), clip(10, 1), 1);
    cache.insert_at("huge".to_string(), clip(2 * 1024 * 1024, 2), 2);
    assert_eq!(cache.len(), 1);
    assert!(cache.contains_key("huge"));
    assert!(cache.current_size_bytes() > cache.max_size_bytes());
}

#[test]
fn zero_sized_cache_keeps_only_latest() {
    let mut cache = AudioCache::new(0);
    cache.insert_at("a".to_string(), clip(1, 1), 1);
    cache.insert_at("b".to_string(), clip(1, 1), 2);
    assert_eq!(cache.len(), 1);
    assert!(cache.contains_key("b"));
}

#[test]
fn remove_returns_clip_and_frees_bytes() {
    let mut cache = AudioCache::new(1);
    cache.insert("x".to_string(), clip(5, 9));
    let removed = cache.remove("x").expect("present");
    assert_eq!(removed.data.len(), 5);
    assert!(cache.remove("x").is_none());
    assert_eq!(cache.current_size_bytes(), 0);
    assert!(!cache.contains_key("x"));
}

#[test]
fn clear_resets_size() {
    let mut cache = AudioCache::new(1);
    cache.insert("x".to_string(), clip(5, 9));
    cache.insert("y".to_string(), clip(6, 9));
    cache.clear();
    assert!(cache.is_empty());
    assert_eq!(cache.current_size_bytes(), 0);
}

#[test]
fn cleanup_removes_only_expired_entries() {
    let mut cache = AudioCache::new(1);
    cache.insert_at("old".to_string(), clip(3, 1), 1_000);
    cache.insert_at("new".to_string(), clip(4, 1), 9_000);
    cache.insert_at("future".to_string(), clip(5, 1), 20_000);
    cache.cleanup_expired_at(10_000, 5_000);
    assert!(!cache.contains_key("old"));
    assert!(cache.contains_key("new"));
    assert!(cache.contains_key("future"));
    assert_eq!(cache.current_size_bytes(), 9);
}

#[test]
fn cleanup_keeps_entries_read_recently() {
    let mut cache = AudioCache::new(1);
    cache.insert_at("old_but_read".to_string(), clip(3, 1), 1_000);
    cache.insert_at("old_unread".to_string(), clip(4, 1), 1_000);
    assert!(cache.get_at("old_but_read", 9_000).is_some());
    cache.cleanup_expired_at(10_000, 5_000);
    assert!(cache.contains_key("old_but_read"));
    assert!(!cache.contains_key("old_unread"));
    assert_eq!(cache.len(), 1);
    assert_eq!(cache.current_size_bytes(), 3);
}

#[test]
fn remove_drops_one_entry_and_its_bytes() {
    let mut cache = AudioCache::new(1);
    cache.insert_at("a".to_string(), clip(3, 1), 1);
    cache.insert_at("b".to_string(), clip(4, 1), 2);
    let removed = cache.remove("a");
    assert_eq!(removed.map(|d| d.size_bytes()), Some(3));
    assert_eq!(cache.len(), 1);
    assert_eq!(cache.current_size_bytes(), 4);
    assert!(cache.remove("a").is_none());
    assert_eq!(cache.len(), 1);
}

#[test]
fn insert_that_fits_replaces_without_evicting() {
    let mut cache = AudioCache::new(1);
    cache.insert_at("a".to_string(), clip(3, 1), 1);
    cache.insert_at("b".to_string(), clip(4, 1), 2);
    cache.insert_at("a".to_string(), clip(5, 1), 3);
    assert_eq!(cache.len(), 2);
    assert_eq!(cache.current_size_bytes(), 9);
    assert!(cache.contains_key("b"));
    assert_eq!(cache.get_at("a", 4).map(|d| d.size_bytes()), Some(5));
}

#[test]
fn cleanup_with_clock_keeps_fresh_entries() {
    let mut cache = AudioCache::new(1);
    cache.insert("fresh".to_string(), clip(3, 1));
    cache.cleanup_expired(Duration::from_secs(3600).as_nanos());
    assert!(cache.contains_key("fresh"));
    cache.cleanup_expired(Duration::from_secs(0).as_nanos());
    // an entry stamped in the same nanosecond as the check is not older than zero
    assert!(cache.len() <= 1);
}

#[test]
fn counts_sum_accesses_and_bound_creation_times() {
    let mut cache = AudioCache::new(1);
    cache.insert_at("a".to_string(), clip(2, 1), 5);
    cache.insert_at("b".to_string(), clip(3, 1), 8);
    cache.get_at("a", 9);
    cache.get_at("a", 10);
    let counts = cache.counts_at(100);
    assert_eq!(counts.entry_count, 2);
    assert_eq!(counts.current_size_bytes, 5);
    assert_eq!(counts.max_size_bytes, 1024 * 1024);
    // each insert counts once, each read once more
    assert_eq!(counts.total_access_count, 4);
    assert_eq!(counts.oldest_entry, Some(5));
    assert_eq!(counts.newest_entry, Some(8));
    // the oldest entry is reported no later than the clock reading
    assert_eq!(cache.counts_at(3).oldest_entry, Some(3));
    let empty = AudioCache::new(1).counts_at(7);
    assert_eq!(empty.oldest_entry, None);
    assert_eq!(empty.newest_entry, None);
}

#[test]
fn voice_traits_from_personality() {
    let t = oxyde::audio::voice_traits("A Cheerful but ANXIOUS baker");
    assert!(t.cheerful);
    assert!(t.nervous);
    assert!(!t.grumpy);
    assert!(!t.energetic);
    let u = oxyde::audio::voice_traits("irritable, enthusiastic");
    assert!(u.grumpy && u.energetic && !u.cheerful && !u.nervous);
}
