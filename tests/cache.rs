use asset_forge::{hash_data, BuildCache, CacheEntry, CACHE_VERSION};

fn entry(input_hash: u64, config_hash: u64, output: &str) -> CacheEntry {
    CacheEntry {
        input_hash,
        config_hash,
        output_path: output.to_string(),
        mtime: 1000,
        processed_at: 2000,
    }
}

#[test]
fn test_cache_roundtrip() {
    let mut cache = BuildCache::new();
    cache.entries.insert(
        "test.png".to_string(),
        CacheEntry {
            input_hash: 12345,
            config_hash: 67890,
            output_path: "output/test.png".to_string(),
            mtime: 1000,
            processed_at: 2000,
        },
    );

    let stored = cache.save();

    let loaded = BuildCache::load(Some(stored));
    assert_eq!(loaded.entries.len(), 1);
    assert!(loaded.entries.contains_key(&"test.png".to_string()));
}

#[test]
fn roundtrip_keeps_every_field() {
    let mut cache = BuildCache::new();
    cache.entries.insert("a.png".to_string(), entry(1, 2, "out/a.png"));
    cache.entries.insert("b.wav".to_string(), entry(3, 4, "out/b.ogg"));
    let (list, version) = cache.save();
    assert_eq!(version, CACHE_VERSION);
    assert_eq!(list.len(), 2);
    let loaded = BuildCache::load(Some((list, version)));
    assert_eq!(loaded.entries.len(), 2);
    let b = loaded.entries.get(&"b.wav".to_string()).unwrap();
    assert_eq!(b.input_hash, 3);
    assert_eq!(b.config_hash, 4);
    assert_eq!(b.output_path, "out/b.ogg");
    assert_eq!(b.mtime, 1000);
    assert_eq!(b.processed_at, 2000);
}

#[test]
fn load_of_nothing_is_empty() {
    let loaded = BuildCache::load(None);
    assert_eq!(loaded.entries.len(), 0);
    assert_eq!(loaded.version, CACHE_VERSION);
}

#[test]
fn load_of_other_version_is_empty() {
    let mut cache = BuildCache::new();
    cache.entries.insert("a.png".to_string(), entry(1, 2, "out/a.png"));
    let (list, version) = cache.save();
    let loaded = BuildCache::load(Some((list, version + 1)));
    assert_eq!(loaded.entries.len(), 0);
    assert_eq!(loaded.version, CACHE_VERSION);
}

#[test]
fn load_later_record_wins() {
    let list = vec![
        ("a.png".to_string(), entry(1, 2, "x")),
        ("a.png".to_string(), entry(5, 6, "y")),
    ];
    let loaded = BuildCache::load(Some((list, CACHE_VERSION)));
    assert_eq!(loaded.entries.len(), 1);
    assert_eq!(loaded.entries.get(&"a.png".to_string()).unwrap().input_hash, 5);
}

#[test]
fn no_record_needs_rebuild() {
    let cache = BuildCache::new();
    assert!(cache.needs_rebuild(&"a.png".to_string(), 7, true, b"abc"));
}

#[test]
fn unchanged_file_does_not_need_rebuild() {
    let mut cache = BuildCache::new();
    cache.update("a.png".to_string(), "out/a.png".to_string(), 7, b"abc", 100, 200);
    let e = cache.entries.get(&"a.png".to_string()).unwrap();
    assert_eq!(e.input_hash, hash_data(b"abc"));
    assert_eq!(e.config_hash, 7);
    assert_eq!(e.output_path, "out/a.png");
    assert_eq!(e.mtime, 100);
    assert_eq!(e.processed_at, 200);
    assert!(!cache.needs_rebuild(&"a.png".to_string(), 7, true, b"abc"));
}

#[test]
fn content_change_with_same_mtime_needs_rebuild() {
    let mut cache = BuildCache::new();
    cache.update("a.png".to_string(), "out/a.png".to_string(), 7, b"abc", 100, 200);
    // The record's mtime is the file's; only the content differs.
    assert_eq!(cache.entries.get(&"a.png".to_string()).unwrap().mtime, 100);
    assert!(cache.needs_rebuild(&"a.png".to_string(), 7, true, b"abd"));
}

#[test]
fn config_change_needs_rebuild() {
    let mut cache = BuildCache::new();
    cache.update("a.png".to_string(), "out/a.png".to_string(), 7, b"abc", 100, 200);
    assert!(cache.needs_rebuild(&"a.png".to_string(), 8, true, b"abc"));
}

#[test]
fn missing_output_needs_rebuild() {
    let mut cache = BuildCache::new();
    cache.update("a.png".to_string(), "out/a.png".to_string(), 7, b"abc", 100, 200);
    assert!(cache.needs_rebuild(&"a.png".to_string(), 7, false, b"abc"));
}

#[test]
fn update_replaces_record() {
    let mut cache = BuildCache::new();
    cache.update("a.png".to_string(), "out/a.png".to_string(), 7, b"abc", 100, 200);
    cache.update("a.png".to_string(), "out/b.png".to_string(), 9, b"xyz", 300, 400);
    assert_eq!(cache.entries.len(), 1);
    let e = cache.entries.get(&"a.png".to_string()).unwrap();
    assert_eq!(e.config_hash, 9);
    assert_eq!(e.output_path, "out/b.png");
    assert_eq!(e.input_hash, hash_data(b"xyz"));
}

#[test]
fn cleanup_keeps_only_existing_inputs() {
    let mut cache = BuildCache::new();
    cache.entries.insert("a.png".to_string(), entry(1, 2, "out/a.png"));
    cache.entries.insert("b.png".to_string(), entry(1, 2, "out/b.png"));
    cache.entries.insert("c.png".to_string(), entry(1, 2, "out/c.png"));
    cache.cleanup(&vec!["c.png".to_string(), "a.png".to_string(), "zzz.png".to_string()]);
    assert_eq!(cache.entries.len(), 2);
    assert!(cache.entries.contains_key(&"a.png".to_string()));
    assert!(!cache.entries.contains_key(&"b.png".to_string()));
    assert!(cache.entries.contains_key(&"c.png".to_string()));
}

#[test]
fn stats_counts_valid_and_stale() {
    let mut cache = BuildCache::new();
    cache.entries.insert("a.png".to_string(), entry(1, 2, "out/a.png"));
    cache.entries.insert("b.png".to_string(), entry(1, 2, "out/b.png"));
    cache.entries.insert("c.png".to_string(), entry(1, 2, "out/c.png"));
    let s = cache.stats(&vec!["out/b.png".to_string()]);
    assert_eq!(s.total_entries, 3);
    assert_eq!(s.valid_entries, 1);
    assert_eq!(s.stale_entries, 2);
}

#[test]
fn clear_removes_everything() {
    let mut cache = BuildCache::new();
    cache.entries.insert("a.png".to_string(), entry(1, 2, "out/a.png"));
    cache.clear();
    assert_eq!(cache.entries.len(), 0);
    assert_eq!(cache.version, CACHE_VERSION);
}
