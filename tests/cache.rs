use docker_registry_proxy::cache::{
    blob_relative_path, eviction_target, freed_after_removal, is_expired, keep_evicting, lru_order, needs_eviction,
    new_entry, new_entry_now, partition_expired, safe_digest, size_after_put, size_after_remove,
    size_after_replace,
    total_of, touched, CacheEntry,
};

fn entry(digest: &str, size: u64, last_accessed: i64) -> CacheEntry {
    CacheEntry {
        digest: digest.to_string(),
        size,
        last_accessed,
        created: 0,
    }
}

#[test]
fn blob_path_layout() {
    assert_eq!(safe_digest("sha256:abc123"), "sha256_abc123");
    assert_eq!(blob_relative_path("sha256:abc123"), "blobs/sh/sha256_abc123");
    assert_eq!(blob_relative_path("a"), "blobs/a/a");
    assert_eq!(blob_relative_path(":x:"), "blobs/_x/_x_");
}

#[test]
fn size_tracking_sums_puts() {
    let mut total = 0u64;
    total = size_after_put(total, 100);
    total = size_after_put(total, 200);
    assert_eq!(total, 300);
    let index = vec![entry("sha256:test1", 100, 0), entry("sha256:test2", 200, 0)];
    assert_eq!(total_of(&index), 300);
    assert_eq!(total_of(&vec![]), 0);
}

#[test]
fn size_counter_saturates() {
    assert_eq!(size_after_remove(50, 80), 0);
    assert_eq!(size_after_remove(300, 100), 200);
    assert_eq!(size_after_put(u64::MAX - 1, 5), u64::MAX);
}

#[test]
fn expiry_is_strict() {
    let e = entry("sha256:old", 8, 0);
    assert!(!is_expired(&e, 1_000_000, 1));
    assert!(is_expired(&e, 1_000_001, 1));
    assert!(is_expired(&e, 2_000_000, 1));
}

#[test]
fn partition_by_age() {
    let entries = vec![
        entry("sha256:a", 1, 0),
        entry("sha256:b", 2, 9_000_000),
        entry("sha256:c", 3, 1_000),
    ];
    let (expired, alive) = partition_expired(entries, 10_000_000, 5);
    let expired_digests: Vec<String> = expired.iter().map(|e| e.digest.clone()).collect();
    let alive_digests: Vec<String> = alive.iter().map(|e| e.digest.clone()).collect();
    assert_eq!(expired_digests, vec!["sha256:a", "sha256:c"]);
    assert_eq!(alive_digests, vec!["sha256:b"]);
}

#[test]
fn everything_expires_with_zero_age() {
    let entries = vec![entry("sha256:old", 8, 0), entry("sha256:new", 8, 10)];
    let (expired, alive) = partition_expired(entries, 2_000_000, 1);
    assert_eq!(expired.len(), 2);
    assert!(alive.is_empty());
}

#[test]
fn lru_order_sorts_by_access_time() {
    let sorted = lru_order(vec![
        entry("sha256:c", 1, 30),
        entry("sha256:a", 1, 10),
        entry("sha256:b", 1, 20),
    ]);
    let digests: Vec<String> = sorted.iter().map(|e| e.digest.clone()).collect();
    assert_eq!(digests, vec!["sha256:a", "sha256:b", "sha256:c"]);
}

#[test]
fn eviction_thresholds() {
    assert_eq!(eviction_target(1000), 900);
    assert_eq!(eviction_target(1024 * 1024), 943718);
    assert_eq!(eviction_target(u64::MAX), 16602069666338596453);
    assert!(needs_eviction(1001, 1000));
    assert!(!needs_eviction(1000, 1000));
    assert!(keep_evicting(1000, 50, 900));
    assert!(!keep_evicting(1000, 100, 900));
    assert!(!keep_evicting(1000, 2000, 900));
}

#[test]
fn entries_are_stamped() {
    let e = new_entry("sha256:abc123", 9, 42);
    assert_eq!(e.digest, "sha256:abc123");
    assert_eq!(e.size, 9);
    assert_eq!(e.created, 42);
    assert_eq!(e.last_accessed, 42);
    let t = touched(e, 77);
    assert_eq!(t.last_accessed, 77);
    assert_eq!(t.created, 42);
    let n = new_entry_now("sha256:x", 3);
    assert_eq!(n.created, n.last_accessed);
    assert!(n.created > 1_500_000_000_000_000);
}

#[test]
fn repeated_put_replaces_size() {
    let total = size_after_put(0, 100);
    let total = size_after_replace(total, Some(100), 100);
    assert_eq!(total, 100);
    let total = size_after_replace(total, None, 200);
    assert_eq!(total, 300);
    assert_eq!(size_after_replace(300, Some(200), 50), 150);
}

#[test]
fn eviction_counts_only_successful_removals() {
    assert_eq!(freed_after_removal(10, 5, true), 15);
    assert_eq!(freed_after_removal(10, 5, false), 10);
    assert_eq!(freed_after_removal(u64::MAX, 5, true), u64::MAX);
}
