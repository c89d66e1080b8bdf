use infera::index::{cache_stats, entry_precedes, is_artifact_file_name, list_entries, total_size, CacheEntry, ScannedFile};

fn file(name: &str, accessed: Option<u128>, size: u64) -> ScannedFile {
    ScannedFile { name: name.to_string(), is_file: true, accessed_nanos: accessed, size }
}

#[test]
fn naming_convention() {
    assert!(is_artifact_file_name("ab.artifact"));
    assert!(!is_artifact_file_name(".artifact"));
    assert!(!is_artifact_file_name("ab.artifact.part-r-1"));
    assert!(!is_artifact_file_name("ab.etag"));
    assert!(!is_artifact_file_name("dummy.tmp"));
}

#[test]
fn listing_skips_other_files_and_orders_oldest_first() {
    let mut dir = file("d.artifact", Some(1), 5);
    dir.is_file = false;
    let listing = vec![
        file("c.artifact", Some(30), 3),
        file("a.etag", Some(1), 9),
        file("b.artifact", Some(10), 2),
        dir,
        file("x.artifact.part-r-1", Some(0), 7),
        file("a.artifact", Some(20), 1),
    ];
    let entries = list_entries("/cache", &listing, 99);
    let paths: Vec<&str> = entries.iter().map(|e| e.path.as_str()).collect();
    assert_eq!(paths, vec!["/cache/b.artifact", "/cache/a.artifact", "/cache/c.artifact"]);
    assert_eq!(total_size(&entries), 6);
    let stats = cache_stats("/cache", &entries, 100);
    assert_eq!(stats.file_count, 3);
    assert_eq!(stats.total_size_bytes, 6);
    assert_eq!(stats.size_limit_bytes, 100);
    assert_eq!(stats.cache_dir, "/cache");
}

#[test]
fn ties_break_by_path_and_missing_times_count_as_now() {
    let listing = vec![
        file("z.artifact", Some(5), 1),
        file("m.artifact", None, 1),
        file("a.artifact", Some(5), 1),
    ];
    let entries = list_entries("/c", &listing, 3);
    let paths: Vec<&str> = entries.iter().map(|e| e.path.as_str()).collect();
    assert_eq!(paths, vec!["/c/m.artifact", "/c/a.artifact", "/c/z.artifact"]);
    assert_eq!(entries[0].accessed_nanos, 3);
}

#[test]
fn empty_listing() {
    let entries = list_entries("/c", &Vec::new(), 0);
    assert!(entries.is_empty());
    assert_eq!(total_size(&entries), 0);
}

#[test]
fn touched_entry_sorts_after_older_ones() {
    let listing = vec![
        file("a.artifact", Some(100), 1),
        file("b.artifact", Some(200), 1),
        file("c.artifact", Some(300), 1),
    ];
    let before = list_entries("/c", &listing, 0);
    assert_eq!(before[0].path, "/c/a.artifact");
    // a hit on a.artifact sets its access time to now
    let mut touched = listing.clone();
    touched[0].accessed_nanos = Some(400);
    let after = list_entries("/c", &touched, 0);
    let paths: Vec<&str> = after.iter().map(|e| e.path.as_str()).collect();
    assert_eq!(paths, vec!["/c/b.artifact", "/c/c.artifact", "/c/a.artifact"]);
    let a = CacheEntry { path: "/c/a".to_string(), accessed_nanos: 400, size: 1 };
    let b = CacheEntry { path: "/c/b".to_string(), accessed_nanos: 200, size: 1 };
    assert!(entry_precedes(&b, &a));
    assert!(!entry_precedes(&a, &b));
}

#[test]
fn large_sizes_sum_exactly() {
    let entries = vec![
        CacheEntry { path: "/c/a.artifact".to_string(), accessed_nanos: 1, size: u64::MAX },
        CacheEntry { path: "/c/b.artifact".to_string(), accessed_nanos: 2, size: u64::MAX },
    ];
    assert_eq!(total_size(&entries), 2 * (u64::MAX as u128));
}
