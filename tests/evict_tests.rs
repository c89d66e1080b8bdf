use infera::error::InferaError;
use infera::evict::Evictor;
use infera::index::CacheEntry;

fn entry(name: &str, t: u128, size: u64) -> CacheEntry {
    CacheEntry { path: name.to_string(), accessed_nanos: t, size }
}

fn run_all_ok(mut ev: Evictor) -> (Vec<String>, Result<(), InferaError>) {
    let mut deleted = Vec::new();
    while let Some(p) = ev.next_victim() {
        deleted.push(p);
        ev.record(Ok(()));
    }
    (deleted, ev.finish())
}

#[test]
fn full_cache_evicts_just_enough_oldest() {
    // limit 300, three entries of 100 summing to it, 150 bytes incoming
    let entries = vec![entry("old", 1, 100), entry("mid", 2, 100), entry("new", 3, 100)];
    let (deleted, r) = run_all_ok(Evictor::new(entries, 300, 150));
    assert_eq!(deleted, vec!["old".to_string(), "mid".to_string()]);
    assert!(r.is_ok());
}

#[test]
fn exact_fit_evicts_one() {
    let entries = vec![entry("old", 1, 100), entry("mid", 2, 100), entry("new", 3, 100)];
    let (deleted, r) = run_all_ok(Evictor::new(entries, 300, 100));
    assert_eq!(deleted, vec!["old".to_string()]);
    assert!(r.is_ok());
}

#[test]
fn room_enough_evicts_nothing() {
    let entries = vec![entry("a", 1, 100)];
    let (deleted, r) = run_all_ok(Evictor::new(entries, 300, 200));
    assert!(deleted.is_empty());
    assert!(r.is_ok());
}

#[test]
fn incoming_over_limit_evicts_everything() {
    let entries = vec![entry("a", 1, 10), entry("b", 2, 10)];
    let (deleted, r) = run_all_ok(Evictor::new(entries, 100, 500));
    assert_eq!(deleted, vec!["a".to_string(), "b".to_string()]);
    assert!(r.is_ok());
}

#[test]
fn failed_deletion_is_skipped() {
    let entries = vec![entry("a", 1, 100), entry("b", 2, 100), entry("c", 3, 100)];
    let mut ev = Evictor::new(entries, 300, 100);
    assert_eq!(ev.next_victim(), Some("a".to_string()));
    ev.record(Err(InferaError::IoError("busy".to_string())));
    assert_eq!(ev.next_victim(), Some("b".to_string()));
    ev.record(Ok(()));
    assert_eq!(ev.next_victim(), None);
    assert_eq!(ev.finish(), Ok(()));
}

#[test]
fn failed_deletion_surfaces_when_room_is_short() {
    let entries = vec![entry("a", 1, 100), entry("b", 2, 100)];
    let mut ev = Evictor::new(entries, 200, 150);
    ev.record(Ok(()));
    ev.record(Err(InferaError::IoError("denied".to_string())));
    assert_eq!(ev.next_victim(), None);
    assert_eq!(ev.finish(), Err(InferaError::IoError("denied".to_string())));
}
