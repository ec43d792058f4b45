use aethervk_device::locks::{thread_key, LockTracker, MAX_TRACKED_THREADS};

#[test]
fn thread_key_replaces_zero() {
    assert_eq!(thread_key(0), 1);
    assert_eq!(thread_key(42), 42);
}

#[test]
fn fresh_tracker_holds_no_locks() {
    let t = LockTracker::new();
    assert_eq!(t.assert_no_locks_held(7), Ok(()));
}

#[test]
fn increment_then_decrement_restores_count() {
    let mut t = LockTracker::new();
    t.increment_lock_count(7);
    assert_eq!(t.assert_no_locks_held(7), Err(1));
    t.increment_lock_count(7);
    assert_eq!(t.assert_no_locks_held(7), Err(2));
    t.decrement_lock_count(7);
    assert_eq!(t.assert_no_locks_held(7), Err(1));
    t.decrement_lock_count(7);
    assert_eq!(t.assert_no_locks_held(7), Ok(()));
}

#[test]
fn threads_are_counted_separately() {
    let mut t = LockTracker::new();
    t.increment_lock_count(3);
    t.increment_lock_count(5);
    t.increment_lock_count(5);
    assert_eq!(t.assert_no_locks_held(3), Err(1));
    assert_eq!(t.assert_no_locks_held(5), Err(2));
    t.decrement_lock_count(5);
    assert_eq!(t.assert_no_locks_held(3), Err(1));
    assert_eq!(t.assert_no_locks_held(5), Err(1));
}

#[test]
fn decrement_of_unknown_thread_changes_nothing() {
    let mut t = LockTracker::new();
    t.increment_lock_count(3);
    t.decrement_lock_count(9);
    assert_eq!(t.assert_no_locks_held(9), Ok(()));
    assert_eq!(t.assert_no_locks_held(3), Err(1));
}

#[test]
fn decrement_below_zero_wraps() {
    let mut t = LockTracker::new();
    t.increment_lock_count(3);
    t.decrement_lock_count(3);
    t.decrement_lock_count(3);
    assert_eq!(t.assert_no_locks_held(3), Err(usize::MAX));
}

#[test]
fn table_tracks_max_threads() {
    let mut t = LockTracker::new();
    for h in 1..=(MAX_TRACKED_THREADS as u64) {
        t.increment_lock_count(h);
    }
    for h in 1..=(MAX_TRACKED_THREADS as u64) {
        assert_eq!(t.assert_no_locks_held(h), Err(1));
    }
    // a registered thread can still count once the table is full
    t.increment_lock_count(1);
    assert_eq!(t.assert_no_locks_held(1), Err(2));
}

#[test]
fn a_full_table_tracks_only_its_threads() {
    let mut t = LockTracker::new();
    for k in 1..=(MAX_TRACKED_THREADS as u64) {
        assert!(t.can_track(k));
        t.increment_lock_count(k);
    }
    assert!(t.can_track(1));
    assert!(!t.can_track(MAX_TRACKED_THREADS as u64 + 1));
}
