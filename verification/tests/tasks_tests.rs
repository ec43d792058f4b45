use aethervk_device::tasks::{TaskEntry, TaskStatus, TimelinePoller, WorkloadStatus};
use std::collections::BTreeMap;

fn entry(target_value: u64, status: TaskStatus) -> TaskEntry {
    TaskEntry { target_value, status }
}

fn poller() -> TimelinePoller {
    let mut registry = BTreeMap::new();
    registry.insert(7, entry(5, TaskStatus::Pending));
    registry.insert(3, entry(2, TaskStatus::Pending));
    registry.insert(9, entry(1, TaskStatus::Failed));
    registry.insert(4, entry(8, TaskStatus::Pending));
    TimelinePoller { cached_value: 1, registry }
}

#[test]
fn poll_resolves_reached_pending_tasks_in_id_order() {
    let mut p = poller();
    let out = p.execute(false, Some(5));
    assert_eq!(out.status, WorkloadStatus::Yield);
    assert_eq!(out.resolved, vec![3, 7]);
    assert_eq!(p.cached_value, 5);
    assert_eq!(p.registry.keys().copied().collect::<Vec<u64>>(), vec![4, 9]);
    assert_eq!(p.registry[&9].status, TaskStatus::Failed);
}

#[test]
fn cached_value_never_decreases() {
    let mut p = poller();
    p.execute(false, Some(6));
    let out = p.execute(false, Some(2));
    assert!(out.resolved.is_empty());
    assert_eq!(p.cached_value, 6);
}

#[test]
fn stop_signal_completes_without_polling() {
    let mut p = poller();
    let out = p.execute(true, Some(100));
    assert_eq!(out.status, WorkloadStatus::Complete);
    assert!(out.resolved.is_empty());
    assert_eq!(p.registry.len(), 4);
    assert_eq!(p.cached_value, 1);
}

#[test]
fn failed_counter_read_changes_nothing() {
    let mut p = poller();
    let out = p.execute(false, None);
    assert_eq!(out.status, WorkloadStatus::Yield);
    assert!(out.resolved.is_empty());
    assert_eq!(p.registry.len(), 4);
}

#[test]
fn a_later_poll_subsumes_an_earlier_one() {
    let mut twice = poller();
    twice.execute(false, Some(2));
    twice.execute(false, Some(8));
    let mut once = poller();
    once.execute(false, Some(8));
    assert_eq!(twice.registry, once.registry);
}

#[test]
fn submission_sets_the_target_of_a_registered_task() {
    let mut p = poller();
    assert!(p.set_target(7, 12));
    assert_eq!(p.registry[&7], TaskEntry { target_value: 12, status: TaskStatus::Pending });
    assert!(!p.set_target(8, 12));
    assert_eq!(p.registry.len(), 4);
    let out = p.execute(false, Some(6));
    assert_eq!(out.resolved, vec![3]);
}
