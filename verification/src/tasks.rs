//! Tasks that complete when the graphics timeline semaphore reaches a value.
//!
//! A task is registered with the timeline value that marks the end of the
//! submission it waits for. A polling workload reads the semaphore's
//! counter now and then; every pending task whose value was reached is
//! marked successful and leaves the registry.
use std::collections::BTreeMap;
use vstd::prelude::*;

verus! {

/// Where a task stands.
#[derive(Clone, Copy, Debug, PartialEq, Eq, Structural)]
pub enum TaskStatus {
    Pending,
    Success,
    Failed,
}

/// A registered task.
#[derive(Clone, Copy, Debug, PartialEq, Eq, Structural)]
pub struct TaskEntry {
    /// The timeline value at which the task's work is done.
    pub target_value: u64,
    pub status: TaskStatus,
}

/// What the polling workload asks of the thread pool.
#[derive(Clone, Copy, Debug, PartialEq, Eq, Structural)]
pub enum WorkloadStatus {
    /// Stop: the device is shutting down.
    Complete,
    /// Run again later.
    Yield,
}

/// What one poll did.
pub struct PollOutcome {
    pub status: WorkloadStatus,
    /// The tasks that were marked successful and left the registry, by
    /// increasing id.
    pub resolved: Vec<u64>,
}

/// A task that a semaphore counter of `gpu_value` completes.
pub open spec fn resolves(entry: TaskEntry, gpu_value: u64) -> bool {
    entry.status is Pending && entry.target_value <= gpu_value
}

/// The registry after a poll that read `gpu_value`.
pub open spec fn after_poll(m: Map<u64, TaskEntry>, gpu_value: u64) -> Map<u64, TaskEntry> {
    m.restrict(m.dom().filter(|id: u64| !resolves(m[id], gpu_value)))
}

/// The semaphore's last known counter and the registered tasks.
pub struct TimelinePoller {
    pub cached_value: u64,
    pub registry: BTreeMap<u64, TaskEntry>,
}

/// Task ids are integers, which `BTreeMap` orders as integers.
proof fn lemma_ids_are_ordered()
    ensures
        vstd::laws_cmp::obeys_cmp::<u64>(),
        vstd::std_specs::btree::key_obeys_cmp_spec::<u64>(),
{
}

/// Keys that `BTreeMap` hands out in increasing order increase as integers.
proof fn lemma_increasing_ids(keys: Seq<u64>, i: int, j: int)
    requires
        vstd::std_specs::btree::increasing_seq(keys),
        0 <= i < j < keys.len(),
    ensures
        keys[i] < keys[j],
{
    lemma_ids_are_ordered();
    assert(vstd::std_specs::cmp::OrdSpec::cmp_spec(&keys[i], &keys[j]) is Less);
}

impl TimelinePoller {
    /// Records the timeline value that the submission of task `task_id`
    /// signals at its end. `false` (and nothing changes) when no such task
    /// is registered.
    pub fn set_target(&mut self, task_id: u64, value: u64) -> (r: bool)
        ensures
            r == old(self).registry@.contains_key(task_id),
            final(self).cached_value == old(self).cached_value,
            final(self).registry@ == (if r {
                old(self).registry@.insert(
                    task_id,
                    TaskEntry { target_value: value, ..old(self).registry@[task_id] },
                )
            } else {
                old(self).registry@
            }),
    {
        proof {
            lemma_ids_are_ordered();
        }
        match self.registry.get(&task_id) {
            Some(e) => {
                let entry = TaskEntry { target_value: value, status: e.status };
                self.registry.insert(task_id, entry);
                true
            },
            None => false,
        }
    }

    /// One run of the polling workload. `stop` is the shutdown signal;
    /// `gpu_value` is the semaphore's counter as read from the driver, or
    /// `None` where the read failed.
    ///
    /// On shutdown nothing changes and the workload completes. Otherwise a
    /// successful read raises the cached value to the counter if it is
    /// larger and resolves every pending task whose target the counter
    /// reached; a failed read changes nothing.
    pub fn execute(&mut self, stop: bool, gpu_value: Option<u64>) -> (r: PollOutcome)
        ensures
            stop ==> r.status == WorkloadStatus::Complete && r.resolved@.len() == 0
                && final(self).cached_value == old(self).cached_value
                && final(self).registry@ == old(self).registry@,
            !stop && gpu_value is None ==> r.status == WorkloadStatus::Yield && r.resolved@.len()
                == 0 && final(self).cached_value == old(self).cached_value
                && final(self).registry@ == old(self).registry@,
            !stop && gpu_value is Some ==> {
                let v = gpu_value->0;
                &&& r.status == WorkloadStatus::Yield
                &&& final(self).cached_value == (if v > old(self).cached_value {
                    v
                } else {
                    old(self).cached_value
                })
                &&& final(self).registry@ == after_poll(old(self).registry@, v)
                &&& r.resolved@.no_duplicates()
                &&& r.resolved@.to_set() == old(self).registry@.dom().filter(
                    |id: u64| resolves(old(self).registry@[id], v),
                )
                &&& forall|i: int, j: int| 0 <= i < j < r.resolved@.len() ==> r.resolved@[i] < r.resolved@[j]
            },
    {
        if stop {
            return PollOutcome { status: WorkloadStatus::Complete, resolved: Vec::new() };
        }
        let v = match gpu_value {
            Some(v) => v,
            None => {
                return PollOutcome { status: WorkloadStatus::Yield, resolved: Vec::new() };
            },
        };
        if v > self.cached_value {
            self.cached_value = v;
        }
        let ghost m0 = self.registry@;
        let ghost cached = self.cached_value;
        proof {
            lemma_ids_are_ordered();
        }
        let ghost s0 = vstd::std_specs::iter::IteratorSpec::remaining(
            &vstd::std_specs::btree::spec_btree_map_iter(&self.registry),
        );
        let ghost mut seen: int = 0;
        let mut completed: Vec<u64> = Vec::new();
        for kv in it: self.registry.iter()
            invariant
                self.registry@ == m0,
                self.cached_value == cached,
                it.seq() == s0,
                seen == it.index(),
                vstd::std_specs::btree::increasing_seq(s0.map_values(|kv: (&u64, &TaskEntry)| *kv.0)),
                completed@.no_duplicates(),
                forall|k: u64|
                    completed@.contains(k) <==> exists|i: int|
                        0 <= i < seen && *(#[trigger] s0[i]).0 == k && resolves(
                            *s0[i].1,
                            v,
                        ),
                forall|j: int|
                    0 <= j < completed@.len() ==> exists|i: int|
                        0 <= i < seen && *(#[trigger] s0[i]).0 == #[trigger] completed@[j],
                forall|a: int, b: int|
                    0 <= a < b < completed@.len() ==> completed@[a] < completed@[b],
        {
            let (id, entry) = kv;
            let ghost idx = seen;
            let ghost before = completed@;
            assert(kv == s0[idx]);
            if entry.status == TaskStatus::Pending && v >= entry.target_value {
                proof {
                    let keys = s0.map_values(|kv: (&u64, &TaskEntry)| *kv.0);
                    assert forall|j: int| 0 <= j < completed@.len() implies completed@[j] < *id by {
                        let i = choose|i: int|
                            0 <= i < idx && *(#[trigger] s0[i]).0 == #[trigger] completed@[j];
                        assert(keys[i] == completed@[j]);
                        assert(keys[idx] == *id);
                        lemma_increasing_ids(keys, i, idx);
                    }
                }
                completed.push(*id);
                proof {
                    assert(*s0[idx].0 == completed@[completed@.len() - 1]);
                }
            }
            proof {
                let keys = s0.map_values(|kv: (&u64, &TaskEntry)| *kv.0);
                assert(keys[idx] == *id);
                assert forall|k: u64|
                    completed@.contains(k) <==> exists|i: int|
                        0 <= i < idx + 1 && *(#[trigger] s0[i]).0 == k && resolves(*s0[i].1, v) by {
                    if exists|i: int| 0 <= i < idx + 1 && *(#[trigger] s0[i]).0 == k && resolves(*s0[i].1, v) {
                        let i = choose|i: int|
                            0 <= i < idx + 1 && *(#[trigger] s0[i]).0 == k && resolves(*s0[i].1, v);
                        if i == idx {
                            assert(completed@[completed@.len() - 1] == k);
                        } else {
                            assert(before.contains(k));
                            let j = choose|j: int| 0 <= j < before.len() && before[j] == k;
                            assert(completed@[j] == k);
                        }
                    }
                    if completed@.contains(k) {
                        if before.contains(k) {
                        } else {
                            let j = choose|j: int| 0 <= j < completed@.len() && completed@[j] == k;
                            if j < before.len() {
                                assert(before[j] == k);
                            }
                            assert(k == *id);
                            assert(*s0[idx].0 == k);
                        }
                    }
                }
                seen = seen + 1;
            }
        }
        let ghost all = completed@;
        let mut i: usize = 0;
        while i < completed.len()
            invariant
                0 <= i <= completed@.len(),
                completed@ == all,
                self.cached_value == cached,
                forall|k: u64|
                    #[trigger] self.registry@.contains_key(k) <==> (m0.contains_key(k) && forall|j: int|
                        0 <= j < i ==> completed@[j] != k),
                forall|k: u64| #[trigger] self.registry@.contains_key(k) ==> self.registry@[k] == m0[k],
            decreases completed@.len() - i,
        {
            self.registry.remove(&completed[i]);
            i = i + 1;
        }
        proof {
            assert(seen == s0.len());
            assert forall|k: u64| all.contains(k) <==> (m0.contains_key(k) && resolves(m0[k], v)) by {
                if m0.contains_key(k) {
                    assert(s0.contains((&k, &m0[k])));
                    let i = choose|i: int| 0 <= i < s0.len() && s0[i] == (&k, &m0[k]);
                    assert(*s0[i].0 == k);
                    assert(*s0[i].1 == m0[k]);
                }
                if all.contains(k) {
                    let i = choose|i: int|
                        0 <= i < seen && *(#[trigger] s0[i]).0 == k && resolves(*s0[i].1, v);
                    assert(m0.contains_key(*s0[i].0));
                }
            }
            assert(all.to_set() =~= m0.dom().filter(|id: u64| resolves(m0[id], v)));
            assert forall|k: u64| self.registry@.contains_key(k) <==> after_poll(m0, v).contains_key(k) by {
                if m0.contains_key(k) && !resolves(m0[k], v) {
                    assert(!all.contains(k));
                }
                if self.registry@.contains_key(k) && resolves(m0[k], v) {
                    assert(all.contains(k));
                    let j = choose|j: int| 0 <= j < all.len() && all[j] == k;
                }
            }
            assert forall|k: u64| #[trigger] self.registry@.contains_key(k) implies self.registry@[k]
                == after_poll(m0, v)[k] by {
                assert(after_poll(m0, v).contains_key(k));
            }
            assert(self.registry@ =~= after_poll(m0, v));
        }
        PollOutcome { status: WorkloadStatus::Yield, resolved: completed }
    }
}

/// After a poll that read `gpu_value`, no registered task is pending on a
/// value the counter reached, and every other task is kept as it was.
pub proof fn lemma_poll_resolves_reached_tasks(m: Map<u64, TaskEntry>, gpu_value: u64)
    ensures
        forall|id: u64| #[trigger]
            after_poll(m, gpu_value).contains_key(id) ==> !resolves(after_poll(m, gpu_value)[id], gpu_value),
        forall|id: u64|
            m.contains_key(id) && !resolves(m[id], gpu_value) ==> #[trigger] after_poll(m, gpu_value).contains_key(id)
                && after_poll(m, gpu_value)[id] == m[id],
{
}

/// Polls compose: a poll that reads `a` followed by one that reads `b`, no
/// smaller, leaves the registry that the second poll alone leaves.
pub proof fn lemma_later_poll_subsumes(m: Map<u64, TaskEntry>, a: u64, b: u64)
    requires
        a <= b,
    ensures
        after_poll(after_poll(m, a), b) == after_poll(m, b),
{
    assert(after_poll(after_poll(m, a), b) =~= after_poll(m, b));
}

} // verus!
