//! Per-thread accounting of held device locks.
//!
//! A fixed table of `MAX_TRACKED_THREADS` slots maps a thread's hash to the
//! number of locks that thread currently holds. Slots are claimed in order and
//! never released, so the claimed slots always form a prefix of the table.
use vstd::prelude::*;

verus! {

/// Number of threads whose lock counts can be tracked at once.
pub const MAX_TRACKED_THREADS: usize = 64;

/// Table of (thread hash, held lock count) slots. A hash of 0 marks a free slot.
pub struct LockTracker {
    hashes: Vec<u64>,
    counts: Vec<usize>,
}

/// Maps the raw hash of a thread identifier to the key used in the table:
/// 0 is reserved for free slots, so it is replaced by 1.
pub open spec fn spec_thread_key(raw: u64) -> u64 {
    if raw == 0 { 1 } else { raw }
}

/// Normalizes the hash of a thread identifier into a table key.
pub fn thread_key(raw: u64) -> (key: u64)
    ensures
        key == spec_thread_key(raw),
        key != 0,
{
    if raw == 0 { 1 } else { raw }
}

impl LockTracker {
    /// The table is well formed: both columns have one entry per slot, claimed
    /// slots form a prefix, claimed hashes are distinct, free slots count 0.
    pub closed spec fn wf(&self) -> bool {
        &&& self.hashes@.len() == MAX_TRACKED_THREADS
        &&& self.counts@.len() == MAX_TRACKED_THREADS
        &&& forall|i: int, j: int|
            0 <= i < j < MAX_TRACKED_THREADS && self.hashes@[j] != 0 ==> #[trigger] self.hashes@[i]
                != 0 && #[trigger] self.hashes@[j] != self.hashes@[i]
        &&& forall|i: int| 0 <= i < MAX_TRACKED_THREADS && self.hashes@[i] == 0 ==> #[trigger] self.counts@[i] == 0
    }

    /// The key of the thread that claimed slot `i`; 0 while it is free.
    pub closed spec fn slot_key(&self, i: int) -> u64 {
        self.hashes@[i]
    }

    /// In a well-formed table the claimed slots come first and hold
    /// distinct keys, a thread is registered exactly when some slot holds
    /// its key, and a thread without a slot holds no lock.
    pub proof fn lemma_slots(&self)
        requires
            self.wf(),
        ensures
            forall|i: int, j: int|
                0 <= i < j < MAX_TRACKED_THREADS && self.slot_key(j) != 0 ==> #[trigger] self.slot_key(i) != 0
                    && #[trigger] self.slot_key(j) != self.slot_key(i),
            forall|h: u64|
                #[trigger] self.is_registered(h) <==> h != 0 && exists|i: int|
                    0 <= i < MAX_TRACKED_THREADS && #[trigger] self.slot_key(i) == h,
            forall|h: u64| !self.is_registered(h) ==> #[trigger] self.count_of(h) == 0,
    {
        assert forall|h: u64| #[trigger] self.is_registered(h) <==> h != 0 && exists|i: int|
            0 <= i < MAX_TRACKED_THREADS && #[trigger] self.slot_key(i) == h by {
            if self.is_registered(h) {
                let i = choose|i: int| 0 <= i < MAX_TRACKED_THREADS && #[trigger] self.hashes@[i] == h;
                assert(self.slot_key(i) == h);
            }
            if h != 0 && exists|i: int| 0 <= i < MAX_TRACKED_THREADS && #[trigger] self.slot_key(i) == h {
                let i = choose|i: int| 0 <= i < MAX_TRACKED_THREADS && #[trigger] self.slot_key(i) == h;
                assert(self.hashes@[i] == h);
            }
        }
    }

    /// The thread with key `h` owns a slot.
    pub closed spec fn is_registered(&self, h: u64) -> bool {
        h != 0 && exists|i: int| 0 <= i < MAX_TRACKED_THREADS && #[trigger] self.hashes@[i] == h
    }

    /// Some slot is still free.
    pub closed spec fn has_free_slot(&self) -> bool {
        exists|i: int| 0 <= i < MAX_TRACKED_THREADS && #[trigger] self.hashes@[i] == 0
    }

    spec fn slot_of(&self, h: u64) -> int {
        choose|i: int| 0 <= i < MAX_TRACKED_THREADS && #[trigger] self.hashes@[i] == h
    }

    /// Number of locks held by the thread with key `h` (0 when unregistered).
    pub closed spec fn count_of(&self, h: u64) -> usize {
        if self.is_registered(h) {
            self.counts@[self.slot_of(h)]
        } else {
            0
        }
    }

    proof fn lemma_slot_unique(&self, h: u64, i: int)
        requires
            self.wf(),
            h != 0,
            0 <= i < MAX_TRACKED_THREADS,
            self.hashes@[i] == h,
        ensures
            self.is_registered(h),
            self.slot_of(h) == i,
            self.count_of(h) == self.counts@[i],
    {
        let k = self.slot_of(h);
        assert(self.hashes@[k] == h);
        if k < i {
            assert(self.hashes@[i] != self.hashes@[k]);
        } else if i < k {
            assert(self.hashes@[k] != self.hashes@[i]);
        }
    }

    /// An empty table: every slot free, every count 0.
    pub fn new() -> (t: Self)
        ensures
            t.wf(),
            t.has_free_slot(),
            forall|h: u64| !#[trigger] t.is_registered(h),
            forall|h: u64| #[trigger] t.count_of(h) == 0,
    {
        let mut hashes: Vec<u64> = Vec::new();
        let mut counts: Vec<usize> = Vec::new();
        let mut i: usize = 0;
        while i < MAX_TRACKED_THREADS
            invariant
                i <= MAX_TRACKED_THREADS,
                hashes@.len() == i,
                counts@.len() == i,
                forall|j: int| 0 <= j < i ==> hashes@[j] == 0 && counts@[j] == 0,
            decreases MAX_TRACKED_THREADS - i,
        {
            hashes.push(0);
            counts.push(0);
            i = i + 1;
        }
        let t = LockTracker { hashes, counts };
        assert(t.hashes@[0] == 0);
        t
    }

    /// Whether the thread with key `h` can be tracked: it owns a slot, or a
    /// slot is still free. Where it cannot, taking a lock is refused (the
    /// table of threads is full).
    pub fn can_track(&self, h: u64) -> (r: bool)
        requires
            self.wf(),
            h != 0,
        ensures
            r == (self.is_registered(h) || self.has_free_slot()),
    {
        let mut i: usize = 0;
        while i < MAX_TRACKED_THREADS
            invariant
                self.wf(),
                i <= MAX_TRACKED_THREADS,
                h != 0,
                forall|j: int| 0 <= j < i ==> self.hashes@[j] != h && self.hashes@[j] != 0,
            decreases MAX_TRACKED_THREADS - i,
        {
            let existing = self.hashes[i];
            if existing == h || existing == 0 {
                assert(self.hashes@[i as int] == existing);
                return true;
            }
            i = i + 1;
        }
        proof {
            assert forall|j: int| 0 <= j < MAX_TRACKED_THREADS implies #[trigger] self.hashes@[j] != 0 by {}
            assert forall|j: int| 0 <= j < MAX_TRACKED_THREADS implies #[trigger] self.hashes@[j] != h by {}
        }
        false
    }

    /// Records that the thread with key `h` acquired one more lock, claiming
    /// the first free slot when the thread is new.
    pub fn increment_lock_count(&mut self, h: u64)
        requires
            old(self).wf(),
            h != 0,
            old(self).is_registered(h) || old(self).has_free_slot(),
        ensures
            final(self).wf(),
            forall|g: u64| #[trigger] final(self).is_registered(g) <==> (old(self).is_registered(g) || g == h),
            forall|i: int|
                0 <= i < MAX_TRACKED_THREADS && old(self).slot_key(i) != 0 ==> #[trigger] final(self).slot_key(i)
                    == old(self).slot_key(i),
            final(self).count_of(h) == old(self).count_of(h).wrapping_add(1),
            forall|g: u64| g != h ==> #[trigger] final(self).count_of(g) == old(self).count_of(g),
    {
        let mut i: usize = 0;
        while i < MAX_TRACKED_THREADS
            invariant
                self.wf(),
                h != 0,
                self.is_registered(h) || self.has_free_slot(),
                *self == *old(self),
                0 <= i <= MAX_TRACKED_THREADS,
                forall|j: int| 0 <= j < i ==> self.hashes@[j] != 0 && self.hashes@[j] != h,
            decreases MAX_TRACKED_THREADS - i,
        {
            let existing = self.hashes[i];
            if existing == h {
                proof {
                    self.lemma_slot_unique(h, i as int);
                }
                let ghost before = *self;
                let c = self.counts[i];
                self.counts.set(i, c.wrapping_add(1));
                proof {
                    self.lemma_slot_unique(h, i as int);
                    assert forall|g: u64| g != h implies #[trigger] self.count_of(g) == before.count_of(g) by {
                        if before.is_registered(g) {
                            let k = before.slot_of(g);
                            before.lemma_slot_unique(g, k);
                            self.lemma_slot_unique(g, k);
                        } else {
                            assert(!self.is_registered(g));
                        }
                    }
                    assert forall|g: u64| #[trigger] self.is_registered(g) <==> (before.is_registered(g) || g == h) by {
                        if self.is_registered(g) {
                            let k = self.slot_of(g);
                            assert(before.hashes@[k] == g);
                        }
                        if before.is_registered(g) {
                            let k = before.slot_of(g);
                            assert(self.hashes@[k] == g);
                        }
                    }
                }
                return;
            }
            if existing == 0 {
                let ghost before = *self;
                proof {
                    assert(!before.is_registered(h)) by {
                        if before.is_registered(h) {
                            let k = before.slot_of(h);
                            if k > i {
                                assert(before.hashes@[k] != 0);
                            }
                        }
                    }
                }
                self.hashes.set(i, h);
                let c = self.counts[i];
                self.counts.set(i, c.wrapping_add(1));
                proof {
                    assert forall|a: int, b: int|
                        0 <= a < b < MAX_TRACKED_THREADS && self.hashes@[b] != 0 implies #[trigger] self.hashes@[a]
                        != 0 && #[trigger] self.hashes@[b] != self.hashes@[a] by {
                        if b > i {
                            assert(before.hashes@[b] != 0);
                            assert(before.hashes@[i as int] != 0);
                        }
                    }
                    self.lemma_slot_unique(h, i as int);
                    assert forall|g: u64| g != h implies #[trigger] self.count_of(g) == before.count_of(g) by {
                        if before.is_registered(g) {
                            let k = before.slot_of(g);
                            before.lemma_slot_unique(g, k);
                            assert(k != i);
                            self.lemma_slot_unique(g, k);
                        } else {
                            if self.is_registered(g) {
                                let k = self.slot_of(g);
                                assert(before.hashes@[k] == g);
                            }
                        }
                    }
                    assert forall|g: u64| #[trigger] self.is_registered(g) <==> (before.is_registered(g) || g == h) by {
                        if self.is_registered(g) && g != h {
                            let k = self.slot_of(g);
                            assert(before.hashes@[k] == g);
                        }
                        if before.is_registered(g) {
                            let k = before.slot_of(g);
                            assert(self.hashes@[k] == g);
                        }
                    }
                }
                return;
            }
            i = i + 1;
        }
        proof {
            if self.is_registered(h) {
                let k = self.slot_of(h);
                assert(self.hashes@[k] != h);
            } else {
                let k = choose|k: int| 0 <= k < MAX_TRACKED_THREADS && #[trigger] self.hashes@[k] == 0;
                assert(self.hashes@[k] != 0);
            }
        }
    }

    /// Records that the thread with key `h` released one lock. Nothing changes
    /// for a thread that owns no slot.
    pub fn decrement_lock_count(&mut self, h: u64)
        requires
            old(self).wf(),
            h != 0,
        ensures
            final(self).wf(),
            forall|g: u64| #[trigger] final(self).is_registered(g) == old(self).is_registered(g),
            forall|i: int| 0 <= i < MAX_TRACKED_THREADS ==> #[trigger] final(self).slot_key(i) == old(self).slot_key(i),
            final(self).count_of(h) == if old(self).is_registered(h) {
                old(self).count_of(h).wrapping_sub(1)
            } else {
                0
            },
            forall|g: u64| g != h ==> #[trigger] final(self).count_of(g) == old(self).count_of(g),
    {
        let mut i: usize = 0;
        while i < MAX_TRACKED_THREADS
            invariant
                self.wf(),
                h != 0,
                *self == *old(self),
                0 <= i <= MAX_TRACKED_THREADS,
                forall|j: int| 0 <= j < i ==> self.hashes@[j] != h,
            decreases MAX_TRACKED_THREADS - i,
        {
            let existing = self.hashes[i];
            if existing == h {
                proof {
                    self.lemma_slot_unique(h, i as int);
                }
                let ghost before = *self;
                let c = self.counts[i];
                self.counts.set(i, c.wrapping_sub(1));
                proof {
                    self.lemma_slot_unique(h, i as int);
                    assert forall|g: u64| g != h implies #[trigger] self.count_of(g) == before.count_of(g) by {
                        if before.is_registered(g) {
                            let k = before.slot_of(g);
                            before.lemma_slot_unique(g, k);
                            self.lemma_slot_unique(g, k);
                        } else {
                            assert(!self.is_registered(g));
                        }
                    }
                    assert forall|g: u64| #[trigger] self.is_registered(g) == before.is_registered(g) by {
                        if self.is_registered(g) {
                            let k = self.slot_of(g);
                            assert(before.hashes@[k] == g);
                        }
                        if before.is_registered(g) {
                            let k = before.slot_of(g);
                            assert(self.hashes@[k] == g);
                        }
                    }
                }
                return;
            }
            i = i + 1;
        }
        proof {
            if self.is_registered(h) {
                let k = self.slot_of(h);
                assert(self.hashes@[k] != h);
            }
        }
    }

    /// Checks that the thread with key `h` holds no lock: `Err` carries the
    /// number of locks it still holds.
    pub fn assert_no_locks_held(&self, h: u64) -> (r: Result<(), usize>)
        requires
            self.wf(),
            h != 0,
        ensures
            r is Ok <==> self.count_of(h) == 0,
            r matches Err(n) ==> n == self.count_of(h),
    {
        let mut i: usize = 0;
        while i < MAX_TRACKED_THREADS
            invariant
                self.wf(),
                h != 0,
                0 <= i <= MAX_TRACKED_THREADS,
                forall|j: int| 0 <= j < i ==> self.hashes@[j] != h,
            decreases MAX_TRACKED_THREADS - i,
        {
            let existing = self.hashes[i];
            if existing == h {
                proof {
                    self.lemma_slot_unique(h, i as int);
                }
                let count = self.counts[i];
                if count != 0 {
                    return Err(count);
                }
                return Ok(());
            }
            i = i + 1;
        }
        proof {
            if self.is_registered(h) {
                let k = self.slot_of(h);
                assert(self.hashes@[k] != h);
            }
        }
        Ok(())
    }

    /// Acquiring and then releasing a lock leaves every thread's count as it was.
    pub proof fn lemma_acquire_release_restores(t0: Self, t1: Self, t2: Self, h: u64)
        requires
            t0.wf(),
            h != 0,
            t1.count_of(h) == t0.count_of(h).wrapping_add(1),
            forall|g: u64| g != h ==> #[trigger] t1.count_of(g) == t0.count_of(g),
            t1.is_registered(h),
            t2.count_of(h) == t1.count_of(h).wrapping_sub(1),
            forall|g: u64| g != h ==> #[trigger] t2.count_of(g) == t1.count_of(g),
        ensures
            forall|g: u64| #[trigger] t2.count_of(g) == t0.count_of(g),
    {
        assert forall|g: u64| #[trigger] t2.count_of(g) == t0.count_of(g) by {
            if g == h {
                let c = t0.count_of(h);
                assert(c.wrapping_add(1).wrapping_sub(1) == c);
            }
        }
    }
}

} // verus!
