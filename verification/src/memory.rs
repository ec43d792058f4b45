//! The per-frame staging arena: a host-visible buffer handed out by bump
//! allocation and reset as a whole once per frame; and the totals of the
//! memory heaps' budgets.
use vstd::prelude::*;

verus! {

/// `offset` rounded up to the next multiple of `alignment`.
pub open spec fn align_up(offset: int, alignment: int) -> int {
    offset + (alignment - offset % alignment) % alignment
}

/// A staging buffer of `capacity` bytes, of which the first `offset` are
/// handed out for the current frame.
pub struct FrameStagingArena {
    buffer: u64,
    allocation: u64,
    capacity: usize,
    offset: usize,
}

impl FrameStagingArena {
    /// Bytes the buffer holds.
    pub closed spec fn size(&self) -> nat {
        self.capacity as nat
    }

    /// The `VkBuffer`.
    pub closed spec fn staging_buffer(&self) -> u64 {
        self.buffer
    }

    /// The buffer's VMA allocation.
    pub closed spec fn staging_allocation(&self) -> u64 {
        self.allocation
    }

    /// Bytes handed out since the last reset.
    pub closed spec fn used(&self) -> nat {
        self.offset as nat
    }

    /// Nothing is handed out beyond the buffer.
    pub closed spec fn wf(&self) -> bool {
        self.offset <= self.capacity
    }

    /// An arena over a newly created buffer of `capacity` bytes.
    pub fn new(buffer: u64, allocation: u64, capacity: usize) -> (r: Self)
        ensures
            r.wf(),
            r.size() == capacity,
            r.used() == 0,
            r.staging_buffer() == buffer,
            r.staging_allocation() == allocation,
    {
        FrameStagingArena { buffer, allocation, capacity, offset: 0 }
    }

    /// The `VkBuffer`.
    pub fn buffer(&self) -> (r: u64)
        ensures
            r == self.staging_buffer(),
    {
        self.buffer
    }

    /// The buffer's VMA allocation.
    pub fn allocation(&self) -> (r: u64)
        ensures
            r == self.staging_allocation(),
    {
        self.allocation
    }

    /// Bytes the buffer holds.
    pub fn capacity(&self) -> (r: usize)
        ensures
            r == self.size(),
    {
        self.capacity
    }

    /// Bytes handed out since the last reset.
    pub fn offset(&self) -> (r: usize)
        ensures
            r == self.used(),
    {
        self.offset
    }

    /// Makes the whole buffer available again.
    pub fn reset(&mut self)
        ensures
            final(self).wf(),
            final(self).used() == 0,
            final(self).size() == old(self).size(),
            final(self).staging_buffer() == old(self).staging_buffer(),
            final(self).staging_allocation() == old(self).staging_allocation(),
    {
        self.offset = 0;
    }

    /// Hands out `size` bytes at the first offset past those handed out
    /// that is a multiple of `alignment`; `None`, and nothing handed out,
    /// when they would not fit in the buffer.
    pub fn allocate(&mut self, size: usize, alignment: usize) -> (r: Option<usize>)
        requires
            old(self).wf(),
            alignment > 0,
            align_up(old(self).used() as int, alignment as int) + size <= usize::MAX,
        ensures
            final(self).wf(),
            final(self).size() == old(self).size(),
            final(self).staging_buffer() == old(self).staging_buffer(),
            final(self).staging_allocation() == old(self).staging_allocation(),
            ({
                let start = align_up(old(self).used() as int, alignment as int);
                if start + size > old(self).size() {
                    r is None && final(self).used() == old(self).used()
                } else {
                    r == Some(start as usize) && final(self).used() == start + size
                }
            }),
    {
        let current = self.offset;
        assert(current % alignment < alignment) by (nonlinear_arith)
            requires
                alignment > 0,
        ;
        let padding = (alignment - (current % alignment)) % alignment;
        let aligned = current + padding;
        let next = aligned + size;
        if next > self.capacity {
            return None;
        }
        self.offset = next;
        Some(aligned)
    }
}

/// Every allocation starts at a multiple of its alignment, lies within the
/// buffer and after everything handed out before it, so allocations of one
/// frame never overlap.
pub proof fn lemma_allocation_aligned_and_disjoint(used: nat, capacity: nat, size: nat, alignment: nat)
    requires
        alignment > 0,
        used <= capacity,
        align_up(used as int, alignment as int) + size <= capacity,
    ensures
        align_up(used as int, alignment as int) % (alignment as int) == 0,
        align_up(used as int, alignment as int) >= used,
        align_up(used as int, alignment as int) < used + alignment,
        align_up(used as int, alignment as int) + size <= capacity,
{
    let a = alignment as int;
    let u = used as int;
    assert(0 <= u % a < a) by (nonlinear_arith)
        requires
            a > 0,
    ;
    if u % a == 0 {
        assert((a - u % a) % a == 0) by (nonlinear_arith)
            requires
                a > 0,
                u % a == 0,
        ;
    } else {
        assert((a - u % a) % a == a - u % a) by (nonlinear_arith)
            requires
                a > 0,
                0 < u % a < a,
        ;
        assert((u + (a - u % a)) % a == 0) by (nonlinear_arith)
            requires
                a > 0,
                0 < u % a < a,
        ;
    }
}

/// The budget and the usage of one memory heap, in bytes.
#[derive(Clone, Copy, Debug, PartialEq, Eq, Structural)]
pub struct HeapBudget {
    pub budget: u64,
    pub usage: u64,
}

/// Budgets and usages summed over all heaps.
#[derive(Clone, Copy, Debug, PartialEq, Eq, Structural)]
pub struct BudgetTotals {
    pub budget: u64,
    pub usage: u64,
}

/// Sum of the budgets of `heaps`.
pub open spec fn sum_budget(heaps: Seq<HeapBudget>) -> int
    decreases heaps.len(),
{
    if heaps.len() == 0 {
        0
    } else {
        sum_budget(heaps.drop_last()) + heaps.last().budget
    }
}

/// Sum of the usages of `heaps`.
pub open spec fn sum_usage(heaps: Seq<HeapBudget>) -> int
    decreases heaps.len(),
{
    if heaps.len() == 0 {
        0
    } else {
        sum_usage(heaps.drop_last()) + heaps.last().usage
    }
}

proof fn lemma_sums_grow(heaps: Seq<HeapBudget>, i: int, j: int)
    requires
        0 <= i <= j <= heaps.len(),
    ensures
        sum_budget(heaps.take(i)) <= sum_budget(heaps.take(j)),
        sum_usage(heaps.take(i)) <= sum_usage(heaps.take(j)),
    decreases j - i,
{
    if i < j {
        lemma_sums_grow(heaps, i, j - 1);
        assert(heaps.take(j).drop_last() =~= heaps.take(j - 1));
    }
}

/// The total budget and usage of all heaps.
pub fn budget_totals(heaps: &Vec<HeapBudget>) -> (r: BudgetTotals)
    requires
        sum_budget(heaps@) <= u64::MAX,
        sum_usage(heaps@) <= u64::MAX,
    ensures
        r.budget == sum_budget(heaps@),
        r.usage == sum_usage(heaps@),
{
    let mut budget: u64 = 0;
    let mut usage: u64 = 0;
    let mut i: usize = 0;
    while i < heaps.len()
        invariant
            i <= heaps@.len(),
            sum_budget(heaps@) <= u64::MAX,
            sum_usage(heaps@) <= u64::MAX,
            budget == sum_budget(heaps@.take(i as int)),
            usage == sum_usage(heaps@.take(i as int)),
        decreases heaps@.len() - i,
    {
        proof {
            lemma_sums_grow(heaps@, i + 1, heaps@.len() as int);
            assert(heaps@.take(i + 1).drop_last() =~= heaps@.take(i as int));
            assert(heaps@.take(heaps@.len() as int) =~= heaps@);
        }
        budget = budget + heaps[i].budget;
        usage = usage + heaps[i].usage;
        i = i + 1;
    }
    assert(heaps@.take(i as int) =~= heaps@);
    BudgetTotals { budget, usage }
}

} // verus!
