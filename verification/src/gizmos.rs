//! Gizmo uploads.
//!
//! Sphere gizmos are drawn in one batch: their records are laid out in a
//! host-visible staging area indexed by instance slot (slots without a
//! gizmo stay zero), copied to the data buffer the shaders read, and drawn
//! with enough vertices for the most subdivided sphere. Transform gizmos
//! each own one of a fixed number of host buffers, chosen by the hash of
//! the entity.
use crate::fnv::{fnv1a, le_bytes_u64, FnvState};
use crate::particles::{
    BarrierMasks, BufferBarrier, ACCESS_SHADER_READ, ACCESS_TRANSFER_WRITE, QUEUE_FAMILY_IGNORED,
    STAGE_FRAGMENT_SHADER, STAGE_TRANSFER, STAGE_VERTEX_SHADER,
};
use vstd::prelude::*;

verus! {

/// The fewest subdivisions a sphere gizmo is drawn with.
pub const MIN_SPHERE_SUBDIVISIONS: u32 = 4;

/// The most subdivisions the vertex count formula is used with.
pub const MAX_SPHERE_SUBDIVISIONS: u32 = 8192;

/// Vertices of the three axis lines of a gizmo.
pub const AXES_VERTICES: u32 = 6;

/// Vertices of the arrowheads: four lines of two vertices per axis.
pub const ARROWHEAD_VERTICES: u32 = 24;

/// One sphere gizmo of a batch: its instance slot, its record as the
/// shaders read it, and its subdivisions (rounded down to an integer).
pub struct SphereGizmo {
    pub slot: u32,
    pub record: Vec<u8>,
    pub subdivisions: u32,
}

/// Vertices drawn for a sphere gizmo of `subdivisions`, at least the
/// minimum: two vertices per segment of each longitude line and each
/// latitude ring, then the axes and arrowheads.
pub open spec fn spec_sphere_vertices(subdivisions: u32) -> int {
    let s = if subdivisions < MIN_SPHERE_SUBDIVISIONS {
        MIN_SPHERE_SUBDIVISIONS as int
    } else {
        subdivisions as int
    };
    s * (2 * s - 1) * 2 + AXES_VERTICES + ARROWHEAD_VERTICES
}

/// See [`spec_sphere_vertices`].
pub fn sphere_vertices(subdivisions: u32) -> (r: u32)
    requires
        subdivisions <= MAX_SPHERE_SUBDIVISIONS,
    ensures
        r == spec_sphere_vertices(subdivisions),
{
    let s: u32 = if subdivisions < MIN_SPHERE_SUBDIVISIONS { MIN_SPHERE_SUBDIVISIONS } else { subdivisions };
    assert(s * (2 * s - 1) * 2 + 30 <= u32::MAX) by (nonlinear_arith)
        requires
            4 <= s <= 8192,
    ;
    assert(2 * s - 1 >= 0);
    assert(s * (2 * s - 1) <= u32::MAX) by (nonlinear_arith)
        requires
            4 <= s <= 8192,
    ;
    s * (2 * s - 1) * 2 + AXES_VERTICES + ARROWHEAD_VERTICES
}

/// The largest slot of a non-empty batch, plus one: the slots the data
/// buffer must hold.
pub open spec fn spec_capacity(gizmos: Seq<SphereGizmo>) -> int
    decreases gizmos.len(),
{
    if gizmos.len() == 0 {
        0
    } else {
        let rest = spec_capacity(gizmos.drop_last());
        let here = gizmos.last().slot + 1;
        if here > rest {
            here
        } else {
            rest
        }
    }
}

/// The vertex count of a batch: that of its most subdivided sphere.
pub open spec fn spec_batch_vertices(gizmos: Seq<SphereGizmo>) -> int
    decreases gizmos.len(),
{
    if gizmos.len() == 0 {
        0
    } else {
        let rest = spec_batch_vertices(gizmos.drop_last());
        let here = spec_sphere_vertices(gizmos.last().subdivisions);
        if here > rest {
            here
        } else {
            rest
        }
    }
}

/// `bytes` written over `s` from `offset` on.
pub open spec fn splice(s: Seq<u8>, offset: int, bytes: Seq<u8>) -> Seq<u8> {
    Seq::new(
        s.len(),
        |i: int|
            if offset <= i < offset + bytes.len() {
                bytes[i - offset]
            } else {
                s[i]
            },
    )
}

/// The staging contents of a batch over `base`: each gizmo's record at its
/// slot, in batch order (a later gizmo of the same slot wins).
pub open spec fn spec_staged(base: Seq<u8>, gizmos: Seq<SphereGizmo>, record_size: int) -> Seq<u8>
    decreases gizmos.len(),
{
    if gizmos.len() == 0 {
        base
    } else {
        splice(
            spec_staged(base, gizmos.drop_last(), record_size),
            gizmos.last().slot * record_size,
            gizmos.last().record@.subrange(0, record_size),
        )
    }
}

proof fn lemma_staged_len(base: Seq<u8>, gizmos: Seq<SphereGizmo>, record_size: int)
    ensures
        spec_staged(base, gizmos, record_size).len() == base.len(),
    decreases gizmos.len(),
{
    if gizmos.len() > 0 {
        lemma_staged_len(base, gizmos.drop_last(), record_size);
    }
}

/// A batch in which no two gizmos share a slot reads back: the bytes of
/// each gizmo's slot in the staged contents are its record.
pub proof fn lemma_staged_reads_back(base: Seq<u8>, gizmos: Seq<SphereGizmo>, record_size: int, i: int)
    requires
        record_size >= 0,
        0 <= i < gizmos.len(),
        forall|a: int, b: int|
            0 <= a < gizmos.len() && 0 <= b < gizmos.len() && a != b ==> (#[trigger] gizmos[a]).slot
                != (#[trigger] gizmos[b]).slot,
        forall|a: int|
            0 <= a < gizmos.len() ==> (#[trigger] gizmos[a]).record@.len() == record_size
                && gizmos[a].slot * record_size + record_size <= base.len(),
    ensures
        spec_staged(base, gizmos, record_size).subrange(
            gizmos[i].slot * record_size,
            gizmos[i].slot * record_size + record_size,
        ) == gizmos[i].record@,
    decreases gizmos.len(),
{
    let n = gizmos.len() - 1;
    let last = gizmos[n];
    let p = gizmos.drop_last();
    let prev = spec_staged(base, p, record_size);
    lemma_staged_len(base, p, record_size);
    let off = last.slot * record_size;
    let start = gizmos[i].slot * record_size;
    assert(0 <= start) by (nonlinear_arith)
        requires
            record_size >= 0,
            start == gizmos[i].slot * record_size,
            gizmos[i].slot >= 0,
    ;
    assert(0 <= off) by (nonlinear_arith)
        requires
            record_size >= 0,
            off == last.slot * record_size,
            last.slot >= 0,
    ;
    assert(last.record@.subrange(0, record_size) =~= last.record@);
    if i == n {
        assert(spec_staged(base, gizmos, record_size).subrange(start, start + record_size) =~= last.record@);
    } else {
        assert forall|a: int, b: int|
            0 <= a < p.len() && 0 <= b < p.len() && a != b implies (#[trigger] p[a]).slot != (#[trigger] p[b]).slot by {
            assert(p[a] == gizmos[a]);
            assert(p[b] == gizmos[b]);
        }
        assert forall|a: int| 0 <= a < p.len() implies (#[trigger] p[a]).record@.len() == record_size
            && p[a].slot * record_size + record_size <= base.len() by {
            assert(p[a] == gizmos[a]);
        }
        lemma_staged_reads_back(base, p, record_size, i);
        assert(p[i] == gizmos[i]);
        assert(gizmos[i].slot != last.slot);
        assert(start + record_size <= off || off + record_size <= start) by (nonlinear_arith)
            requires
                gizmos[i].slot != last.slot,
                start == gizmos[i].slot * record_size,
                off == last.slot * record_size,
                record_size >= 0,
        ;
        assert(spec_staged(base, gizmos, record_size).subrange(start, start + record_size) =~= prev.subrange(
            start,
            start + record_size,
        ));
    }
}

/// What a batch of sphere gizmos needs: the slots and vertices to draw, and
/// the staging contents to copy.
pub struct SphereGizmoBatch {
    /// Slots the data buffer holds: the largest slot plus one.
    pub total_gizmos: u32,
    /// Vertices drawn per instance.
    pub total_vertices: u32,
    /// The data buffer contents, slot after slot.
    pub staged: Vec<u8>,
}

/// Every gizmo's record has `record_size` bytes and fits the bounds the
/// batch is computed in.
pub open spec fn batch_fits(gizmos: Seq<SphereGizmo>, record_size: int) -> bool {
    &&& forall|i: int|
        0 <= i < gizmos.len() ==> (#[trigger] gizmos[i]).record@.len() == record_size
            && gizmos[i].subdivisions <= MAX_SPHERE_SUBDIVISIONS && (gizmos[i].slot + 1) * record_size
            <= usize::MAX && gizmos[i].slot < u32::MAX
}

proof fn lemma_capacity_bounds(gizmos: Seq<SphereGizmo>, record_size: int)
    requires
        batch_fits(gizmos, record_size),
        record_size >= 0,
    ensures
        spec_capacity(gizmos) * record_size <= usize::MAX,
        spec_capacity(gizmos) <= u32::MAX,
        forall|i: int| 0 <= i < gizmos.len() ==> (#[trigger] gizmos[i]).slot < spec_capacity(gizmos),
    decreases gizmos.len(),
{
    if gizmos.len() > 0 {
        let p = gizmos.drop_last();
        assert forall|i: int| 0 <= i < p.len() implies (#[trigger] p[i]).record@.len() == record_size
            && p[i].subdivisions <= MAX_SPHERE_SUBDIVISIONS && (p[i].slot + 1) * record_size <= usize::MAX
            && p[i].slot < u32::MAX by {
            assert(p[i] == gizmos[i]);
        }
        lemma_capacity_bounds(p, record_size);
        let last = gizmos.last();
        assert(gizmos[gizmos.len() - 1] == last);
        assert forall|i: int| 0 <= i < gizmos.len() implies (#[trigger] gizmos[i]).slot < spec_capacity(
            gizmos,
        ) by {
            if i < p.len() {
                assert(p[i] == gizmos[i]);
            }
        }
    } else {
        assert(0 * record_size == 0) by (nonlinear_arith);
    }
}

/// Lays out a batch of sphere gizmos: `None` for an empty batch; otherwise
/// the slots to draw, the vertices per instance and the staging contents
/// (zeros where no gizmo has its slot).
pub fn sphere_gizmo_batch(gizmos: &Vec<SphereGizmo>, record_size: usize) -> (r: Option<SphereGizmoBatch>)
    requires
        batch_fits(gizmos@, record_size as int),
    ensures
        gizmos@.len() == 0 ==> r is None,
        gizmos@.len() > 0 ==> (r matches Some(b) && b.total_gizmos == spec_capacity(gizmos@)
            && b.total_vertices == spec_batch_vertices(gizmos@) && b.staged@ == spec_staged(
            Seq::new((spec_capacity(gizmos@) * record_size) as nat, |i: int| 0u8),
            gizmos@,
            record_size as int,
        )),
{
    if gizmos.len() == 0 {
        return None;
    }
    proof {
        lemma_capacity_bounds(gizmos@, record_size as int);
    }
    let mut capacity: u32 = 0;
    let mut vertices: u32 = 0;
    let mut i: usize = 0;
    assert(gizmos@.take(0) =~= Seq::<SphereGizmo>::empty());
    while i < gizmos.len()
        invariant
            i <= gizmos@.len(),
            batch_fits(gizmos@, record_size as int),
            capacity == spec_capacity(gizmos@.take(i as int)),
            vertices == spec_batch_vertices(gizmos@.take(i as int)),
        decreases gizmos@.len() - i,
    {
        let g = &gizmos[i];
        let here = g.slot + 1;
        if here > capacity {
            capacity = here;
        }
        let v = sphere_vertices(g.subdivisions);
        if v > vertices {
            vertices = v;
        }
        proof {
            let t = gizmos@.take(i + 1);
            assert(t.drop_last() =~= gizmos@.take(i as int));
            assert(t.last() == gizmos@[i as int]);
        }
        i = i + 1;
    }
    assert(gizmos@.take(gizmos@.len() as int) =~= gizmos@);
    assert(capacity * record_size <= usize::MAX);
    let size: usize = capacity as usize * record_size;
    let mut staged: Vec<u8> = Vec::with_capacity(size);
    let mut z: usize = 0;
    while z < size
        invariant
            z <= size,
            staged@ == Seq::new(z as nat, |j: int| 0u8),
        decreases size - z,
    {
        staged.push(0u8);
        z = z + 1;
        assert(staged@ =~= Seq::new(z as nat, |j: int| 0u8));
    }
    let ghost base = staged@;
    let mut k: usize = 0;
    assert(spec_staged(base, gizmos@.take(0), record_size as int) == base);
    while k < gizmos.len()
        invariant
            k <= gizmos@.len(),
            batch_fits(gizmos@, record_size as int),
            base.len() == size,
            size == spec_capacity(gizmos@) * record_size,
            forall|i: int| 0 <= i < gizmos@.len() ==> (#[trigger] gizmos@[i]).slot < spec_capacity(gizmos@),
            staged@ == spec_staged(base, gizmos@.take(k as int), record_size as int),
        decreases gizmos@.len() - k,
    {
        let g = &gizmos[k];
        assert(gizmos@[k as int].slot < spec_capacity(gizmos@));
        assert(g.slot * record_size + record_size <= size) by (nonlinear_arith)
            requires
                g.slot + 1 <= spec_capacity(gizmos@),
                size == spec_capacity(gizmos@) * record_size,
                record_size >= 0,
        ;
        let offset: usize = g.slot as usize * record_size;
        proof {
            lemma_staged_len(base, gizmos@.take(k as int), record_size as int);
        }
        let ghost before = staged@;
        let mut j: usize = 0;
        while j < record_size
            invariant
                j <= record_size,
                g.record@.len() == record_size,
                offset + record_size <= size,
                staged@.len() == size,
                staged@ == splice(before, offset as int, g.record@.subrange(0, j as int)),
                before.len() == size,
            decreases record_size - j,
        {
            staged.set(offset + j, g.record[j]);
            j = j + 1;
            assert(staged@ =~= splice(before, offset as int, g.record@.subrange(0, j as int)));
        }
        proof {
            let t = gizmos@.take(k + 1);
            assert(t.drop_last() =~= gizmos@.take(k as int));
            assert(t.last() == gizmos@[k as int]);
            assert(g.record@.subrange(0, record_size as int) =~= g.record@.subrange(0, j as int));
        }
        k = k + 1;
    }
    assert(gizmos@.take(gizmos@.len() as int) =~= gizmos@);
    Some(SphereGizmoBatch { total_gizmos: capacity, total_vertices: vertices, staged })
}

/// The barrier after copying a batch's `size` bytes into `data_buffer`:
/// the copy's writes before the vertex and fragment shaders read.
pub fn batch_barrier(data_buffer: u64, size: u64) -> (r: BufferBarrier)
    ensures
        r == (BufferBarrier {
            masks: BarrierMasks {
                src_stage: STAGE_TRANSFER,
                src_access: ACCESS_TRANSFER_WRITE,
                dst_stage: STAGE_VERTEX_SHADER | STAGE_FRAGMENT_SHADER,
                dst_access: ACCESS_SHADER_READ,
                src_family: QUEUE_FAMILY_IGNORED,
                dst_family: QUEUE_FAMILY_IGNORED,
            },
            buffer: data_buffer,
            size,
        }),
{
    BufferBarrier {
        masks: BarrierMasks {
            src_stage: STAGE_TRANSFER,
            src_access: ACCESS_TRANSFER_WRITE,
            dst_stage: STAGE_VERTEX_SHADER | STAGE_FRAGMENT_SHADER,
            dst_access: ACCESS_SHADER_READ,
            src_family: QUEUE_FAMILY_IGNORED,
            dst_family: QUEUE_FAMILY_IGNORED,
        },
        buffer: data_buffer,
        size,
    }
}

/// The host buffer of a transform gizmo: the FNV-1a hash of its entity id
/// (as eight little-endian bytes) modulo the number of buffers.
pub fn gizmo_buffer_index(entity: u64, buffer_count: u32) -> (r: u32)
    requires
        buffer_count > 0,
    ensures
        r == fnv1a(le_bytes_u64(entity)) % (buffer_count as u64),
{
    let mut h = FnvState::new();
    h.write_u64(entity);
    let hash = h.h;
    (hash % (buffer_count as u64)) as u32
}

} // verus!
