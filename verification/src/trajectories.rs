//! Trajectory uploads: where each trajectory's curve segments live in the
//! device-local segment buffer, and what one frame's batch copies.
//!
//! Every trajectory holds a range of the segment buffer, with room for half
//! as many segments again as it had when the range was taken. A range is
//! kept while the trajectory is drawn; after more than ten frames without
//! it, the range is freed. A trajectory whose control points changed (its
//! hash differs) is uploaded again into its range; one that outgrew its
//! range gets a new, larger one.
use crate::resources::{lemma_index_of, lemma_view_push, lemma_view_remove, lemma_view_update, table_view};
use vstd::prelude::*;

verus! {

/// Frames a trajectory may go undrawn before its range is freed.
pub const STALE_AFTER_TICKS: u64 = 10;

/// Bytes of one curve segment (four control points of four floats).
pub const SEGMENT_BYTES: u64 = 64;

/// Bytes of one trajectory record.
pub const TRAJECTORY_BYTES: u64 = 48;

/// Bytes of one segment map entry.
pub const SEGMENT_MAP_BYTES: u64 = 12;

/// Control points per segment.
pub const POINTS_PER_SEGMENT: usize = 4;

/// The range of the segment buffer a trajectory holds.
#[derive(Clone, Copy, Debug, PartialEq, Eq, Structural)]
pub struct CurveAllocation {
    pub segments_offset: u64,
    pub segment_capacity: u64,
    pub last_seen_tick: u64,
    pub last_hash: u64,
}

/// A range of segments: its first segment and its length.
#[derive(Clone, Copy, Debug, PartialEq, Eq, Structural)]
pub struct SegmentRange {
    pub offset: u64,
    pub count: u64,
}

/// What to do for one trajectory of the frame.
#[derive(Clone, Copy, Debug, PartialEq, Eq, Structural)]
pub enum CurveDecision {
    /// No whole segment: not drawn.
    Skip,
    /// Its segments are in place at this offset.
    Reuse { offset: u64 },
    /// Its control points changed: upload them again at this offset.
    Upload { offset: u64 },
    /// A new trajectory: take a range of `capacity` segments, then upload.
    Allocate { capacity: u64 },
    /// It outgrew its range: free `freed`, take a range of `capacity`
    /// segments, then upload.
    Reallocate { freed: SegmentRange, capacity: u64 },
}

/// Segments to reserve for `count`: half as many again.
pub open spec fn grown_capacity(count: u64) -> int {
    count + count / 2
}

/// The tick after `t`, wrapping.
pub open spec fn next_tick(t: u64) -> u64 {
    if t == u64::MAX {
        0
    } else {
        (t + 1) as u64
    }
}

/// More than ten ticks passed since the curve was last drawn.
pub open spec fn is_stale(a: CurveAllocation, tick: u64) -> bool {
    tick >= a.last_seen_tick && tick - a.last_seen_tick > STALE_AFTER_TICKS
}

/// The curves that are not stale at `tick`.
pub open spec fn kept(m: Map<u64, CurveAllocation>, tick: u64) -> Map<u64, CurveAllocation> {
    Map::new(|k: u64| m.contains_key(k) && !is_stale(m[k], tick), |k: u64| m[k])
}

/// The ids of the curves of `m` that are stale at `tick`.
pub open spec fn stale_ids(m: Map<u64, CurveAllocation>, tick: u64) -> Set<u64> {
    m.dom().filter(|k: u64| is_stale(m[k], tick))
}

/// `out` holds the ranges of the curves of `m` under `ids`, one per id, in
/// the order `order` gives them.
pub open spec fn ranges_in_order(m: Map<u64, CurveAllocation>, ids: Set<u64>, order: Seq<u64>, out: Seq<SegmentRange>) -> bool {
    &&& order.no_duplicates()
    &&& order.to_set() == ids
    &&& order.len() == out.len()
    &&& forall|i: int| 0 <= i < out.len() ==> #[trigger] out[i] == range_of(m[order[i]])
}

/// `out` holds the ranges of the curves of `m` under `ids`, one per id.
pub open spec fn ranges_once(m: Map<u64, CurveAllocation>, ids: Set<u64>, out: Seq<SegmentRange>) -> bool {
    exists|order: Seq<u64>| #[trigger] ranges_in_order(m, ids, order, out)
}

/// The range a curve holds.
pub open spec fn range_of(a: CurveAllocation) -> SegmentRange {
    SegmentRange { offset: a.segments_offset, count: a.segment_capacity }
}

/// `x` is the range of a curve of `m` that is stale at `tick`.
pub open spec fn is_stale_range(m: Map<u64, CurveAllocation>, tick: u64, x: SegmentRange) -> bool {
    exists|k: u64| #[trigger] m.contains_key(k) && is_stale(m[k], tick) && x == range_of(m[k])
}

/// The decision for a trajectory with `count` segments and control point
/// hash `hash`, on curves `m`.
pub open spec fn spec_decision(m: Map<u64, CurveAllocation>, entity: u64, count: u64, hash: u64) -> CurveDecision {
    if count == 0 {
        CurveDecision::Skip
    } else if !m.contains_key(entity) {
        CurveDecision::Allocate { capacity: grown_capacity(count) as u64 }
    } else if m[entity].segment_capacity < count {
        CurveDecision::Reallocate { freed: range_of(m[entity]), capacity: grown_capacity(count) as u64 }
    } else if m[entity].last_hash != hash {
        CurveDecision::Upload { offset: m[entity].segments_offset }
    } else {
        CurveDecision::Reuse { offset: m[entity].segments_offset }
    }
}

/// The curves after the decision: a known trajectory is marked seen at
/// `tick`, and takes the new hash when it is uploaded in place.
pub open spec fn after_decision(m: Map<u64, CurveAllocation>, entity: u64, count: u64, hash: u64, tick: u64) -> Map<
    u64,
    CurveAllocation,
> {
    if count == 0 || !m.contains_key(entity) {
        m
    } else if m[entity].segment_capacity < count || m[entity].last_hash == hash {
        m.insert(entity, CurveAllocation { last_seen_tick: tick, ..m[entity] })
    } else {
        m.insert(entity, CurveAllocation { last_seen_tick: tick, last_hash: hash, ..m[entity] })
    }
}

/// The ranges of the trajectories' segments, by entity id.
pub struct TrajectoryCurves {
    tick: u64,
    keys: Vec<u64>,
    curves: Vec<CurveAllocation>,
}

impl TrajectoryCurves {
    /// The curves by entity id.
    pub closed spec fn curves(&self) -> Map<u64, CurveAllocation> {
        table_view(self.keys@, self.curves@)
    }

    /// The current frame's tick.
    pub closed spec fn current_tick(&self) -> u64 {
        self.tick
    }

    /// Keys and curves line up, no key twice.
    pub closed spec fn wf(&self) -> bool {
        self.keys@.len() == self.curves@.len() && self.keys@.no_duplicates()
    }

    /// No curve, tick 0.
    pub fn new() -> (r: Self)
        ensures
            r.wf(),
            r.curves() == Map::<u64, CurveAllocation>::empty(),
            r.current_tick() == 0,
    {
        let r = TrajectoryCurves { tick: 0, keys: Vec::new(), curves: Vec::new() };
        assert(r.curves() =~= Map::<u64, CurveAllocation>::empty());
        r
    }

    /// The current frame's tick.
    pub fn tick(&self) -> (r: u64)
        ensures
            r == self.current_tick(),
    {
        self.tick
    }

    fn find(&self, entity: u64) -> (r: Option<usize>)
        requires
            self.wf(),
        ensures
            r is None ==> !self.curves().contains_key(entity),
            r matches Some(i) ==> i < self.keys@.len() && self.keys@[i as int] == entity
                && self.curves()[entity] == self.curves@[i as int],
    {
        let mut i: usize = 0;
        while i < self.keys.len()
            invariant
                self.wf(),
                0 <= i <= self.keys@.len(),
                forall|j: int| 0 <= j < i ==> self.keys@[j] != entity,
            decreases self.keys@.len() - i,
        {
            if self.keys[i] == entity {
                proof {
                    lemma_index_of(self.keys@, i as int);
                }
                return Some(i);
            }
            i = i + 1;
        }
        None
    }

    /// Starts a frame: the tick advances (wrapping), and the curves not
    /// drawn for more than ten ticks are dropped; their ranges are returned
    /// for the caller to free.
    pub fn begin_frame(&mut self) -> (r: Vec<SegmentRange>)
        requires
            old(self).wf(),
        ensures
            final(self).wf(),
            final(self).current_tick() == next_tick(old(self).current_tick()),
            final(self).curves() == kept(old(self).curves(), final(self).current_tick()),
            forall|j: int|
                0 <= j < r@.len() ==> is_stale_range(old(self).curves(), final(self).current_tick(), #[trigger] r@[j]),
            forall|k: u64|
                #[trigger] old(self).curves().contains_key(k) && is_stale(
                    old(self).curves()[k],
                    final(self).current_tick(),
                ) ==> r@.contains(range_of(old(self).curves()[k])),
            ranges_once(old(self).curves(), stale_ids(old(self).curves(), final(self).current_tick()), r@),
    {
        self.tick = if self.tick == u64::MAX { 0 } else { self.tick + 1 };
        let t = self.tick;
        let ghost orig = old(self).curves();
        let mut freed: Vec<SegmentRange> = Vec::new();
        let ghost mut order: Seq<u64> = Seq::empty();
        proof {
            assert(order.to_set() =~= orig.dom().difference(self.curves().dom()));
        }
        let mut i: usize = 0;
        while i < self.keys.len()
            invariant
                self.wf(),
                self.tick == t,
                0 <= i <= self.keys@.len(),
                forall|j: int| 0 <= j < i ==> !is_stale(#[trigger] self.curves@[j], t),
                kept(self.curves(), t) == kept(orig, t),
                forall|k: u64| #[trigger] self.curves().contains_key(k) ==> orig.contains_key(k) && self.curves()[k] == orig[k],
                forall|j: int| 0 <= j < freed@.len() ==> is_stale_range(orig, t, #[trigger] freed@[j]),
                forall|k: u64|
                    #[trigger] orig.contains_key(k) && is_stale(orig[k], t) ==> self.curves().contains_key(k)
                        || freed@.contains(range_of(orig[k])),
                ranges_in_order(orig, orig.dom().difference(self.curves().dom()), order, freed@),
            decreases self.keys@.len() - i,
        {
            let a = self.curves[i];
            let stale = t >= a.last_seen_tick && t - a.last_seen_tick > STALE_AFTER_TICKS;
            if stale {
                let ghost before = self.curves();
                let ghost before_seq = self.curves@;
                let ghost k = self.keys@[i as int];
                proof {
                    lemma_index_of(self.keys@, i as int);
                    lemma_view_remove(self.keys@, self.curves@, i as int);
                    assert(before.contains_key(k));
                    assert(before[k] == a);
                    assert(orig.contains_key(k) && orig[k] == a);
                    assert(kept(before.remove(k), t) =~= kept(before, t));
                }
                self.keys.remove(i);
                self.curves.remove(i);
                let ghost fr_before = freed@;
                freed.push(SegmentRange { offset: a.segments_offset, count: a.segment_capacity });
                proof {
                    assert(!order.contains(k)) by {
                        if order.contains(k) {
                            assert(order.to_set().contains(k));
                        }
                    }
                    order.lemma_push_to_set_commute(k);
                    order = order.push(k);
                    assert(self.curves() == before.remove(k));
                    assert(order.to_set() =~= orig.dom().difference(self.curves().dom()));
                    assert forall|j: int| 0 <= j < freed@.len() implies #[trigger] freed@[j] == range_of(orig[order[j]]) by {
                        if j < fr_before.len() {
                            assert(freed@[j] == fr_before[j]);
                        }
                    }
                    assert forall|j: int| 0 <= j < i implies !is_stale(#[trigger] self.curves@[j], t) by {
                        assert(self.curves@[j] == before_seq[j]);
                    }
                    assert(freed@[fr_before.len() as int] == range_of(orig[k]));
                    assert forall|kk: u64|
                        #[trigger] orig.contains_key(kk) && is_stale(orig[kk], t) implies self.curves().contains_key(kk)
                            || freed@.contains(range_of(orig[kk])) by {
                        if before.contains_key(kk) && kk != k {
                            assert(self.curves().contains_key(kk));
                        } else if kk == k {
                            assert(freed@[fr_before.len() as int] == range_of(orig[kk]));
                        } else {
                            let j = choose|j: int| 0 <= j < fr_before.len() && fr_before[j] == range_of(orig[kk]);
                            assert(freed@[j] == range_of(orig[kk]));
                        }
                    }
                    assert forall|j: int| 0 <= j < freed@.len() implies is_stale_range(orig, t, #[trigger] freed@[j]) by {
                        if j < fr_before.len() {
                            assert(freed@[j] == fr_before[j]);
                        } else {
                            assert(orig.contains_key(k));
                        }
                    }
                }
            } else {
                i = i + 1;
            }
        }
        proof {
            assert(kept(self.curves(), t) =~= self.curves()) by {
                assert forall|k: u64| self.curves().contains_key(k) implies !is_stale(self.curves()[k], t) by {
                    let j = self.keys@.index_of(k);
                    lemma_index_of(self.keys@, j);
                }
            }
            assert(orig.dom().difference(self.curves().dom()) =~= stale_ids(orig, t));
            assert(ranges_in_order(orig, stale_ids(orig, t), order, freed@));
        }
        freed
    }

    /// Decides what the frame does for trajectory `entity` with
    /// `segment_count` segments whose control points hash to `hash`; a known
    /// trajectory is marked as drawn in this frame, and takes the new hash
    /// when it is uploaded in place.
    pub fn touch(&mut self, entity: u64, segment_count: u64, hash: u64) -> (r: CurveDecision)
        requires
            old(self).wf(),
            segment_count + segment_count / 2 <= u64::MAX,
        ensures
            final(self).wf(),
            final(self).current_tick() == old(self).current_tick(),
            r == spec_decision(old(self).curves(), entity, segment_count, hash),
            final(self).curves() == after_decision(
                old(self).curves(),
                entity,
                segment_count,
                hash,
                old(self).current_tick(),
            ),
    {
        if segment_count == 0 {
            return CurveDecision::Skip;
        }
        let capacity = segment_count + segment_count / 2;
        match self.find(entity) {
            None => CurveDecision::Allocate { capacity },
            Some(i) => {
                let a = self.curves[i];
                let mut seen = a;
                seen.last_seen_tick = self.tick;
                let decision = if a.segment_capacity < segment_count {
                    CurveDecision::Reallocate {
                        freed: SegmentRange { offset: a.segments_offset, count: a.segment_capacity },
                        capacity,
                    }
                } else if a.last_hash != hash {
                    seen.last_hash = hash;
                    CurveDecision::Upload { offset: a.segments_offset }
                } else {
                    CurveDecision::Reuse { offset: a.segments_offset }
                };
                proof {
                    lemma_view_update(self.keys@, self.curves@, i as int, seen);
                }
                self.curves.set(i, seen);
                decision
            },
        }
    }

    /// Records the range taken for `entity` after an `Allocate` or
    /// `Reallocate` decision, with its capacity and control point hash.
    pub fn commit_allocation(&mut self, entity: u64, offset: u64, capacity: u64, hash: u64)
        requires
            old(self).wf(),
        ensures
            final(self).wf(),
            final(self).current_tick() == old(self).current_tick(),
            final(self).curves() == old(self).curves().insert(
                entity,
                CurveAllocation {
                    segments_offset: offset,
                    segment_capacity: capacity,
                    last_seen_tick: old(self).current_tick(),
                    last_hash: hash,
                },
            ),
    {
        let a = CurveAllocation {
            segments_offset: offset,
            segment_capacity: capacity,
            last_seen_tick: self.tick,
            last_hash: hash,
        };
        match self.find(entity) {
            Some(i) => {
                proof {
                    lemma_view_update(self.keys@, self.curves@, i as int, a);
                }
                self.curves.set(i, a);
            },
            None => {
                proof {
                    lemma_view_push(self.keys@, self.curves@, entity, a);
                }
                self.keys.push(entity);
                self.curves.push(a);
            },
        }
    }
}

/// A trajectory drawn in a frame keeps its range through the next ten
/// frames: the eviction at the start of each of them leaves it in place.
pub proof fn lemma_drawn_curve_survives(m: Map<u64, CurveAllocation>, entity: u64, tick: u64, later: u64)
    requires
        m.contains_key(entity),
        m[entity].last_seen_tick == tick,
        tick <= later <= tick + STALE_AFTER_TICKS,
    ensures
        kept(m, later).contains_key(entity),
        kept(m, later)[entity] == m[entity],
{
}

/// Where a new range starts: the allocator's offset, or segment 0 when it
/// had no room.
pub fn allocated_offset(allocated: Option<u64>) -> (r: u64)
    ensures
        r == (match allocated {
            Some(o) => o,
            None => 0,
        }),
{
    match allocated {
        Some(o) => o,
        None => 0,
    }
}

/// Segments of a trajectory with `points` control points: whole groups of
/// four.
pub fn segment_count(points: usize) -> (r: usize)
    ensures
        r == points / 4,
{
    points / POINTS_PER_SEGMENT
}

/// One copy from the staging buffer.
#[derive(Clone, Copy, Debug, PartialEq, Eq, Structural)]
pub struct StagedCopy {
    pub src_offset: u64,
    pub dst_offset: u64,
    pub size: u64,
}

/// Which segment of which trajectory a segment slot draws, subdivided how
/// many times.
#[derive(Clone, Copy, Debug, PartialEq, Eq, Structural)]
pub struct SegmentMap {
    pub trajectory_id: u32,
    pub local_segment_id: u32,
    pub subdivisions: u32,
}

/// One frame's trajectory batch as it is being assembled.
pub struct TrajectoryBatch {
    pub upload_segments: u64,
    pub segment_copies: Vec<StagedCopy>,
    pub segment_ptrs: Vec<u64>,
    pub maps: Vec<SegmentMap>,
    pub max_subdivisions: u32,
    pub total_segments: u32,
}

/// The map entries of trajectory `index`'s `count` segments.
pub open spec fn maps_of(index: u32, count: u32, subdivisions: u32) -> Seq<SegmentMap> {
    Seq::new(count as nat, |j: int| SegmentMap { trajectory_id: index, local_segment_id: j as u32, subdivisions })
}

impl TrajectoryBatch {
    /// An empty batch.
    pub fn new() -> (r: Self)
        ensures
            r.upload_segments == 0,
            r.segment_copies@.len() == 0,
            r.segment_ptrs@.len() == 0,
            r.maps@.len() == 0,
            r.max_subdivisions == 0,
            r.total_segments == 0,
    {
        TrajectoryBatch {
            upload_segments: 0,
            segment_copies: Vec::new(),
            segment_ptrs: Vec::new(),
            maps: Vec::new(),
            max_subdivisions: 0,
            total_segments: 0,
        }
    }

    /// Adds trajectory `index`, whose `count` segments live at segment
    /// `offset` of the buffer at `segments_base`: a copy of its segments
    /// from the staging area when it is uploaded, the device address of its
    /// segments, one map entry per segment, and the totals.
    pub fn add(
        &mut self,
        index: u32,
        count: u32,
        offset: u64,
        upload: bool,
        subdivisions: u32,
        segments_base: u64,
    )
        requires
            old(self).upload_segments + count <= u64::MAX / SEGMENT_BYTES,
            offset <= u64::MAX / SEGMENT_BYTES,
            (count as u64) * SEGMENT_BYTES <= u64::MAX,
            segments_base + offset * SEGMENT_BYTES <= u64::MAX,
            old(self).total_segments + count <= u32::MAX,
        ensures
            final(self).upload_segments == old(self).upload_segments + (if upload { count as u64 } else { 0 }),
            final(self).segment_copies@ == (if upload {
                old(self).segment_copies@.push(
                    StagedCopy {
                        src_offset: (old(self).upload_segments * SEGMENT_BYTES) as u64,
                        dst_offset: (offset * SEGMENT_BYTES) as u64,
                        size: (count * SEGMENT_BYTES) as u64,
                    },
                )
            } else {
                old(self).segment_copies@
            }),
            final(self).segment_ptrs@ == old(self).segment_ptrs@.push((segments_base + offset * SEGMENT_BYTES) as u64),
            final(self).maps@ == old(self).maps@ + maps_of(index, count, subdivisions),
            final(self).max_subdivisions == (if subdivisions > old(self).max_subdivisions {
                subdivisions
            } else {
                old(self).max_subdivisions
            }),
            final(self).total_segments == old(self).total_segments + count,
    {
        let ghost start = self.maps@;
        let mut j: u32 = 0;
        while j < count
            invariant
                0 <= j <= count,
                self.maps@ == start + maps_of(index, j, subdivisions),
                self.upload_segments == old(self).upload_segments,
                self.segment_copies@ == old(self).segment_copies@,
                self.segment_ptrs@ == old(self).segment_ptrs@,
                self.max_subdivisions == old(self).max_subdivisions,
                self.total_segments == old(self).total_segments,
            decreases count - j,
        {
            self.maps.push(SegmentMap { trajectory_id: index, local_segment_id: j, subdivisions });
            j = j + 1;
            assert(self.maps@ =~= start + maps_of(index, j, subdivisions));
        }
        if upload {
            self.segment_copies.push(
                StagedCopy {
                    src_offset: self.upload_segments * SEGMENT_BYTES,
                    dst_offset: offset * SEGMENT_BYTES,
                    size: count as u64 * SEGMENT_BYTES,
                },
            );
            self.upload_segments = self.upload_segments + count as u64;
        }
        self.segment_ptrs.push(segments_base + offset * SEGMENT_BYTES);
        if subdivisions > self.max_subdivisions {
            self.max_subdivisions = subdivisions;
        }
        self.total_segments = self.total_segments + count;
    }

    /// Bytes staged: the uploaded segments, then the trajectory records,
    /// then the segment maps.
    pub fn staging_sizes(&self) -> (r: (u64, u64, u64))
        requires
            self.upload_segments * SEGMENT_BYTES <= u64::MAX,
            self.segment_ptrs@.len() * TRAJECTORY_BYTES <= u64::MAX,
            self.maps@.len() * SEGMENT_MAP_BYTES <= u64::MAX,
        ensures
            r.0 == self.upload_segments * SEGMENT_BYTES,
            r.1 == self.segment_ptrs@.len() * TRAJECTORY_BYTES,
            r.2 == self.maps@.len() * SEGMENT_MAP_BYTES,
    {
        (
            self.upload_segments * SEGMENT_BYTES,
            self.segment_ptrs.len() as u64 * TRAJECTORY_BYTES,
            self.maps.len() as u64 * SEGMENT_MAP_BYTES,
        )
    }

    /// The copies out of a staging area at `staging_offset`: every uploaded
    /// range, shifted by the offset.
    pub fn staged_segment_copies(&self, staging_offset: u64) -> (r: Vec<StagedCopy>)
        requires
            forall|i: int|
                0 <= i < self.segment_copies@.len() ==> staging_offset + #[trigger] self.segment_copies@[i].src_offset
                    <= u64::MAX,
        ensures
            r@.len() == self.segment_copies@.len(),
            forall|i: int|
                0 <= i < r@.len() ==> #[trigger] r@[i] == (StagedCopy {
                    src_offset: (staging_offset + self.segment_copies@[i].src_offset) as u64,
                    ..self.segment_copies@[i]
                }),
    {
        let mut r: Vec<StagedCopy> = Vec::new();
        let mut i: usize = 0;
        while i < self.segment_copies.len()
            invariant
                0 <= i <= self.segment_copies@.len(),
                r@.len() == i,
                forall|j: int|
                    0 <= j < self.segment_copies@.len() ==> staging_offset
                        + #[trigger] self.segment_copies@[j].src_offset <= u64::MAX,
                forall|j: int|
                    0 <= j < i ==> #[trigger] r@[j] == (StagedCopy {
                        src_offset: (staging_offset + self.segment_copies@[j].src_offset) as u64,
                        ..self.segment_copies@[j]
                    }),
            decreases self.segment_copies@.len() - i,
        {
            let c = self.segment_copies[i];
            r.push(StagedCopy { src_offset: staging_offset + c.src_offset, ..c });
            i = i + 1;
        }
        r
    }

    /// Vertices drawn per segment instance: two per subdivision point.
    pub fn total_vertices(&self) -> (r: u32)
        requires
            (self.max_subdivisions + 1) * 2 <= u32::MAX,
        ensures
            r == (self.max_subdivisions + 1) * 2,
    {
        (self.max_subdivisions + 1) * 2
    }
}

/// One trajectory of a frame: its entity, its number of control points,
/// the hash of its control points and model matrix, and its subdivisions
/// per segment.
#[derive(Clone, Copy, Debug, PartialEq, Eq, Structural)]
pub struct TrajectoryInput {
    pub entity: u64,
    pub points: usize,
    pub hash: u64,
    pub subdivisions: u32,
}

/// Segments of trajectory `t`.
pub open spec fn segments_of(t: TrajectoryInput) -> nat {
    (t.points / 4) as nat
}

/// Segments of all the trajectories.
pub open spec fn sum_segments(ts: Seq<TrajectoryInput>) -> nat
    decreases ts.len(),
{
    if ts.len() == 0 {
        0
    } else {
        sum_segments(ts.drop_last()) + segments_of(ts.last())
    }
}

/// Trajectories with at least one segment.
pub open spec fn kept_count(ts: Seq<TrajectoryInput>) -> nat
    decreases ts.len(),
{
    if ts.len() == 0 {
        0
    } else {
        kept_count(ts.drop_last()) + if segments_of(ts.last()) > 0 { 1nat } else { 0nat }
    }
}

/// The largest subdivisions among the trajectories with a segment, 0 when
/// there is none.
pub open spec fn max_subdivisions_of(ts: Seq<TrajectoryInput>) -> u32
    decreases ts.len(),
{
    if ts.len() == 0 {
        0
    } else {
        let m = max_subdivisions_of(ts.drop_last());
        if segments_of(ts.last()) > 0 && ts.last().subdivisions > m {
            ts.last().subdivisions
        } else {
            m
        }
    }
}

/// The segment map entries of all the trajectories, in order, each
/// trajectory named by its position among them.
pub open spec fn batch_maps(ts: Seq<TrajectoryInput>) -> Seq<SegmentMap>
    decreases ts.len(),
{
    if ts.len() == 0 {
        Seq::empty()
    } else {
        batch_maps(ts.drop_last()) + maps_of(
            (ts.len() - 1) as u32,
            segments_of(ts.last()) as u32,
            ts.last().subdivisions,
        )
    }
}

proof fn lemma_sum_segments_grows(ts: Seq<TrajectoryInput>, i: int, j: int)
    requires
        0 <= i <= j <= ts.len(),
    ensures
        sum_segments(ts.take(i)) <= sum_segments(ts.take(j)),
        kept_count(ts.take(i)) <= kept_count(ts.take(j)),
    decreases j - i,
{
    if i < j {
        lemma_sum_segments_grows(ts, i, j - 1);
        assert(ts.take(j).drop_last() =~= ts.take(j - 1));
    }
}

/// The placement of a trajectory's segments for the frame: where they
/// are, and whether they must be uploaded. A new or outgrown trajectory
/// takes a range from `alloc` (offset 0 when it has no room), after the
/// outgrown range was given to `free`.
fn place_trajectory<A: Fn(u64) -> Option<u64>, F: Fn(SegmentRange)>(
    curves: &mut TrajectoryCurves,
    t: TrajectoryInput,
    count: u64,
    alloc: &A,
    free: &F,
    max_offset: u64,
) -> (r: (u64, bool))
    requires
        old(curves).wf(),
        count == segments_of(t),
        0 < count <= u32::MAX,
        forall|c: u64| call_requires(*alloc, (c,)),
        forall|x: SegmentRange| call_requires(*free, (x,)),
        forall|c: u64, o: u64| call_ensures(*alloc, (c,), Some(o)) ==> o <= max_offset,
        forall|k: u64| #[trigger] old(curves).curves().contains_key(k) ==> old(curves).curves()[k].segments_offset <= max_offset,
    ensures
        final(curves).wf(),
        final(curves).current_tick() == old(curves).current_tick(),
        r.0 <= max_offset,
        forall|k: u64| #[trigger] final(curves).curves().contains_key(k) ==> final(curves).curves()[k].segments_offset <= max_offset,
{
    let d = curves.touch(t.entity, count, t.hash);
    match d {
        CurveDecision::Skip => (0, false),
        CurveDecision::Reuse { offset } => (offset, false),
        CurveDecision::Upload { offset } => (offset, true),
        CurveDecision::Allocate { capacity } => {
            let got = alloc(capacity);
            let offset = allocated_offset(got);
            curves.commit_allocation(t.entity, offset, capacity, t.hash);
            (offset, true)
        },
        CurveDecision::Reallocate { freed, capacity } => {
            free(freed);
            let got = alloc(capacity);
            let offset = allocated_offset(got);
            curves.commit_allocation(t.entity, offset, capacity, t.hash);
            (offset, true)
        },
    }
}

/// The frame's trajectory batch: for each trajectory with at least one
/// whole segment, in order, its segments are placed (see
/// [`place_trajectory`]) and added to the batch under its position among
/// `trajectories`; those with fewer than four control points are skipped.
/// `None` when no trajectory has a segment.
pub fn plan_trajectory_batch<A: Fn(u64) -> Option<u64>, F: Fn(SegmentRange)>(
    curves: &mut TrajectoryCurves,
    trajectories: &Vec<TrajectoryInput>,
    alloc: &A,
    free: &F,
    segments_base: u64,
    max_offset: u64,
) -> (r: Option<TrajectoryBatch>)
    requires
        old(curves).wf(),
        trajectories@.len() <= u32::MAX,
        sum_segments(trajectories@) <= u32::MAX,
        max_offset <= u64::MAX / SEGMENT_BYTES,
        segments_base + max_offset * SEGMENT_BYTES <= u64::MAX,
        forall|c: u64| call_requires(*alloc, (c,)),
        forall|x: SegmentRange| call_requires(*free, (x,)),
        forall|c: u64, o: u64| call_ensures(*alloc, (c,), Some(o)) ==> o <= max_offset,
        forall|k: u64| #[trigger] old(curves).curves().contains_key(k) ==> old(curves).curves()[k].segments_offset <= max_offset,
    ensures
        final(curves).wf(),
        final(curves).current_tick() == old(curves).current_tick(),
        forall|k: u64| #[trigger] final(curves).curves().contains_key(k) ==> final(curves).curves()[k].segments_offset <= max_offset,
        r is None <==> sum_segments(trajectories@) == 0,
        r matches Some(b) ==> {
            &&& b.total_segments == sum_segments(trajectories@)
            &&& b.segment_ptrs@.len() == kept_count(trajectories@)
            &&& b.maps@ == batch_maps(trajectories@)
            &&& b.max_subdivisions == max_subdivisions_of(trajectories@)
            &&& b.upload_segments <= sum_segments(trajectories@)
            &&& b.segment_copies@.len() <= kept_count(trajectories@)
        },
{
    let mut batch = TrajectoryBatch::new();
    let ghost ts = trajectories@;
    let mut i: usize = 0;
    proof {
        assert(ts.take(0) =~= Seq::<TrajectoryInput>::empty());
        assert(batch.maps@ =~= batch_maps(ts.take(0)));
    }
    while i < trajectories.len()
        invariant
            ts == trajectories@,
            i <= ts.len(),
            ts.len() <= u32::MAX,
            sum_segments(ts) <= u32::MAX,
            max_offset <= u64::MAX / SEGMENT_BYTES,
            segments_base + max_offset * SEGMENT_BYTES <= u64::MAX,
            forall|c: u64| call_requires(*alloc, (c,)),
            forall|x: SegmentRange| call_requires(*free, (x,)),
            forall|c: u64, o: u64| call_ensures(*alloc, (c,), Some(o)) ==> o <= max_offset,
            curves.wf(),
            curves.current_tick() == old(curves).current_tick(),
            forall|k: u64| #[trigger] curves.curves().contains_key(k) ==> curves.curves()[k].segments_offset <= max_offset,
            batch.total_segments == sum_segments(ts.take(i as int)),
            batch.segment_ptrs@.len() == kept_count(ts.take(i as int)),
            batch.maps@ == batch_maps(ts.take(i as int)),
            batch.max_subdivisions == max_subdivisions_of(ts.take(i as int)),
            batch.upload_segments <= batch.total_segments,
            batch.segment_copies@.len() <= batch.segment_ptrs@.len(),
        decreases ts.len() - i,
    {
        let t = trajectories[i];
        let count = segment_count(t.points);
        proof {
            let next = ts.take(i + 1);
            assert(next.drop_last() =~= ts.take(i as int));
            assert(next.last() == t);
            lemma_sum_segments_grows(ts, i + 1, ts.len() as int);
            assert(ts.take(ts.len() as int) =~= ts);
        }
        if count > 0 {
            let (offset, upload) = place_trajectory(curves, t, count as u64, alloc, free, max_offset);
            batch.add(i as u32, count as u32, offset, upload, t.subdivisions, segments_base);
        } else {
            proof {
                assert(maps_of(i as u32, 0u32, t.subdivisions) =~= Seq::<SegmentMap>::empty());
            }
        }
        i = i + 1;
    }
    proof {
        assert(ts.take(ts.len() as int) =~= ts);
    }
    if batch.total_segments == 0 {
        None
    } else {
        Some(batch)
    }
}

} // verus!
