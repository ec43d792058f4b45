//! Snapshots of the particle buffers.
//!
//! A snapshot copies the back state's particle buffer, free list and page
//! tables into one host-visible staging buffer, laid out one after the
//! other: the particle buffer, then the free list, then the page tables in
//! the order in which the back state lists them. Restoring writes a
//! snapshot into a staging buffer of the same layout and copies it to both
//! states.
use std::collections::BTreeMap;
use vstd::prelude::*;

verus! {

/// A snapshot as host memory: the particle buffer, the free list and the
/// page table of each particle system.
pub struct ParticleSnapshot {
    pub global_buffer: Vec<u8>,
    pub free_list: Vec<u8>,
    pub page_tables: BTreeMap<u64, Vec<u8>>,
}

/// The contents of a snapshot.
pub struct SnapshotView {
    pub global: Seq<u8>,
    pub free_list: Seq<u8>,
    pub tables: Map<u64, Seq<u8>>,
}

impl View for ParticleSnapshot {
    type V = SnapshotView;

    open spec fn view(&self) -> SnapshotView {
        SnapshotView {
            global: self.global_buffer@,
            free_list: self.free_list@,
            tables: self.page_tables@.map_values(|v: Vec<u8>| v@),
        }
    }
}

/// A snapshot with nothing in it.
pub open spec fn empty_view() -> SnapshotView {
    SnapshotView { global: Seq::empty(), free_list: Seq::empty(), tables: Map::empty() }
}

/// Bytes of the staging buffer for `tables` page tables.
pub open spec fn staged_size(buffer_size: int, free_list_size: int, table_size: int, tables: int) -> int {
    buffer_size + free_list_size + tables * table_size
}

/// Where the `k`-th page table starts in the staging buffer.
pub open spec fn table_offset(buffer_size: int, free_list_size: int, table_size: int, k: int) -> int {
    buffer_size + free_list_size + k * table_size
}

/// The snapshot that a staging buffer holds, given the order of the page
/// tables in it.
pub open spec fn unpacked(
    bytes: Seq<u8>,
    buffer_size: int,
    free_list_size: int,
    table_size: int,
    ids: Seq<u64>,
) -> SnapshotView {
    SnapshotView {
        global: bytes.subrange(0, buffer_size),
        free_list: bytes.subrange(buffer_size, buffer_size + free_list_size),
        tables: Map::new(
            |id: u64| ids.contains(id),
            |id: u64|
                bytes.subrange(
                    table_offset(buffer_size, free_list_size, table_size, ids.index_of(id)),
                    table_offset(buffer_size, free_list_size, table_size, ids.index_of(id))
                        + table_size,
                ),
        ),
    }
}

/// The bytes written for page table `id`: its first `table_size` bytes
/// where the snapshot has it, zeros where it does not.
pub open spec fn table_or_zeros(tables: Map<u64, Seq<u8>>, id: u64, table_size: int) -> Seq<u8> {
    if tables.contains_key(id) {
        tables[id].subrange(0, table_size)
    } else {
        Seq::new(table_size as nat, |i: int| 0u8)
    }
}

/// The page table part of a staging buffer, for the page tables `ids` in
/// this order.
pub open spec fn tables_bytes(tables: Map<u64, Seq<u8>>, table_size: int, ids: Seq<u64>) -> Seq<u8>
    decreases ids.len(),
{
    if ids.len() == 0 {
        Seq::empty()
    } else {
        tables_bytes(tables, table_size, ids.drop_last()) + table_or_zeros(
            tables,
            ids.last(),
            table_size,
        )
    }
}

/// The staging buffer that restoring `s` fills, for the page tables `ids`
/// in this order.
pub open spec fn packed(
    s: SnapshotView,
    buffer_size: int,
    free_list_size: int,
    table_size: int,
    ids: Seq<u64>,
) -> Seq<u8> {
    s.global.subrange(0, buffer_size) + s.free_list.subrange(0, free_list_size) + tables_bytes(
        s.tables,
        table_size,
        ids,
    )
}

/// Every page table of `tables` has at least `table_size` bytes.
pub open spec fn tables_hold(tables: Map<u64, Seq<u8>>, table_size: int) -> bool {
    forall|id: u64| #[trigger] tables.contains_key(id) ==> tables[id].len() >= table_size
}

proof fn lemma_tables_bytes(tables: Map<u64, Seq<u8>>, t: int, ids: Seq<u64>)
    requires
        t >= 0,
        tables_hold(tables, t),
    ensures
        tables_bytes(tables, t, ids).len() == ids.len() * t,
        forall|k: int|
            0 <= k < ids.len() ==> #[trigger] tables_bytes(tables, t, ids).subrange(k * t, k * t + t)
                == table_or_zeros(tables, ids[k], t),
    decreases ids.len(),
{
    if ids.len() > 0 {
        let p = ids.drop_last();
        lemma_tables_bytes(tables, t, p);
        let n = p.len() as int;
        let head = tables_bytes(tables, t, p);
        let last = table_or_zeros(tables, ids.last(), t);
        let all = tables_bytes(tables, t, ids);
        assert(all == head + last);
        assert(n * t + t == ids.len() * t) by (nonlinear_arith)
            requires
                n == ids.len() - 1,
        ;
        assert(last.len() == t);
        assert forall|k: int| 0 <= k < ids.len() implies #[trigger] all.subrange(k * t, k * t + t)
            == table_or_zeros(tables, ids[k], t) by {
            if k < n {
                assert(0 <= k * t && k * t + t <= n * t) by (nonlinear_arith)
                    requires
                        0 <= k < n,
                        t >= 0,
                ;
                assert(all.subrange(k * t, k * t + t) =~= head.subrange(k * t, k * t + t));
                assert(ids[k] == p[k]);
            } else {
                assert(k * t == n * t);
                assert(all.subrange(k * t, k * t + t) =~= last);
            }
        }
    } else {
        assert(ids.len() * t == 0) by (nonlinear_arith)
            requires
                ids.len() == 0,
        ;
    }
}

proof fn lemma_table_read_back(
    g: Seq<u8>,
    fl: Seq<u8>,
    tb: Seq<u8>,
    t: int,
    k: int,
    n: int,
    table: Seq<u8>,
)
    requires
        t >= 0,
        0 <= k < n,
        tb.len() == n * t,
        tb.subrange(k * t, k * t + t) == table,
    ensures
        (g + fl + tb).subrange(
            table_offset(g.len() as int, fl.len() as int, t, k),
            table_offset(g.len() as int, fl.len() as int, t, k) + t,
        ) == table,
{
    assert(0 <= k * t && k * t + t <= n * t) by (nonlinear_arith)
        requires
            0 <= k < n,
            t >= 0,
    ;
    let start = g.len() + fl.len() + k * t;
    assert((g + fl + tb).subrange(start, start + t) =~= tb.subrange(k * t, k * t + t));
}

/// Restoring a snapshot and taking one again gives the snapshot back:
/// where the snapshot holds the page tables `ids` and nothing else, each
/// part at its size, the staging buffer that restoring fills reads back as
/// the same snapshot.
pub proof fn lemma_restore_then_snapshot(
    s: SnapshotView,
    buffer_size: int,
    free_list_size: int,
    table_size: int,
    ids: Seq<u64>,
)
    requires
        buffer_size >= 0,
        free_list_size >= 0,
        table_size >= 0,
        s.global.len() == buffer_size,
        s.free_list.len() == free_list_size,
        ids.no_duplicates(),
        s.tables.dom() == ids.to_set(),
        forall|id: u64| #[trigger] s.tables.contains_key(id) ==> s.tables[id].len() == table_size,
    ensures
        unpacked(packed(s, buffer_size, free_list_size, table_size, ids), buffer_size, free_list_size, table_size, ids) == s,
{
    let b = buffer_size;
    let f = free_list_size;
    let t = table_size;
    lemma_tables_bytes(s.tables, t, ids);
    let tb = tables_bytes(s.tables, t, ids);
    assert(s.global.subrange(0, b) =~= s.global);
    assert(s.free_list.subrange(0, f) =~= s.free_list);
    let bytes = s.global + s.free_list + tb;
    assert(packed(s, b, f, t, ids) == bytes);
    let u = unpacked(bytes, b, f, t, ids);
    assert(u.global =~= s.global);
    assert(u.free_list =~= s.free_list);
    assert forall|id: u64| #[trigger] u.tables.contains_key(id) == s.tables.contains_key(id) by {
        assert(ids.to_set().contains(id) == ids.contains(id));
    }
    assert forall|id: u64| #[trigger] u.tables.contains_key(id) implies u.tables[id] == s.tables[id] by {
        let k = ids.index_of(id);
        assert(ids.to_set().contains(id));
        assert(s.tables[id].subrange(0, t) =~= s.tables[id]);
        assert(tb.subrange(k * t, k * t + t) == table_or_zeros(s.tables, ids[k], t));
        lemma_table_read_back(s.global, s.free_list, tb, t, k, ids.len() as int, s.tables[id]);
    }
    assert(u.tables =~= s.tables);
}

proof fn lemma_unpacked_tables_bytes(bytes: Seq<u8>, b: int, f: int, t: int, ids: Seq<u64>, m: int)
    requires
        b >= 0,
        f >= 0,
        t >= 0,
        ids.no_duplicates(),
        0 <= m <= ids.len(),
        bytes.len() == staged_size(b, f, t, ids.len() as int),
    ensures
        tables_bytes(unpacked(bytes, b, f, t, ids).tables, t, ids.take(m)) == bytes.subrange(
            b + f,
            b + f + m * t,
        ),
    decreases m,
{
    let u = unpacked(bytes, b, f, t, ids).tables;
    if m == 0 {
        assert(0 * t == 0) by (nonlinear_arith);
        assert(bytes.subrange(b + f, b + f) =~= Seq::<u8>::empty());
    } else {
        lemma_unpacked_tables_bytes(bytes, b, f, t, ids, m - 1);
        let tk = ids.take(m);
        assert(tk.drop_last() =~= ids.take(m - 1));
        let id = ids[m - 1];
        assert(tk.last() == id);
        assert(ids.contains(id));
        assert(ids.index_of(id) == m - 1) by {
            let j = ids.index_of(id);
            assert(ids[j] == id);
        }
        assert((m - 1) * t + t == m * t && m * t <= ids.len() * t) by (nonlinear_arith)
            requires
                1 <= m <= ids.len(),
                t >= 0,
        ;
        assert(u[id].subrange(0, t) =~= u[id]);
        assert(bytes.subrange(b + f, b + f + m * t) =~= bytes.subrange(b + f, b + f + (m - 1) * t)
            + bytes.subrange(b + f + (m - 1) * t, b + f + m * t));
    }
}

/// Taking a snapshot and restoring it as it is writes back the bytes it
/// was taken from: the staging buffer that restoring fills is the one the
/// snapshot was read out of.
pub proof fn lemma_snapshot_then_restore(
    bytes: Seq<u8>,
    buffer_size: int,
    free_list_size: int,
    table_size: int,
    ids: Seq<u64>,
)
    requires
        buffer_size >= 0,
        free_list_size >= 0,
        table_size >= 0,
        ids.no_duplicates(),
        bytes.len() == staged_size(buffer_size, free_list_size, table_size, ids.len() as int),
    ensures
        packed(unpacked(bytes, buffer_size, free_list_size, table_size, ids), buffer_size, free_list_size, table_size, ids) == bytes,
{
    let b = buffer_size;
    let f = free_list_size;
    let t = table_size;
    let u = unpacked(bytes, b, f, t, ids);
    lemma_unpacked_tables_bytes(bytes, b, f, t, ids, ids.len() as int);
    assert(ids.take(ids.len() as int) =~= ids);
    assert(u.global.subrange(0, b) =~= bytes.subrange(0, b));
    assert(u.free_list.subrange(0, f) =~= bytes.subrange(b, b + f));
    assert(bytes =~= bytes.subrange(0, b) + bytes.subrange(b, b + f) + bytes.subrange(b + f, bytes.len() as int));
}

/// A range of the staging buffer.
#[derive(Clone, Copy, Debug, PartialEq, Eq, Structural)]
pub struct StagingRegion {
    pub offset: u64,
    pub size: u64,
}

/// What restoring a snapshot does to the particle systems first, so that
/// the back state holds the page tables of the snapshot.
pub struct TableReconciliation {
    /// Systems that exist now and are not in the snapshot, in the order of
    /// the back state.
    pub discard: Vec<u64>,
    /// Systems of the snapshot that do not exist now, by increasing id.
    pub create: Vec<u64>,
}

/// Page table ids are integers, which `BTreeMap` orders as integers.
proof fn lemma_ids_obey_order()
    ensures
        vstd::laws_cmp::obeys_cmp::<u64>(),
        vstd::std_specs::btree::key_obeys_cmp_spec::<u64>(),
{
}

/// Keys that `BTreeMap` hands out in increasing order increase as integers.
proof fn lemma_increasing_ids(keys: Seq<u64>, i: int, j: int)
    requires
        vstd::std_specs::btree::increasing_seq(keys),
        0 <= i < j < keys.len(),
    ensures
        keys[i] < keys[j],
{
    lemma_ids_obey_order();
    assert(vstd::std_specs::cmp::OrdSpec::cmp_spec(&keys[i], &keys[j]) is Less);
}

/// Bytes of the staging buffer for `tables` page tables.
pub fn staging_size(buffer_size: u64, free_list_size: u64, table_size: u64, tables: u64) -> (r: u64)
    requires
        staged_size(buffer_size as int, free_list_size as int, table_size as int, tables as int)
            <= u64::MAX,
    ensures
        r == staged_size(buffer_size as int, free_list_size as int, table_size as int, tables as int),
{
    assert(0 <= tables * table_size) by (nonlinear_arith);
    buffer_size + free_list_size + tables * table_size
}

/// The regions of the staging buffer, in order: the particle buffer, the
/// free list, then `tables` page tables.
pub fn staging_regions(buffer_size: u64, free_list_size: u64, table_size: u64, tables: usize) -> (r: Vec<
    StagingRegion,
>)
    requires
        staged_size(buffer_size as int, free_list_size as int, table_size as int, tables as int)
            <= u64::MAX,
    ensures
        r@.len() == tables + 2,
        r@[0] == (StagingRegion { offset: 0, size: buffer_size }),
        r@[1] == (StagingRegion { offset: buffer_size, size: free_list_size }),
        forall|k: int|
            0 <= k < tables ==> #[trigger] r@[k + 2] == (StagingRegion {
                offset: table_offset(buffer_size as int, free_list_size as int, table_size as int, k)
                    as u64,
                size: table_size,
            }),
{
    let mut r: Vec<StagingRegion> = Vec::new();
    r.push(StagingRegion { offset: 0, size: buffer_size });
    r.push(StagingRegion { offset: buffer_size, size: free_list_size });
    let mut offset: u64 = buffer_size + free_list_size;
    let mut k: usize = 0;
    while k < tables
        invariant
            k <= tables,
            staged_size(buffer_size as int, free_list_size as int, table_size as int, tables as int)
                <= u64::MAX,
            offset == table_offset(buffer_size as int, free_list_size as int, table_size as int, k as int),
            r@.len() == k + 2,
            r@[0] == (StagingRegion { offset: 0, size: buffer_size }),
            r@[1] == (StagingRegion { offset: buffer_size, size: free_list_size }),
            forall|j: int|
                0 <= j < k ==> #[trigger] r@[j + 2] == (StagingRegion {
                    offset: table_offset(buffer_size as int, free_list_size as int, table_size as int, j)
                        as u64,
                    size: table_size,
                }),
        decreases tables - k,
    {
        r.push(StagingRegion { offset, size: table_size });
        assert((k + 1) * table_size <= tables * table_size && (k + 1) * table_size == k * table_size
            + table_size) by (nonlinear_arith)
            requires
                k < tables,
        ;
        offset = offset + table_size;
        k = k + 1;
    }
    r
}

/// The first `len` bytes of `src` from `start` on.
fn copy_range(src: &Vec<u8>, start: usize, len: usize) -> (r: Vec<u8>)
    requires
        start + len <= src@.len(),
    ensures
        r@ == src@.subrange(start as int, start + len),
{
    let mut r: Vec<u8> = Vec::with_capacity(len);
    let mut i: usize = 0;
    while i < len
        invariant
            start + len <= src.len(),
            i <= len,
            r@ == src@.subrange(start as int, start + i),
        decreases len - i,
    {
        r.push(src[start + i]);
        i = i + 1;
        assert(r@ =~= src@.subrange(start as int, start + i));
    }
    r
}

/// Appends the first `len` bytes of `src` to `out`.
fn append_prefix(out: &mut Vec<u8>, src: &Vec<u8>, len: usize)
    requires
        len <= src@.len(),
    ensures
        final(out)@ == old(out)@ + src@.subrange(0, len as int),
{
    let ghost before = out@;
    let mut i: usize = 0;
    while i < len
        invariant
            len <= src@.len(),
            i <= len,
            out@ == before + src@.subrange(0, i as int),
        decreases len - i,
    {
        out.push(src[i]);
        i = i + 1;
        assert(out@ =~= before + src@.subrange(0, i as int));
    }
}

/// Appends `len` zero bytes to `out`.
fn append_zeros(out: &mut Vec<u8>, len: usize)
    ensures
        final(out)@ == old(out)@ + Seq::new(len as nat, |i: int| 0u8),
{
    let ghost before = out@;
    let mut i: usize = 0;
    while i < len
        invariant
            i <= len,
            out@ == before + Seq::new(i as nat, |j: int| 0u8),
        decreases len - i,
    {
        out.push(0u8);
        i = i + 1;
        assert(out@ =~= before + Seq::new(i as nat, |j: int| 0u8));
    }
}

/// Reads a snapshot out of the staging buffer it was copied to. A staging
/// buffer of no bytes gives the empty snapshot.
pub fn read_snapshot(
    staging: &Vec<u8>,
    buffer_size: usize,
    free_list_size: usize,
    table_size: usize,
    ids: &Vec<u64>,
) -> (r: ParticleSnapshot)
    requires
        ids@.no_duplicates(),
        staging@.len() == staged_size(buffer_size as int, free_list_size as int, table_size as int, ids@.len() as int),
    ensures
        r@ == (if staging@.len() == 0 {
            empty_view()
        } else {
            unpacked(staging@, buffer_size as int, free_list_size as int, table_size as int, ids@)
        }),
{
    proof {
        lemma_ids_obey_order();
    }
    if staging.len() == 0 {
        let r = ParticleSnapshot { global_buffer: Vec::new(), free_list: Vec::new(), page_tables: BTreeMap::new() };
        assert(r@.tables =~= Map::<u64, Seq<u8>>::empty());
        assert(r@.global =~= Seq::<u8>::empty());
        assert(r@.free_list =~= Seq::<u8>::empty());
        return r;
    }
    let global_buffer = copy_range(staging, 0, buffer_size);
    let free_list = copy_range(staging, buffer_size, free_list_size);
    let ghost target = unpacked(staging@, buffer_size as int, free_list_size as int, table_size as int, ids@).tables;
    let mut page_tables: BTreeMap<u64, Vec<u8>> = BTreeMap::new();
    let mut offset: usize = buffer_size + free_list_size;
    let mut k: usize = 0;
    while k < ids.len()
        invariant
            ids@.no_duplicates(),
            staging.len() == staged_size(buffer_size as int, free_list_size as int, table_size as int, ids@.len() as int),
            k <= ids@.len(),
            offset == table_offset(buffer_size as int, free_list_size as int, table_size as int, k as int),
            target == unpacked(staging@, buffer_size as int, free_list_size as int, table_size as int, ids@).tables,
            forall|id: u64|
                #[trigger] page_tables@.contains_key(id) <==> exists|j: int| 0 <= j < k && ids@[j] == id,
            forall|id: u64| #[trigger] page_tables@.contains_key(id) ==> page_tables@[id]@ == target[id],
        decreases ids@.len() - k,
    {
        assert((k + 1) * table_size <= ids@.len() * table_size && (k + 1) * table_size == k * table_size
            + table_size) by (nonlinear_arith)
            requires
                k < ids@.len(),
        ;
        let bytes = copy_range(staging, offset, table_size);
        let id = ids[k];
        proof {
            assert(ids@.contains(id));
            let j = ids@.index_of(id);
            assert(ids@[j] == id);
            assert(j == k);
        }
        page_tables.insert(id, bytes);
        offset = offset + table_size;
        k = k + 1;
    }
    proof {
        assert forall|x: u64| #[trigger] page_tables@.contains_key(x) == target.contains_key(x) by {
            if target.contains_key(x) {
                let j = choose|j: int| 0 <= j < ids@.len() && ids@[j] == x;
            }
        }
        assert(page_tables@.map_values(|v: Vec<u8>| v@) =~= target);
    }
    ParticleSnapshot { global_buffer, free_list, page_tables }
}

/// Whether a snapshot has anything to restore: one without a particle
/// buffer is skipped.
pub fn restore_needed(snap: &ParticleSnapshot) -> (r: bool)
    ensures
        r == (snap@.global.len() > 0),
{
    snap.global_buffer.len() > 0
}

/// The staging buffer that restoring `snap` fills: its particle buffer and
/// free list at their sizes, then the page tables `ids` of the back state in
/// their order, zeros for one the snapshot lacks.
pub fn fill_restore_staging(
    snap: &ParticleSnapshot,
    buffer_size: usize,
    free_list_size: usize,
    table_size: usize,
    ids: &Vec<u64>,
) -> (r: Vec<u8>)
    requires
        snap@.global.len() >= buffer_size,
        snap@.free_list.len() >= free_list_size,
        tables_hold(snap@.tables, table_size as int),
    ensures
        r@ == packed(snap@, buffer_size as int, free_list_size as int, table_size as int, ids@),
{
    proof {
        lemma_ids_obey_order();
    }
    let mut out: Vec<u8> = Vec::new();
    append_prefix(&mut out, &snap.global_buffer, buffer_size);
    append_prefix(&mut out, &snap.free_list, free_list_size);
    let ghost head = out@;
    assert(ids@.take(0) =~= Seq::<u64>::empty());
    let mut k: usize = 0;
    while k < ids.len()
        invariant
            k <= ids@.len(),
            tables_hold(snap@.tables, table_size as int),
            head == snap@.global.subrange(0, buffer_size as int) + snap@.free_list.subrange(
                0,
                free_list_size as int,
            ),
            out@ == head + tables_bytes(snap@.tables, table_size as int, ids@.take(k as int)),
        decreases ids@.len() - k,
    {
        let id = ids[k];
        let ghost before = out@;
        match snap.page_tables.get(&id) {
            Some(v) => {
                proof {
                    assert(snap@.tables.contains_key(id));
                    assert(snap@.tables[id] == v@);
                }
                append_prefix(&mut out, v, table_size);
            },
            None => {
                append_zeros(&mut out, table_size);
            },
        }
        proof {
            let t = ids@.take(k + 1 as int);
            assert(t.drop_last() =~= ids@.take(k as int));
            assert(t.last() == id);
            assert(out@ =~= head + tables_bytes(snap@.tables, table_size as int, t));
        }
        k = k + 1;
    }
    assert(ids@.take(ids@.len() as int) =~= ids@);
    out
}

/// Whether `v` holds `x`.
fn holds(v: &Vec<u64>, x: u64) -> (r: bool)
    ensures
        r == v@.contains(x),
{
    let mut i: usize = 0;
    while i < v.len()
        invariant
            i <= v@.len(),
            forall|j: int| 0 <= j < i ==> v@[j] != x,
        decreases v@.len() - i,
    {
        if v[i] == x {
            return true;
        }
        i = i + 1;
    }
    false
}

/// What to do before restoring `snap` into a back state that holds the
/// page tables `active`: discard the systems the snapshot does not have,
/// create those it has and the back state lacks.
pub fn reconcile_tables(active: &Vec<u64>, snap: &ParticleSnapshot) -> (r: TableReconciliation)
    ensures
        r.discard@ == active@.filter(|id: u64| !snap@.tables.contains_key(id)),
        r.create@.no_duplicates(),
        r.create@.to_set() == snap@.tables.dom().filter(|id: u64| !active@.contains(id)),
        forall|i: int, j: int| 0 <= i < j < r.create@.len() ==> r.create@[i] < r.create@[j],
{
    proof {
        lemma_ids_obey_order();
    }
    let ghost present = snap@.tables;
    let mut discard: Vec<u64> = Vec::new();
    let mut i: usize = 0;
    assert(active@.take(0) =~= Seq::<u64>::empty());
    while i < active.len()
        invariant
            i <= active@.len(),
            present == snap@.tables,
            discard@ == active@.take(i as int).filter(|id: u64| !present.contains_key(id)),
        decreases active@.len() - i,
    {
        let id = active[i];
        proof {
            let t = active@.take(i + 1 as int);
            assert(t.drop_last() =~= active@.take(i as int));
            assert(t.last() == id);
        }
        let missing = !snap.page_tables.contains_key(&id);
        proof {
            assert(missing == !present.contains_key(id));
            let t = active@.take(i + 1 as int);
            let p = |x: u64| !present.contains_key(x);
            reveal(Seq::filter);
            assert(t.filter(p) == if p(t.last()) {
                t.drop_last().filter(p).push(t.last())
            } else {
                t.drop_last().filter(p)
            });
        }
        if missing {
            discard.push(id);
        }
        i = i + 1;
    }
    assert(active@.take(active@.len() as int) =~= active@);
    let ghost m0 = snap.page_tables@;
    let ghost s0 = vstd::std_specs::iter::IteratorSpec::remaining(
        &vstd::std_specs::btree::spec_btree_map_iter(&snap.page_tables),
    );
    let ghost mut seen: int = 0;
    let mut create: Vec<u64> = Vec::new();
    for kv in it: snap.page_tables.iter()
        invariant
            snap.page_tables@ == m0,
            it.seq() == s0,
            seen == it.index(),
            vstd::std_specs::btree::increasing_seq(s0.map_values(|kv: (&u64, &Vec<u8>)| *kv.0)),
            create@.no_duplicates(),
            forall|k: u64|
                create@.contains(k) <==> exists|i: int|
                    0 <= i < seen && *(#[trigger] s0[i]).0 == k && !active@.contains(k),
            forall|j: int|
                0 <= j < create@.len() ==> exists|i: int|
                    0 <= i < seen && *(#[trigger] s0[i]).0 == #[trigger] create@[j],
            forall|a: int, b: int| 0 <= a < b < create@.len() ==> create@[a] < create@[b],
    {
        let (id, _table) = kv;
        let ghost idx = seen;
        let ghost before = create@;
        assert(kv == s0[idx]);
        let ghost keys = s0.map_values(|kv: (&u64, &Vec<u8>)| *kv.0);
        if !holds(active, *id) {
            proof {
                assert forall|j: int| 0 <= j < create@.len() implies create@[j] < *id by {
                    let i = choose|i: int| 0 <= i < idx && *(#[trigger] s0[i]).0 == #[trigger] create@[j];
                    assert(keys[i] == create@[j]);
                    assert(keys[idx] == *id);
                    lemma_increasing_ids(keys, i, idx);
                }
            }
            create.push(*id);
            proof {
                assert(*s0[idx].0 == create@[create@.len() - 1]);
            }
        }
        proof {
            assert(keys[idx] == *id);
            assert forall|k: u64|
                create@.contains(k) <==> exists|i: int|
                    0 <= i < idx + 1 && *(#[trigger] s0[i]).0 == k && !active@.contains(k) by {
                if exists|i: int| 0 <= i < idx + 1 && *(#[trigger] s0[i]).0 == k && !active@.contains(k) {
                    let i = choose|i: int| 0 <= i < idx + 1 && *(#[trigger] s0[i]).0 == k && !active@.contains(k);
                    if i == idx {
                        assert(create@[create@.len() - 1] == k);
                    } else {
                        assert(before.contains(k));
                        let j = choose|j: int| 0 <= j < before.len() && before[j] == k;
                        assert(create@[j] == k);
                    }
                }
                if create@.contains(k) {
                    if !before.contains(k) {
                        let j = choose|j: int| 0 <= j < create@.len() && create@[j] == k;
                        if j < before.len() {
                            assert(before[j] == k);
                        }
                        assert(k == *id);
                        assert(*s0[idx].0 == k);
                    }
                }
            }
            seen = seen + 1;
        }
    }
    proof {
        assert(seen == s0.len());
        assert forall|k: u64| create@.contains(k) <==> (m0.contains_key(k) && !active@.contains(k)) by {
            if m0.contains_key(k) {
                assert(s0.contains((&k, &m0[k])));
                let i = choose|i: int| 0 <= i < s0.len() && s0[i] == (&k, &m0[k]);
                assert(*s0[i].0 == k);
            }
            if create@.contains(k) {
                let i = choose|i: int| 0 <= i < seen && *(#[trigger] s0[i]).0 == k && !active@.contains(k);
                assert(m0.contains_key(*s0[i].0));
            }
        }
        assert(create@.to_set() =~= snap@.tables.dom().filter(|id: u64| !active@.contains(id)));
    }
    TableReconciliation { discard, create }
}

} // verus!
