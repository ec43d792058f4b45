//! Image downloads of windowless presentation engines.
//!
//! Recording a download copies the rendered image into a host-visible
//! staging buffer and keeps that buffer under the download's task id.
//! Reading the download (once its task completed) takes the buffer out;
//! the downloads of the same engine with a smaller task id are taken out
//! with it and freed, so that skipped frames do not leak.
use crate::particles::{BarrierMasks, BufferBarrier, QUEUE_FAMILY_IGNORED, STAGE_HOST, STAGE_TRANSFER};
use crate::sun::ImageBarrier;
use vstd::prelude::*;

verus! {

/// A staging buffer waiting to be read.
#[derive(Clone, Copy, Debug, PartialEq, Eq, Structural)]
pub struct PendingDownload {
    pub staging_buffer: u64,
    pub allocation: u64,
    pub size: usize,
    pub presentation_engine: Option<u64>,
}

/// Pending downloads by task id.
#[verifier::external_body]
pub struct DownloadTable {
    inner: hashbrown::HashMap<u64, PendingDownload>,
}

/// Contents of a [`DownloadTable`].
pub uninterp spec fn download_table_contents(t: DownloadTable) -> Map<u64, PendingDownload>;

impl DownloadTable {
    /// `hashbrown::HashMap::new`: an empty map.
    #[verifier::external_body]
    fn new() -> (table: Self)
        ensures
            download_table_contents(table) =~= Map::empty(),
    {
        DownloadTable { inner: hashbrown::HashMap::new() }
    }

    /// `hashbrown::HashMap::get`, copied out.
    #[verifier::external_body]
    fn get(&self, key: u64) -> (r: Option<PendingDownload>)
        ensures
            r == (if download_table_contents(*self).contains_key(key) {
                Some(download_table_contents(*self)[key])
            } else {
                None
            }),
    {
        self.inner.get(&key).copied()
    }

    /// `hashbrown::HashMap::insert`: stores `value` under `key`, returning
    /// the value it replaces.
    #[verifier::external_body]
    fn insert(&mut self, key: u64, value: PendingDownload) -> (r: Option<PendingDownload>)
        ensures
            r == (if download_table_contents(*old(self)).contains_key(key) {
                Some(download_table_contents(*old(self))[key])
            } else {
                None
            }),
            download_table_contents(*final(self)) == download_table_contents(*old(self)).insert(key, value),
    {
        self.inner.insert(key, value)
    }

    /// `hashbrown::HashMap::remove`: takes out the value stored under `key`.
    #[verifier::external_body]
    fn remove(&mut self, key: u64) -> (r: Option<PendingDownload>)
        ensures
            r == (if download_table_contents(*old(self)).contains_key(key) {
                Some(download_table_contents(*old(self))[key])
            } else {
                None
            }),
            download_table_contents(*final(self)) == download_table_contents(*old(self)).remove(key),
    {
        self.inner.remove(&key)
    }

    /// `hashbrown::HashMap::keys`, collected: every key once, in the map's
    /// iteration order.
    #[verifier::external_body]
    fn keys(&self) -> (r: Vec<u64>)
        ensures
            r@.no_duplicates(),
            r@.to_set() == download_table_contents(*self).dom(),
    {
        self.inner.keys().copied().collect()
    }
}

/// Why a download could not be read.
#[derive(Clone, Copy, Debug, PartialEq, Eq, Structural)]
pub enum DownloadError {
    /// The download's task has not completed yet.
    NotCompleted,
    /// Nothing waits under that task id.
    UnknownTask(u64),
    /// The caller's buffer does not have the image's size: its length, then
    /// the image's bytes.
    SizeMismatch(usize, u64),
}

/// A download taken out to be read, and the older downloads of the same
/// engine taken out with it, to be freed.
pub struct TakenDownload {
    pub download: PendingDownload,
    pub stale: Vec<PendingDownload>,
}

/// Download `d` under task id `id` goes stale when task `task` of an
/// engine is read: same engine, smaller task id.
pub open spec fn goes_stale(id: u64, d: PendingDownload, task: u64, engine: Option<u64>) -> bool {
    engine is Some && id < task && d.presentation_engine == engine
}

/// `d` is a download of `m` that goes stale when task `task` of `engine`
/// is read.
pub open spec fn is_stale_of(m: Map<u64, PendingDownload>, task: u64, engine: Option<u64>, d: PendingDownload) -> bool {
    exists|id: u64| #[trigger] m.contains_key(id) && goes_stale(id, m[id], task, engine) && m[id] == d
}

/// `d` is one of the downloads of `m`.
pub open spec fn is_download_of(m: Map<u64, PendingDownload>, d: PendingDownload) -> bool {
    exists|id: u64| #[trigger] m.contains_key(id) && m[id] == d
}

/// `out` lists the downloads of `m` under the ids of `ids`, one entry per
/// id, in the order `order` gives them.
pub open spec fn listed_in_order(m: Map<u64, PendingDownload>, ids: Set<u64>, order: Seq<u64>, out: Seq<PendingDownload>) -> bool {
    &&& order.no_duplicates()
    &&& order.to_set() == ids
    &&& order.len() == out.len()
    &&& forall|i: int| 0 <= i < out.len() ==> #[trigger] out[i] == m[order[i]]
}

/// `out` lists the downloads of `m` under the ids of `ids`, one entry per
/// id, in some order.
pub open spec fn listed_once(m: Map<u64, PendingDownload>, ids: Set<u64>, out: Seq<PendingDownload>) -> bool {
    exists|order: Seq<u64>| #[trigger] listed_in_order(m, ids, order, out)
}

/// The downloads left after reading task `task` of engine `engine` from
/// `m`.
pub open spec fn after_read(m: Map<u64, PendingDownload>, task: u64, engine: Option<u64>) -> Map<u64, PendingDownload> {
    m.remove(task).restrict(m.dom().filter(|id: u64| !goes_stale(id, m[id], task, engine)))
}

/// The pending downloads.
pub struct PendingDownloads {
    table: DownloadTable,
}

impl PendingDownloads {
    /// The pending downloads by task id.
    pub closed spec fn pending(&self) -> Map<u64, PendingDownload> {
        download_table_contents(self.table)
    }

    /// No download pending.
    pub fn new() -> (r: Self)
        ensures
            r.pending() == Map::<u64, PendingDownload>::empty(),
    {
        PendingDownloads { table: DownloadTable::new() }
    }

    /// Keeps a recorded download under `task_id`, returning the one it
    /// replaces.
    pub fn record(&mut self, task_id: u64, download: PendingDownload) -> (r: Option<PendingDownload>)
        ensures
            final(self).pending() == old(self).pending().insert(task_id, download),
            r == (if old(self).pending().contains_key(task_id) {
                Some(old(self).pending()[task_id])
            } else {
                None
            }),
    {
        self.table.insert(task_id, download)
    }

    /// Takes out the download of `task_id` to be read, given whether its
    /// task completed: refused while it has not, or when no download is
    /// pending under that id. The downloads of the same presentation engine
    /// with a smaller task id are taken out with it, as stale; every other
    /// download stays.
    pub fn take_for_read(&mut self, task_id: u64, completed: bool) -> (r: Result<TakenDownload, DownloadError>)
        ensures
            !completed ==> r == Err::<TakenDownload, DownloadError>(DownloadError::NotCompleted)
                && final(self).pending() == old(self).pending(),
            completed && !old(self).pending().contains_key(task_id) ==> r == Err::<
                TakenDownload,
                DownloadError,
            >(DownloadError::UnknownTask(task_id)) && final(self).pending() == old(self).pending(),
            completed && old(self).pending().contains_key(task_id) ==> ({
                let d = old(self).pending()[task_id];
                &&& r matches Ok(t)
                &&& t.download == d
                &&& final(self).pending() == after_read(old(self).pending(), task_id, d.presentation_engine)
                &&& t.stale@.len() == old(self).pending().dom().filter(
                    |id: u64| goes_stale(id, old(self).pending()[id], task_id, d.presentation_engine),
                ).len()
                &&& forall|i: int|
                    0 <= i < t.stale@.len() ==> is_stale_of(
                        old(self).pending(),
                        task_id,
                        d.presentation_engine,
                        #[trigger] t.stale@[i],
                    )
                &&& listed_once(
                    old(self).pending(),
                    old(self).pending().dom().filter(
                        |id: u64| goes_stale(id, old(self).pending()[id], task_id, d.presentation_engine),
                    ),
                    t.stale@,
                )
            }),
    {
        if !completed {
            return Err(DownloadError::NotCompleted);
        }
        let ghost m0 = self.table_view();
        let download = match self.table.remove(task_id) {
            None => {
                return Err(DownloadError::UnknownTask(task_id));
            },
            Some(d) => d,
        };
        let engine = download.presentation_engine;
        let ghost stale_ids = m0.dom().filter(|id: u64| goes_stale(id, m0[id], task_id, engine));
        let mut stale: Vec<PendingDownload> = Vec::new();
        let ghost mut order: Seq<u64> = Seq::empty();
        if engine.is_some() {
            let keys = self.table.keys();
            let ghost m1 = self.table_view();
            let ghost mut removed: Set<u64> = Set::empty();
            proof {
                assert(order.to_set() =~= removed);
            }
            let mut i: usize = 0;
            while i < keys.len()
                invariant
                    i <= keys@.len(),
                    keys@.no_duplicates(),
                    keys@.to_set() == m1.dom(),
                    m1 == m0.remove(task_id),
                    stale_ids == m0.dom().filter(|id: u64| goes_stale(id, m0[id], task_id, engine)),
                    engine is Some,
                    removed == stale_ids.intersect(keys@.take(i as int).to_set()),
                    self.table_view() == m1.restrict(m1.dom().difference(removed)),
                    stale@.len() == removed.len(),
                    removed.finite(),
                    forall|j: int| 0 <= j < stale@.len() ==> is_stale_of(m0, task_id, engine, #[trigger] stale@[j]),
                    listed_in_order(m0, removed, order, stale@),
                decreases keys@.len() - i,
            {
                let k = keys[i];
                proof {
                    lemma_take_one_more(keys@, i as int);
                    assert(!keys@.take(i as int).contains(k)) by {
                        if keys@.take(i as int).contains(k) {
                            let j = choose|j: int| 0 <= j < i && keys@.take(i as int)[j] == k;
                            assert(keys@[j] == keys@[i as int]);
                        }
                    }
                    assert(!removed.contains(k));
                    assert(keys@.to_set().contains(k));
                }
                if k < task_id {
                    match self.table.get(k) {
                        Some(d) => {
                            if d.presentation_engine == engine {
                                proof {
                                    assert(m1.dom().difference(removed).contains(k));
                                    assert(d == m1[k]);
                                }
                                let _ = self.table.remove(k);
                                proof {
                                    assert(m1.contains_key(k));
                                    assert(m0.contains_key(k));
                                    assert(m0[k] == d);
                                    assert(goes_stale(k, m0[k], task_id, engine));
                                    assert(stale_ids.contains(k));
                                    assert(!order.contains(k)) by {
                                        if order.contains(k) {
                                            let j = choose|j: int| 0 <= j < order.len() && order[j] == k;
                                            assert(order.to_set().contains(k));
                                        }
                                    }
                                    order.lemma_push_to_set_commute(k);
                                    removed = removed.insert(k);
                                    order = order.push(k);
                                    assert(self.table_view() =~= m1.restrict(m1.dom().difference(removed)));
                                }
                                let ghost before = stale@;
                                stale.push(d);
                                proof {
                                    assert forall|j: int| 0 <= j < stale@.len() implies #[trigger] stale@[j] == m0[order[j]] by {
                                        if j < stale@.len() - 1 {
                                            assert(stale@[j] == before[j]);
                                        }
                                    }
                                }
                            } else {
                                proof {
                                    assert(m1.dom().difference(removed).contains(k));
                                    assert(d == m1[k]);
                                    assert(m0[k] == d);
                                    assert(!goes_stale(k, m0[k], task_id, engine));
                                    assert(!stale_ids.contains(k));
                                }
                            }
                        },
                        None => {},
                    }
                } else {
                    proof {
                        assert(!stale_ids.contains(k));
                    }
                }
                proof {
                    assert(removed =~= stale_ids.intersect(keys@.take(i + 1).to_set()));
                }
                i = i + 1;
            }
            proof {
                assert(keys@.take(keys@.len() as int) =~= keys@);
                assert(removed =~= stale_ids);
                assert(self.table_view() =~= after_read(m0, task_id, engine));
                assert(listed_in_order(m0, stale_ids, order, stale@));
            }
        } else {
            proof {
                assert(stale_ids =~= Set::<u64>::empty());
                assert(self.table_view() =~= after_read(m0, task_id, engine));
                assert(order.to_set() =~= Set::<u64>::empty());
                assert(listed_in_order(m0, stale_ids, order, stale@));
            }
        }
        Ok(TakenDownload { download, stale })
    }

    closed spec fn table_view(&self) -> Map<u64, PendingDownload> {
        download_table_contents(self.table)
    }

    /// Takes out every pending download, to be freed when the device is torn
    /// down.
    pub fn drain(&mut self) -> (r: Vec<PendingDownload>)
        ensures
            final(self).pending() == Map::<u64, PendingDownload>::empty(),
            r@.len() == old(self).pending().dom().len(),
            forall|i: int| 0 <= i < r@.len() ==> is_download_of(old(self).pending(), #[trigger] r@[i]),
            listed_once(old(self).pending(), old(self).pending().dom(), r@),
    {
        let ghost m0 = self.table_view();
        let keys = self.table.keys();
        let mut out: Vec<PendingDownload> = Vec::new();
        let mut i: usize = 0;
        while i < keys.len()
            invariant
                i <= keys@.len(),
                keys@.no_duplicates(),
                keys@.to_set() == m0.dom(),
                self.table_view() == m0.remove_keys(keys@.take(i as int).to_set()),
                out@.len() == i,
                forall|j: int| 0 <= j < i ==> out@[j] == m0[keys@[j]],
            decreases keys@.len() - i,
        {
            let k = keys[i];
            proof {
                lemma_take_one_more(keys@, i as int);
                assert(!keys@.take(i as int).contains(k)) by {
                    if keys@.take(i as int).contains(k) {
                        let j = choose|j: int| 0 <= j < i && keys@.take(i as int)[j] == k;
                        assert(keys@[j] == keys@[i as int]);
                    }
                }
                assert(keys@.to_set().contains(k));
            }
            match self.table.remove(k) {
                Some(d) => {
                    out.push(d);
                },
                None => {
                    proof {
                        assert(false);
                    }
                },
            }
            proof {
                assert(self.table_view() =~= m0.remove_keys(keys@.take(i + 1).to_set()));
            }
            i = i + 1;
        }
        proof {
            assert(keys@.take(keys@.len() as int) =~= keys@);
            assert(self.table_view() =~= Map::<u64, PendingDownload>::empty());
            keys@.unique_seq_to_set();
            assert forall|j: int| 0 <= j < out@.len() implies is_download_of(m0, #[trigger] out@[j]) by {
                assert(keys@.to_set().contains(keys@[j]));
                assert(m0.contains_key(keys@[j]));
            }
            assert(listed_in_order(m0, m0.dom(), keys@, out@));
        }
        out
    }
}

/// Reading a download frees every older download of the same engine and
/// keeps everything else: after reading task `task` of an engine, no
/// download of that engine with a smaller task id is left, the read one is
/// gone, and every other download is kept as it was.
pub proof fn lemma_read_frees_older_downloads(m: Map<u64, PendingDownload>, task: u64, engine: u64)
    ensures
        forall|id: u64| #[trigger]
            after_read(m, task, Some(engine)).contains_key(id) ==> id != task && !(id < task
                && m[id].presentation_engine == Some(engine)),
        forall|id: u64|
            m.contains_key(id) && id != task && !(id < task && m[id].presentation_engine == Some(engine))
                ==> #[trigger] after_read(m, task, Some(engine)).contains_key(id) && after_read(
                m,
                task,
                Some(engine),
            )[id] == m[id],
{
}

proof fn lemma_take_one_more(s: Seq<u64>, i: int)
    requires
        0 <= i < s.len(),
    ensures
        s.take(i + 1).to_set() == s.take(i).to_set().insert(s[i]),
{
    let a = s.take(i + 1);
    let b = s.take(i);
    assert forall|x: u64| a.to_set().contains(x) == b.to_set().insert(s[i]).contains(x) by {
        if a.contains(x) {
            let j = choose|j: int| 0 <= j < a.len() && a[j] == x;
            if j < i {
                assert(b[j] == x);
            }
        }
        if b.contains(x) {
            let j = choose|j: int| 0 <= j < b.len() && b[j] == x;
            assert(a[j] == x);
        }
        if x == s[i] {
            assert(a[i] == x);
        }
    }
    assert(a.to_set() =~= b.to_set().insert(s[i]));
}

/// `VK_PIPELINE_STAGE_2_COLOR_ATTACHMENT_OUTPUT_BIT`.
pub const STAGE_COLOR_ATTACHMENT_OUTPUT: u64 = 0x400;

/// `VK_ACCESS_2_COLOR_ATTACHMENT_WRITE_BIT`.
pub const ACCESS_COLOR_ATTACHMENT_WRITE: u64 = 0x100;

/// `VK_ACCESS_2_TRANSFER_READ_BIT`.
pub const ACCESS_TRANSFER_READ: u64 = 0x800;

/// `VK_ACCESS_2_TRANSFER_WRITE_BIT`.
pub const ACCESS_TRANSFER_WRITE: u64 = 0x1000;

/// `VK_ACCESS_2_HOST_READ_BIT`.
pub const ACCESS_HOST_READ: u64 = 0x2000;

/// `VK_IMAGE_LAYOUT_COLOR_ATTACHMENT_OPTIMAL`.
pub const LAYOUT_COLOR_ATTACHMENT_OPTIMAL: i32 = 2;

/// `VK_IMAGE_LAYOUT_TRANSFER_SRC_OPTIMAL`.
pub const LAYOUT_TRANSFER_SRC_OPTIMAL: i32 = 6;

/// The barriers around copying a rendered color image into a staging
/// buffer: before the copy, the image leaves the color attachment layout
/// for the copy to read it; after it, the image goes back for rendering
/// and the staging buffer is made visible to the host.
pub struct DownloadBarriers {
    pub before_copy: ImageBarrier,
    pub after_copy: ImageBarrier,
    pub to_host: BufferBarrier,
}

/// `VK_PIPELINE_STAGE_2_COPY_BIT`.
pub const STAGE_COPY: u64 = 0x1_0000_0000;

/// See [`DownloadBarriers`], for a staging buffer of `size` bytes, the copy
/// running at `copy_stage` (the transfer stage for an immediate download,
/// the copy stage for one recorded in a frame).
pub fn download_barriers(staging_buffer: u64, size: u64, copy_stage: u64) -> (r: DownloadBarriers)
    ensures
        r.before_copy == (ImageBarrier {
            src_stage: STAGE_COLOR_ATTACHMENT_OUTPUT,
            src_access: ACCESS_COLOR_ATTACHMENT_WRITE,
            dst_stage: copy_stage,
            dst_access: ACCESS_TRANSFER_READ,
            old_layout: LAYOUT_COLOR_ATTACHMENT_OPTIMAL,
            new_layout: LAYOUT_TRANSFER_SRC_OPTIMAL,
        }),
        r.after_copy == (ImageBarrier {
            src_stage: copy_stage,
            src_access: ACCESS_TRANSFER_READ,
            dst_stage: STAGE_COLOR_ATTACHMENT_OUTPUT,
            dst_access: ACCESS_COLOR_ATTACHMENT_WRITE,
            old_layout: LAYOUT_TRANSFER_SRC_OPTIMAL,
            new_layout: LAYOUT_COLOR_ATTACHMENT_OPTIMAL,
        }),
        r.to_host == (BufferBarrier {
            masks: BarrierMasks {
                src_stage: STAGE_TRANSFER,
                src_access: ACCESS_TRANSFER_WRITE,
                dst_stage: STAGE_HOST,
                dst_access: ACCESS_HOST_READ,
                src_family: QUEUE_FAMILY_IGNORED,
                dst_family: QUEUE_FAMILY_IGNORED,
            },
            buffer: staging_buffer,
            size,
        }),
{
    DownloadBarriers {
        before_copy: ImageBarrier {
            src_stage: STAGE_COLOR_ATTACHMENT_OUTPUT,
            src_access: ACCESS_COLOR_ATTACHMENT_WRITE,
            dst_stage: copy_stage,
            dst_access: ACCESS_TRANSFER_READ,
            old_layout: LAYOUT_COLOR_ATTACHMENT_OPTIMAL,
            new_layout: LAYOUT_TRANSFER_SRC_OPTIMAL,
        },
        after_copy: ImageBarrier {
            src_stage: copy_stage,
            src_access: ACCESS_TRANSFER_READ,
            dst_stage: STAGE_COLOR_ATTACHMENT_OUTPUT,
            dst_access: ACCESS_COLOR_ATTACHMENT_WRITE,
            old_layout: LAYOUT_TRANSFER_SRC_OPTIMAL,
            new_layout: LAYOUT_COLOR_ATTACHMENT_OPTIMAL,
        },
        to_host: BufferBarrier {
            masks: BarrierMasks {
                src_stage: STAGE_TRANSFER,
                src_access: ACCESS_TRANSFER_WRITE,
                dst_stage: STAGE_HOST,
                dst_access: ACCESS_HOST_READ,
                src_family: QUEUE_FAMILY_IGNORED,
                dst_family: QUEUE_FAMILY_IGNORED,
            },
            buffer: staging_buffer,
            size,
        },
    }
}

/// The timeline value an immediate download waits for: the target of its
/// task when it names one, the engine's last submission otherwise.
pub fn download_wait_value(task_target: Option<u64>, last_submitted: u64) -> (r: u64)
    ensures
        r == (match task_target {
            Some(t) => t,
            None => last_submitted,
        }),
{
    match task_target {
        Some(t) => t,
        None => last_submitted,
    }
}

/// Checks that a caller's buffer has exactly the bytes of a `width` by
/// `height` image, and returns that size.
pub fn check_download_buffer(buffer_len: usize, width: u32, height: u32) -> (r: Result<u64, DownloadError>)
    requires
        width * height * 4 <= u32::MAX,
    ensures
        r == (if buffer_len == width * height * 4 {
            Ok::<u64, DownloadError>((width * height * 4) as u64)
        } else {
            Err::<u64, DownloadError>(DownloadError::SizeMismatch(buffer_len, (width * height * 4) as u64))
        }),
{
    let size = download_size(width, height);
    if buffer_len as u64 == size {
        Ok(size)
    } else {
        Err(DownloadError::SizeMismatch(buffer_len, size))
    }
}

/// Bytes of a download copied into a caller's buffer: the smaller of the
/// two sizes.
pub fn copy_len(buffer_len: usize, download_size: usize) -> (r: usize)
    ensures
        r == (if buffer_len < download_size {
            buffer_len
        } else {
            download_size
        }),
{
    if buffer_len < download_size {
        buffer_len
    } else {
        download_size
    }
}

/// Bytes of the staging buffer of a download: four per pixel.
pub fn download_size(width: u32, height: u32) -> (r: u64)
    requires
        width * height * 4 <= u32::MAX,
    ensures
        r == width * height * 4,
{
    assert(width * height <= u32::MAX) by (nonlinear_arith)
        requires
            width * height * 4 <= u32::MAX,
    ;
    (width * height * 4) as u64
}

} // verus!
