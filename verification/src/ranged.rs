//! Decisions of the ranged (parallel chunk) download path: the chunk grid,
//! which chunks are still missing, whether a sidecar manifest allows a
//! resume, and how the probe response routes the download.

use vstd::prelude::*;

use crate::http_error::HttpFailureKind;
use crate::manifest::{records, PartManifest};

verus! {

/// One chunk: the closed byte range `[start, end]`.
#[derive(Debug, Clone, Copy, PartialEq, Eq)]
pub struct ChunkRange {
    pub start: u64,
    pub end: u64,
}

impl ChunkRange {
    /// Number of bytes in the chunk (end included).
    pub fn len(self) -> (r: u64)
        requires
            self.start <= self.end,
            self.end - self.start < u64::MAX,
        ensures
            r == self.end - self.start + 1,
    {
        self.end - self.start + 1
    }
}

/// Chunk `i` of the grid of `n` chunks over `content_length` bytes: every
/// chunk has `content_length / n` bytes except the last, which takes the
/// remainder up to `content_length - 1`.
pub open spec fn grid_chunk(content_length: nat, n: nat, i: nat) -> (int, int) {
    let size = content_length / n;
    (
        (i * size) as int,
        if i == n - 1 {
            content_length - 1
        } else {
            (i + 1) * size - 1
        },
    )
}

/// Grid inputs on which the grid is defined: at least one chunk, at least
/// one byte per chunk, and a non-empty file.
pub open spec fn grid_inputs_ok(content_length: u64, n: usize) -> bool {
    &&& n >= 1
    &&& content_length >= 1
    &&& content_length >= n
}

/// Splits `[0, content_length)` into `ranged_threads` chunks; the last one
/// absorbs the remainder. The grid depends only on its two inputs, so a
/// resumed download sees the same chunk boundaries as the first run.
pub fn chunk_grid(content_length: u64, ranged_threads: usize) -> (grid: Vec<ChunkRange>)
    requires
        grid_inputs_ok(content_length, ranged_threads),
    ensures
        grid.len() == ranged_threads,
        forall|i: int|
            0 <= i < ranged_threads ==> (#[trigger] grid@[i]).start == grid_chunk(
                content_length as nat,
                ranged_threads as nat,
                i as nat,
            ).0 && grid@[i].end == grid_chunk(content_length as nat, ranged_threads as nat, i as nat).1,
{
    let n = ranged_threads as u64;
    let chunk_size = content_length / n;
    proof {
        lemma_chunk_size_bounds(content_length as nat, n as nat);
    }
    let mut grid: Vec<ChunkRange> = Vec::new();
    let mut i: usize = 0;
    while i < ranged_threads
        invariant
            grid_inputs_ok(content_length, ranged_threads),
            n == ranged_threads,
            chunk_size == content_length / n,
            chunk_size >= 1,
            chunk_size * n <= content_length,
            i <= ranged_threads,
            grid.len() == i,
            forall|k: int|
                0 <= k < i ==> (#[trigger] grid@[k]).start == grid_chunk(
                    content_length as nat,
                    ranged_threads as nat,
                    k as nat,
                ).0 && grid@[k].end == grid_chunk(
                    content_length as nat,
                    ranged_threads as nat,
                    k as nat,
                ).1,
        decreases ranged_threads - i,
    {
        let iu = i as u64;
        proof {
            assert((iu + 1) * chunk_size <= content_length && iu * chunk_size <= (iu + 1) * chunk_size
                && (iu + 1) * chunk_size >= 1) by (nonlinear_arith)
                requires
                    iu + 1 <= n,
                    chunk_size * n <= content_length,
                    chunk_size >= 1,
            ;
        }
        let start = iu * chunk_size;
        let end = if i == ranged_threads - 1 {
            content_length - 1
        } else {
            (iu + 1) * chunk_size - 1
        };
        grid.push(ChunkRange { start, end });
        i += 1;
    }
    grid
}

/// `content_length / n` is at least one and `n` chunks of it fit.
proof fn lemma_chunk_size_bounds(content_length: nat, n: nat)
    requires
        n >= 1,
        content_length >= n,
    ensures
        content_length / n >= 1,
        (content_length / n) * n <= content_length,
{
    assert((content_length / n) * n <= content_length) by (nonlinear_arith)
        requires
            n >= 1,
    ;
    assert(content_length / n >= 1) by (nonlinear_arith)
        requires
            n >= 1,
            content_length >= n,
    ;
}

/// The grid partitions `[0, content_length)`: it starts at 0, ends at
/// `content_length - 1`, every chunk is non-empty and each chunk starts
/// right after the previous one ends.
pub proof fn lemma_grid_partitions(content_length: u64, n: usize)
    requires
        grid_inputs_ok(content_length, n),
    ensures
        grid_chunk(content_length as nat, n as nat, 0).0 == 0,
        grid_chunk(content_length as nat, n as nat, (n - 1) as nat).1 == content_length - 1,
        forall|i: nat|
            i < n ==> #[trigger] grid_chunk(content_length as nat, n as nat, i).0 <= grid_chunk(
                content_length as nat,
                n as nat,
                i,
            ).1,
        forall|i: nat|
            i + 1 < n ==> #[trigger] grid_chunk(content_length as nat, n as nat, i + 1).0
                == grid_chunk(content_length as nat, n as nat, i).1 + 1,
{
    let cl = content_length as nat;
    let nn = n as nat;
    lemma_chunk_size_bounds(cl, nn);
    let size = cl / nn;
    assert forall|i: nat| i < nn implies #[trigger] grid_chunk(cl, nn, i).0 <= grid_chunk(
        cl,
        nn,
        i,
    ).1 by {
        assert((i + 1) * size <= cl && (i + 1) * size == i * size + size) by (nonlinear_arith)
            requires
                i + 1 <= nn,
                size * nn <= cl,
        ;
    }
    assert forall|i: nat| i + 1 < nn implies #[trigger] grid_chunk(cl, nn, i + 1).0 == grid_chunk(
        cl,
        nn,
        i,
    ).1 + 1 by {
        assert((i + 1) * size == i * size + size) by (nonlinear_arith);
    }
}

/// Whether the manifest records the whole chunk as written.
pub fn chunk_already_done(chunk: ChunkRange, manifest: &PartManifest) -> (r: bool)
    requires
        manifest@.wf(),
    ensures
        r == manifest@.range_recorded(chunk.start, chunk.end),
{
    manifest.is_range_complete(chunk.start, chunk.end)
}

/// Index of the first chunk of the grid that the manifest does not record
/// as written; `None` when every chunk is recorded. Chunks recorded out of
/// order (a later chunk done while an earlier one failed) are skipped.
pub fn first_missing_chunk_index(grid: &Vec<ChunkRange>, manifest: &PartManifest) -> (r: Option<
    usize,
>)
    requires
        manifest@.wf(),
    ensures
        match r {
            Some(i) => i < grid.len() && !manifest@.range_recorded(grid@[i as int].start, grid@[i as int].end)
                && forall|k: int|
                0 <= k < i ==> #[trigger] manifest@.range_recorded(grid@[k].start, grid@[k].end),
            None => forall|k: int|
                0 <= k < grid.len() ==> #[trigger] manifest@.range_recorded(
                    grid@[k].start,
                    grid@[k].end,
                ),
        },
{
    let mut i: usize = 0;
    while i < grid.len()
        invariant
            manifest@.wf(),
            i <= grid.len(),
            forall|k: int|
                0 <= k < i ==> #[trigger] manifest@.range_recorded(grid@[k].start, grid@[k].end),
        decreases grid.len() - i,
    {
        if !chunk_already_done(grid[i], manifest) {
            return Some(i);
        }
        i += 1;
    }
    None
}

/// The chunks among the first `i` of the grid that are still to fetch:
/// not the probe's chunk `first` and not recorded as written, in grid order.
pub open spec fn pending_upto(grid: Seq<ChunkRange>, first: usize, m: crate::manifest::ManifestView, i: nat) -> Seq<
    usize,
>
    decreases i,
{
    if i == 0 {
        Seq::empty()
    } else {
        let p = pending_upto(grid, first, m, (i - 1) as nat);
        let k = (i - 1) as int;
        if k != first && !m.range_recorded(grid[k].start, grid[k].end) {
            p.push(k as usize)
        } else {
            p
        }
    }
}

/// The chunks still to fetch after the probe wrote chunk `first_idx`: every
/// other chunk that the manifest does not record as written, in grid order.
pub fn pending_chunks(grid: &Vec<ChunkRange>, first_idx: usize, manifest: &PartManifest) -> (r: Vec<
    usize,
>)
    requires
        manifest@.wf(),
    ensures
        r@ == pending_upto(grid@, first_idx, manifest@, grid.len() as nat),
{
    let mut out: Vec<usize> = Vec::new();
    let mut i: usize = 0;
    while i < grid.len()
        invariant
            manifest@.wf(),
            i <= grid.len(),
            out@ == pending_upto(grid@, first_idx, manifest@, i as nat),
        decreases grid.len() - i,
    {
        if i != first_idx && !chunk_already_done(grid[i], manifest) {
            out.push(i);
        }
        i += 1;
    }
    out
}

/// Every index in the pending list is a chunk of the grid, other than the
/// probe's, that the manifest does not record; and every such chunk is listed.
pub proof fn lemma_pending_exact(grid: Seq<ChunkRange>, first: usize, m: crate::manifest::ManifestView, i: nat)
    requires
        i <= grid.len(),
        grid.len() <= usize::MAX,
    ensures
        forall|j: int|
            0 <= j < pending_upto(grid, first, m, i).len() ==> {
                let k = #[trigger] pending_upto(grid, first, m, i)[j];
                k < i && k != first && !m.range_recorded(grid[k as int].start, grid[k as int].end)
            },
        forall|k: int|
            0 <= k < i && k != first && !m.range_recorded(grid[k].start, grid[k].end) ==> #[trigger] pending_upto(grid, first, m, i).contains(
                k as usize,
            ),
    decreases i,
{
    if i > 0 {
        lemma_pending_exact(grid, first, m, (i - 1) as nat);
        let p = pending_upto(grid, first, m, (i - 1) as nat);
        let q = pending_upto(grid, first, m, i);
        assert forall|k: int|
            0 <= k < i && k != first && !m.range_recorded(grid[k].start, grid[k].end) implies #[trigger] q.contains(
            k as usize,
        ) by {
            if k < i - 1 {
                assert(p.contains(k as usize));
                let j = choose|j: int| 0 <= j < p.len() && p[j] == k as usize;
                assert(q[j] == k as usize);
            } else {
                assert(q[q.len() - 1] == k as usize);
            }
        }
    }
}

/// Decides whether the sidecar manifest that was read allows a resume: only
/// a manifest of the same file length is kept (no truncation needed);
/// anything else (no sidecar, unreadable, another length) starts over with
/// an empty manifest (song id 0, no quality) and asks for the `.part` file
/// to be truncated.
pub fn resolve_resume(loaded: Option<PartManifest>, content_length: u64, chunk_size: u64) -> (r: (
    PartManifest,
    bool,
))
    requires
        loaded matches Some(m) ==> m@.wf(),
    ensures
        r.0@.wf(),
        r.0@.content_length == content_length,
        match loaded {
            Some(m) => if m@.content_length == content_length {
                r.0@ == m@ && !r.1
            } else {
                r.0@.ranges.len() == 0 && r.0@.chunk_size == chunk_size && r.1
            },
            None => r.0@.ranges.len() == 0 && r.0@.chunk_size == chunk_size && r.1,
        },
        r.1 ==> r.0@.song_id == 0 && r.0@.quality.len() == 0 && r.0@.schema_version
            == crate::manifest::SCHEMA_VERSION,
{
    match loaded {
        Some(m) => {
            if m.content_length() == content_length {
                return (m, false);
            }
        },
        None => {},
    }
    let fresh = PartManifest::new(0, String::new(), content_length, chunk_size);
    proof {
        assert(fresh@.quality =~= Seq::<char>::empty());
    }
    (fresh, true)
}

/// How the response to the first Range request routes the download.
#[derive(Debug, Clone, Copy, PartialEq, Eq)]
pub enum ProbeRoute {
    /// 206: ranges are served; write this chunk and fetch the others in parallel.
    Ranged,
    /// 200 or 203: ranges are not served; stream this response as the whole file.
    StreamWhole,
    /// Anything else: fall back to a plain single-stream download.
    SingleStream,
}

/// Classifies the status of the first Range request for retrying: success
/// (2xx) passes; 5xx is a server failure; 401 is expired credentials; every
/// other status is a permanent failure that is not retried.
pub fn probe_status(status: u16) -> (r: Result<(), HttpFailureKind>)
    ensures
        (200 <= status <= 299) ==> r is Ok,
        !(200 <= status <= 299) && 500 <= status <= 599 ==> r == Err::<(), HttpFailureKind>(
            HttpFailureKind::Server5xx { status },
        ),
        !(200 <= status <= 299) && !(500 <= status <= 599) && status == 401 ==> r == Err::<
            (),
            HttpFailureKind,
        >(HttpFailureKind::AuthExpired),
        !(200 <= status <= 299) && !(500 <= status <= 599) && status != 401 ==> r == Err::<
            (),
            HttpFailureKind,
        >(HttpFailureKind::Permanent4xx { status }),
{
    if 200 <= status && status <= 299 {
        Ok(())
    } else if 500 <= status && status <= 599 {
        Err(HttpFailureKind::Server5xx { status })
    } else if status == 401 {
        Err(HttpFailureKind::AuthExpired)
    } else {
        Err(HttpFailureKind::Permanent4xx { status })
    }
}

/// Routes a successful probe response by its status.
pub fn probe_route(status: u16) -> (r: ProbeRoute)
    ensures
        status == 206 ==> r == ProbeRoute::Ranged,
        status == 200 || status == 203 ==> r == ProbeRoute::StreamWhole,
        status != 206 && status != 200 && status != 203 ==> r == ProbeRoute::SingleStream,
{
    if status == 206 {
        ProbeRoute::Ranged
    } else if status == 200 || status == 203 {
        ProbeRoute::StreamWhole
    } else {
        ProbeRoute::SingleStream
    }
}

/// Whether a fetched chunk has exactly the chunk's length.
pub fn chunk_len_matches(chunk: ChunkRange, got: u64) -> (r: bool)
    requires
        chunk.start <= chunk.end,
        chunk.end - chunk.start < u64::MAX,
    ensures
        r == (got == chunk.end - chunk.start + 1),
{
    got == chunk.len()
}

/// A chunk fetch succeeded: 200 (whole body) or 206 (the range).
pub fn range_fetch_ok(status: u16) -> (r: bool)
    ensures
        r == (status == 200 || status == 206),
{
    status == 200 || status == 206
}

/// Stages of committing one downloaded chunk. The bytes are first written at
/// the chunk's offset in the `.part` file, then flushed, and only then does
/// the manifest record the chunk: a crash at any point leaves the manifest
/// behind the bytes, never ahead of them.
#[derive(Debug, Clone, Copy, PartialEq, Eq, Structural)]
pub enum WriteStage {
    Fetched,
    Written,
    Flushed,
    Recorded,
}

/// One chunk on its way from the network to the manifest.
#[derive(Debug)]
pub struct ChunkCommit {
    chunk: ChunkRange,
    stage: WriteStage,
}

impl ChunkCommit {
    /// The chunk being committed.
    pub closed spec fn spec_chunk(&self) -> ChunkRange {
        self.chunk
    }

    /// The chunk being committed.
    pub fn chunk(&self) -> (r: ChunkRange)
        ensures
            r == self.spec_chunk(),
    {
        self.chunk
    }

    /// The stage the chunk has reached.
    pub closed spec fn spec_stage(&self) -> WriteStage {
        self.stage
    }

    /// A chunk whose bytes have been fetched and nothing more.
    pub fn new(chunk: ChunkRange) -> (c: Self)
        ensures
            c.spec_chunk() == chunk,
            c.spec_stage() == WriteStage::Fetched,
    {
        ChunkCommit { chunk, stage: WriteStage::Fetched }
    }

    /// The stage the chunk has reached.
    pub fn stage(&self) -> (r: WriteStage)
        ensures
            r == self.spec_stage(),
    {
        self.stage
    }

    /// Notes that the bytes were written; accepted only right after fetching.
    pub fn written(&mut self) -> (r: bool)
        ensures
            r == (old(self).spec_stage() == WriteStage::Fetched),
            r ==> final(self).spec_stage() == WriteStage::Written,
            !r ==> *final(self) == *old(self),
            final(self).spec_chunk() == old(self).spec_chunk(),
    {
        if self.stage == WriteStage::Fetched {
            self.stage = WriteStage::Written;
            true
        } else {
            false
        }
    }

    /// Notes that the written bytes were flushed; accepted only right after
    /// writing.
    pub fn flushed(&mut self) -> (r: bool)
        ensures
            r == (old(self).spec_stage() == WriteStage::Written),
            r ==> final(self).spec_stage() == WriteStage::Flushed,
            !r ==> *final(self) == *old(self),
            final(self).spec_chunk() == old(self).spec_chunk(),
    {
        if self.stage == WriteStage::Written {
            self.stage = WriteStage::Flushed;
            true
        } else {
            false
        }
    }

    /// Records the chunk in the manifest, which happens only once its bytes
    /// are flushed (and for a well-ordered chunk); otherwise nothing changes.
    pub fn record(&mut self, manifest: &mut PartManifest) -> (r: bool)
        requires
            old(manifest)@.wf(),
        ensures
            r == (old(self).spec_stage() == WriteStage::Flushed && old(self).spec_chunk().start
                <= old(self).spec_chunk().end),
            r ==> records(old(manifest)@, old(self).spec_chunk().start, old(self).spec_chunk().end, final(manifest)@)
                && final(self).spec_stage() == WriteStage::Recorded,
            !r ==> final(manifest)@ == old(manifest)@ && *final(self) == *old(self),
            final(self).spec_chunk() == old(self).spec_chunk(),
    {
        if self.stage == WriteStage::Flushed && self.chunk.start <= self.chunk.end {
            manifest.record_chunk(self.chunk.start, self.chunk.end);
            self.stage = WriteStage::Recorded;
            true
        } else {
            false
        }
    }
}

} // verus!
