//! The chunk manager: owner of the chunk table and orchestrator of
//! the pipeline.
//!
//! The manager accepts chunk requests, dispatches jobs to the
//! scheduler, ingests finished jobs once per tick, and exposes the
//! results to the world loop. The chunk table maps each coordinate
//! to either the chunk itself or a checked-out marker while the
//! chunk's job is in flight — the exclusive-handoff scheme: while a
//! job runs, the table holds no reference to the chunk at all.
//!
//! Merging finished jobs is specified as a fold (`merge_upto`) over
//! the drained results, so every property of `update` — keyed,
//! order-independent installation; discarding of results whose
//! coordinate is no longer wanted; bounded retry of failed
//! generations — is stated once, in one place.

use vstd::prelude::*;
use crate::block::BlockRegistry;
use crate::chunk::{Chunk, ChunkOptions, ChunkStatus};
use crate::job::{Job, JobKind, JobResult};
use crate::mesher::{GeometryData, Mesher, MesherRegistry};
use crate::scheduler::{JobScheduler, SchedulerError};
use crate::stage::ChunkStage;
use crate::vec::Vec2;

verus! {

/// Default watermark on the pending-job queue.
pub const DEFAULT_JOB_CAP: usize = 4096;

/// Default bound on generation retries per chunk.
pub const DEFAULT_MAX_RETRIES: u32 = 3;

/// One slot of the chunk table: the chunk itself, or a marker that
/// the chunk is checked out into an in-flight job. `retries` counts
/// how often generation failed and was re-dispatched.
pub enum ChunkSlot {
    Present(Chunk),
    InFlight { retries: u32 },
}

/// What `request` reports back to the caller.
#[derive(Clone, Copy, Debug, PartialEq, Eq, Structural)]
pub enum RequestOutcome {
    /// A new chunk was created and its job submitted.
    Submitted,
    /// A job for this coordinate is already in flight; the request
    /// was coalesced, nothing was submitted.
    Pending,
    /// The chunk is present and ready.
    Ready,
    /// The chunk exhausted its generation retries.
    Failed,
    /// The job queue stands at its watermark; retry later.
    Saturated,
}

/// Errors of the direct edit path.
#[derive(Clone, Copy, Debug, PartialEq, Eq, Structural)]
pub enum EditError {
    /// No chunk exists for the coordinate.
    NoChunk,
    /// The chunk is in flight or otherwise not `Ready`.
    NotReady,
    /// The position lies outside the chunk's grid.
    OutOfBounds,
    /// The job queue stands at its watermark; the edit was not
    /// applied.
    Saturated,
}

/// A finished job as staged for the world loop: coordinate, final
/// status, failure flag and the assembled geometry. The chunk
/// itself lives in the table.
pub struct FinishedJob {
    pub coords: Vec2,
    pub status: ChunkStatus,
    pub failed: bool,
    pub geometry: Vec<GeometryData>,
}

/// The `FinishedJob` staged for a result.
pub open spec fn finished_of(r: JobResult) -> FinishedJob {
    FinishedJob { coords: r.coords, status: r.chunk.status, failed: r.failed, geometry: r.geometry }
}

/// Index of the first table entry keyed `c`, or -1.
pub open spec fn find_in(t: Seq<(Vec2, ChunkSlot)>, c: Vec2) -> int
    decreases t.len(),
{
    if t.len() == 0 {
        -1
    } else if t[0].0 == c {
        0
    } else {
        let rest = find_in(t.drop_first(), c);
        if rest == -1 {
            -1
        } else {
            rest + 1
        }
    }
}

pub proof fn lemma_find_in_bounds(t: Seq<(Vec2, ChunkSlot)>, c: Vec2)
    ensures
        find_in(t, c) == -1 || (0 <= find_in(t, c) < t.len() && t[find_in(t, c)].0 == c),
    decreases t.len(),
{
    if t.len() > 0 && t[0].0 != c {
        lemma_find_in_bounds(t.drop_first(), c);
    }
}

/// If the first entry keyed `c` is not before `i`, position `i`
/// decides whether it is `i` or past `i`.
pub proof fn lemma_find_in_prefix(t: Seq<(Vec2, ChunkSlot)>, c: Vec2, i: int)
    requires
        0 <= i < t.len(),
        find_in(t, c) == -1 || find_in(t, c) >= i,
    ensures
        t[i].0 == c ==> find_in(t, c) == i,
        t[i].0 != c ==> find_in(t, c) == -1 || find_in(t, c) >= i + 1,
    decreases i,
{
    if i > 0 {
        if t[0].0 == c {
            assert(find_in(t, c) == 0);
        } else {
            let rest = find_in(t.drop_first(), c);
            lemma_find_in_bounds(t.drop_first(), c);
            assert(find_in(t, c) == if rest == -1 { -1int } else { rest + 1 });
            lemma_find_in_prefix(t.drop_first(), c, i - 1);
            assert(t.drop_first()[i - 1] == t[i]);
        }
    }
}

/// Replacing an entry's slot without touching its key leaves every
/// lookup unchanged.
pub proof fn lemma_find_in_update_same_key(
    t: Seq<(Vec2, ChunkSlot)>,
    i: int,
    v: (Vec2, ChunkSlot),
    c: Vec2,
)
    requires
        0 <= i < t.len(),
        v.0 == t[i].0,
    ensures
        find_in(t.update(i, v), c) == find_in(t, c),
    decreases t.len(),
{
    let u = t.update(i, v);
    assert(u.len() == t.len());
    if t.len() > 0 {
        assert(u[0].0 == t[0].0);
        if t[0].0 != c {
            if i == 0 {
                assert(u.drop_first() =~= t.drop_first());
            } else {
                assert(u.drop_first() =~= t.drop_first().update(i - 1, v));
                assert(t.drop_first()[i - 1] == t[i]);
                lemma_find_in_update_same_key(t.drop_first(), i - 1, v, c);
            }
        }
    }
}

/// The part of the manager's state that ingesting results changes:
/// the chunk table, the staged finished list, the pending-job queue
/// and the stale-result counter.
pub ghost struct MergeState {
    pub table: Seq<(Vec2, ChunkSlot)>,
    pub done: Seq<FinishedJob>,
    pub pending: Seq<Job>,
    pub stale: u64,
}

/// Ingest one finished job.
///
/// The table entry is looked up by the result's coordinate: results
/// complete in any order and still land on their own entry. A
/// result whose coordinate is gone (evicted while in flight) or no
/// longer checked out is discarded and counted, never reinserted. A
/// failed generation is re-dispatched while retries remain;
/// afterwards the chunk is installed in its terminal
/// `GenerationFailed` state and surfaced as an explicit error entry.
pub open spec fn merge_one(s: MergeState, r: JobResult, max_retries: u32) -> MergeState {
    let i = find_in(s.table, r.coords);
    let bumped = if s.stale < u64::MAX {
        (s.stale + 1) as u64
    } else {
        s.stale
    };
    if i == -1 {
        MergeState { stale: bumped, ..s }
    } else {
        match s.table[i].1 {
            ChunkSlot::Present(_) => MergeState { stale: bumped, ..s },
            ChunkSlot::InFlight { retries } => {
                if !r.failed {
                    MergeState {
                        table: s.table.update(i, (r.coords, ChunkSlot::Present(r.chunk))),
                        done: s.done.push(finished_of(r)),
                        ..s
                    }
                } else if retries < max_retries {
                    MergeState {
                        table: s.table.update(
                            i,
                            (r.coords, ChunkSlot::InFlight { retries: (retries + 1) as u32 }),
                        ),
                        pending: s.pending.push(
                            Job {
                                chunk: r.chunk.with_status(ChunkStatus::Generating),
                                kind: JobKind::Full,
                            },
                        ),
                        ..s
                    }
                } else {
                    MergeState {
                        table: s.table.update(i, (r.coords, ChunkSlot::Present(r.chunk))),
                        done: s.done.push(finished_of(r)),
                        ..s
                    }
                }
            },
        }
    }
}

/// Ingest the first `k` of the drained results, in order.
pub open spec fn merge_upto(
    s: MergeState,
    rs: Seq<JobResult>,
    k: int,
    max_retries: u32,
) -> MergeState
    decreases k,
{
    if k <= 0 {
        s
    } else {
        merge_one(merge_upto(s, rs, k - 1, max_retries), rs[k - 1], max_retries)
    }
}

/// Law: a tick with nothing finished changes nothing. Together
/// with the contract of `update` this is the non-blocking
/// guarantee's observable half: draining zero results leaves table,
/// finished list, queue and counters exactly as they were.
pub proof fn lemma_merge_nothing(s: MergeState, rs: Seq<JobResult>, max_retries: u32)
    requires
        rs.len() == 0,
    ensures
        merge_upto(s, rs, rs.len() as int, max_retries) == s,
{
}

/// Law: a result whose coordinate is no longer in the table is
/// dropped and counted — eviction during flight never resurrects
/// the evicted entry.
pub proof fn lemma_merge_discards_stale(s: MergeState, r: JobResult, max_retries: u32)
    requires
        find_in(s.table, r.coords) == -1,
    ensures
        merge_one(s, r, max_retries).table == s.table,
        merge_one(s, r, max_retries).done == s.done,
        merge_one(s, r, max_retries).pending == s.pending,
        merge_one(s, r, max_retries).stale >= s.stale,
{
}

/// Law: out-of-order completion merges correctly. Submitting for
/// two distinct coordinates and completing them in the opposite
/// order still installs each chunk on its own entry, with no
/// cross-contamination.
pub proof fn lemma_merge_out_of_order(s: MergeState, ra: JobResult, rb: JobResult, max_retries: u32)
    requires
        ra.coords != rb.coords,
        !ra.failed,
        !rb.failed,
        0 <= find_in(s.table, ra.coords) < s.table.len(),
        s.table[find_in(s.table, ra.coords)].1 is InFlight,
        0 <= find_in(s.table, rb.coords) < s.table.len(),
        s.table[find_in(s.table, rb.coords)].1 is InFlight,
    ensures
        ({
            let sf = merge_one(merge_one(s, rb, max_retries), ra, max_retries);
            &&& find_in(sf.table, ra.coords) == find_in(s.table, ra.coords)
            &&& find_in(sf.table, rb.coords) == find_in(s.table, rb.coords)
            &&& sf.table[find_in(s.table, ra.coords)].1 == ChunkSlot::Present(ra.chunk)
            &&& sf.table[find_in(s.table, rb.coords)].1 == ChunkSlot::Present(rb.chunk)
        }),
{
    let ia = find_in(s.table, ra.coords);
    let ib = find_in(s.table, rb.coords);
    lemma_find_in_bounds(s.table, ra.coords);
    lemma_find_in_bounds(s.table, rb.coords);
    assert(ia != ib);
    let s1 = merge_one(s, rb, max_retries);
    assert(s1.table == s.table.update(ib, (rb.coords, ChunkSlot::Present(rb.chunk))));
    lemma_find_in_update_same_key(s.table, ib, (rb.coords, ChunkSlot::Present(rb.chunk)), ra.coords);
    lemma_find_in_update_same_key(s.table, ib, (rb.coords, ChunkSlot::Present(rb.chunk)), rb.coords);
    assert(s1.table[ia].1 == s.table[ia].1);
    let s2 = merge_one(s1, ra, max_retries);
    assert(s2.table == s1.table.update(ia, (ra.coords, ChunkSlot::Present(ra.chunk))));
    lemma_find_in_update_same_key(s1.table, ia, (ra.coords, ChunkSlot::Present(ra.chunk)), ra.coords);
    lemma_find_in_update_same_key(s1.table, ia, (ra.coords, ChunkSlot::Present(ra.chunk)), rb.coords);
}

/// Law: an edit's re-mesh round trip ends `Ready` with the edited
/// content intact. A mesh-only job never changes the chunk's voxels
/// — it only rebuilds geometry — and merging its result puts the
/// chunk back into the table, ready, on its own entry.
pub proof fn lemma_remesh_preserves_edit(
    job: Job,
    r: JobResult,
    stages: Seq<ChunkStage>,
    meshers: Seq<Mesher>,
    registry: BlockRegistry,
    s: MergeState,
    max_retries: u32,
)
    requires
        job.kind == JobKind::MeshOnly,
        crate::job::run_job_spec(job, stages, meshers, registry, r),
        0 <= find_in(s.table, r.coords) < s.table.len(),
        s.table[find_in(s.table, r.coords)].1 is InFlight,
    ensures
        r.chunk.status == ChunkStatus::Ready,
        r.chunk.grid() == job.chunk.grid(),
        merge_one(s, r, max_retries).table[find_in(s.table, r.coords)].1 == ChunkSlot::Present(
            r.chunk,
        ),
        merge_one(s, r, max_retries).done == s.done.push(finished_of(r)),
{
}

/// The orchestrator. Owns the chunk table, the registries, the
/// stage list and the scheduler; mutated only from the owning tick
/// thread.
pub struct ChunkManager {
    pub options: ChunkOptions,
    pub block_registry: BlockRegistry,
    pub mesher_registry: MesherRegistry,
    pub stages: Vec<ChunkStage>,
    pub table: Vec<(Vec2, ChunkSlot)>,
    pub scheduler: JobScheduler,
    pub done: Vec<FinishedJob>,
    pub stale_discarded: u64,
    pub max_retries: u32,
}

impl ChunkManager {
    pub closed spec fn table(self) -> Seq<(Vec2, ChunkSlot)> {
        self.table@
    }

    pub closed spec fn done_list(self) -> Seq<FinishedJob> {
        self.done@
    }

    pub closed spec fn sched(self) -> JobScheduler {
        self.scheduler
    }

    pub closed spec fn stages_view(self) -> Seq<ChunkStage> {
        self.stages@
    }

    pub closed spec fn blocks_reg(self) -> BlockRegistry {
        self.block_registry
    }

    pub closed spec fn meshers_view(self) -> Seq<Mesher> {
        self.mesher_registry@
    }

    pub closed spec fn stale_count(self) -> u64 {
        self.stale_discarded
    }

    pub closed spec fn retries_max(self) -> u32 {
        self.max_retries
    }

    /// The merge-relevant state, as one value.
    pub open spec fn merge_state(self) -> MergeState {
        MergeState {
            table: self.table(),
            done: self.done_list(),
            pending: self.sched().pending(),
            stale: self.stale_count(),
        }
    }

    /// Table keys are unique, present chunks are well-formed and
    /// keyed by their own coordinate, and the scheduler's queues
    /// hold only well-formed jobs and results.
    pub open spec fn wf(self) -> bool {
        &&& self.options.wf()
        &&& self.sched().wf()
        &&& forall|i: int, j: int|
            0 <= i < j < self.table().len() ==> (#[trigger] self.table()[i]).0 != (
            #[trigger] self.table()[j]).0
        &&& forall|i: int|
            0 <= i < self.table().len() ==> match (#[trigger] self.table()[i]).1 {
                ChunkSlot::Present(c) => c.wf() && c.coords == self.table()[i].0,
                ChunkSlot::InFlight { .. } => true,
            }
    }

    /// A manager over the given registries and options, with
    /// explicit queue watermark and retry bound.
    pub fn with_limits(
        block_registry: BlockRegistry,
        mesher_registry: MesherRegistry,
        options: &ChunkOptions,
        job_cap: usize,
        max_retries: u32,
    ) -> (r: Self)
        requires
            options.wf(),
        ensures
            r.wf(),
            r.options == *options,
            r.blocks_reg() == block_registry,
            r.meshers_view() == mesher_registry@,
            r.stages_view() == Seq::<ChunkStage>::empty(),
            r.table().len() == 0,
            r.done_list().len() == 0,
            r.sched().pending().len() == 0,
            r.sched().done().len() == 0,
            r.sched().cap() == job_cap,
            !r.sched().started(),
            r.stale_count() == 0,
            r.retries_max() == max_retries,
    {
        ChunkManager {
            options: *options,
            block_registry,
            mesher_registry,
            stages: Vec::new(),
            table: Vec::new(),
            scheduler: JobScheduler::new(job_cap),
            done: Vec::new(),
            stale_discarded: 0,
            max_retries,
        }
    }

    /// A manager with the default watermark and retry bound.
    pub fn new(
        block_registry: BlockRegistry,
        mesher_registry: MesherRegistry,
        options: &ChunkOptions,
    ) -> (r: Self)
        requires
            options.wf(),
        ensures
            r.wf(),
            r.options == *options,
            r.blocks_reg() == block_registry,
            r.meshers_view() == mesher_registry@,
            r.stages_view() == Seq::<ChunkStage>::empty(),
            r.table().len() == 0,
            r.done_list().len() == 0,
            r.sched().pending().len() == 0,
            r.sched().done().len() == 0,
            r.sched().cap() == DEFAULT_JOB_CAP,
            !r.sched().started(),
            r.stale_count() == 0,
            r.retries_max() == DEFAULT_MAX_RETRIES,
    {
        Self::with_limits(
            block_registry,
            mesher_registry,
            options,
            DEFAULT_JOB_CAP,
            DEFAULT_MAX_RETRIES,
        )
    }

    /// Append a stage; it runs after everything already registered.
    pub fn add_stage(&mut self, stage: ChunkStage)
        requires
            old(self).wf(),
        ensures
            final(self).wf(),
            final(self).stages_view() == old(self).stages_view().push(stage),
            final(self).table() == old(self).table(),
            final(self).sched() == old(self).sched(),
            final(self).done_list() == old(self).done_list(),
            final(self).options == old(self).options,
            final(self).blocks_reg() == old(self).blocks_reg(),
            final(self).meshers_view() == old(self).meshers_view(),
            final(self).stale_count() == old(self).stale_count(),
            final(self).retries_max() == old(self).retries_max(),
    {
        self.stages.push(stage);
    }

    /// Start the worker pool once; starting twice is an error.
    pub fn start_job_processor(&mut self, worker_count: usize) -> (r: Result<(), SchedulerError>)
        requires
            old(self).wf(),
        ensures
            final(self).wf(),
            old(self).sched().started() ==> r == Result::<(), SchedulerError>::Err(
                SchedulerError::AlreadyStarted,
            ),
            !old(self).sched().started() ==> r == Result::<(), SchedulerError>::Ok(())
                && final(self).sched().started(),
            final(self).merge_state() == old(self).merge_state(),
            final(self).stages_view() == old(self).stages_view(),
            final(self).options == old(self).options,
    {
        self.scheduler.start(worker_count)
    }

    /// Index of the table entry for `c`, if any.
    fn find_slot(&self, c: &Vec2) -> (r: Option<usize>)
        ensures
            match r {
                Some(i) => 0 <= find_in(self.table(), *c) == i < self.table().len(),
                None => find_in(self.table(), *c) == -1,
            },
    {
        proof {
            lemma_find_in_bounds(self.table(), *c);
        }
        let n = self.table.len();
        let mut i: usize = 0;
        while i < n
            invariant
                n == self.table().len(),
                0 <= i <= n,
                find_in(self.table(), *c) == -1 || find_in(self.table(), *c) >= i,
            decreases n - i,
        {
            proof {
                lemma_find_in_prefix(self.table(), *c, i as int);
            }
            if self.table[i].0 == *c {
                return Some(i);
            }
            i += 1;
        }
        None
    }

    /// The chunk for `coords`, if present (not in flight).
    pub fn get_chunk(&self, coords: &Vec2) -> (r: Option<&Chunk>)
        ensures
            match r {
                Some(c) => {
                    &&& 0 <= find_in(self.table(), *coords) < self.table().len()
                    &&& self.table()[find_in(self.table(), *coords)].1 == ChunkSlot::Present(*c)
                },
                None => find_in(self.table(), *coords) == -1 || self.table()[find_in(
                    self.table(),
                    *coords,
                )].1 is InFlight,
            },
    {
        match self.find_slot(coords) {
            None => None,
            Some(i) => match &self.table[i].1 {
                ChunkSlot::Present(c) => Some(c),
                ChunkSlot::InFlight { .. } => None,
            },
        }
    }

    /// How many jobs wait in the scheduler's queue.
    pub fn pending_jobs(&self) -> (r: usize)
        ensures
            r == self.sched().pending().len(),
    {
        self.scheduler.pending_len()
    }

    /// How many results were discarded as stale.
    pub fn stale_discarded(&self) -> (r: u64)
        ensures
            r == self.stale_count(),
    {
        self.stale_discarded
    }

    /// Request the chunk at `coords`.
    ///
    /// No entry: create a chunk in `Requested` status and submit
    /// exactly one job. In flight: coalesce — report `Pending` and
    /// change nothing, in particular submit nothing, so at most one
    /// job per coordinate is ever in flight. Present: report its
    /// state and change nothing. Queue at the watermark: report
    /// `Saturated` and change nothing.
    pub fn request(&mut self, coords: Vec2) -> (r: RequestOutcome)
        requires
            old(self).wf(),
            i32::MIN < coords.0 * old(self).options.chunk_size,
            coords.0 * old(self).options.chunk_size + old(self).options.chunk_size < i32::MAX,
            i32::MIN < coords.1 * old(self).options.chunk_size,
            coords.1 * old(self).options.chunk_size + old(self).options.chunk_size < i32::MAX,
        ensures
            final(self).wf(),
            final(self).options == old(self).options,
            final(self).stages_view() == old(self).stages_view(),
            final(self).blocks_reg() == old(self).blocks_reg(),
            final(self).meshers_view() == old(self).meshers_view(),
            final(self).done_list() == old(self).done_list(),
            final(self).stale_count() == old(self).stale_count(),
            final(self).retries_max() == old(self).retries_max(),
            final(self).sched().done() == old(self).sched().done(),
            final(self).sched().started() == old(self).sched().started(),
            final(self).sched().cap() == old(self).sched().cap(),
            ({
                let i = find_in(old(self).table(), coords);
                if i >= 0 {
                    // Existing entry: always coalesced, never re-submitted.
                    &&& final(self).table() == old(self).table()
                    &&& final(self).sched().pending() == old(self).sched().pending()
                    &&& r == match old(self).table()[i].1 {
                        ChunkSlot::InFlight { .. } => RequestOutcome::Pending,
                        ChunkSlot::Present(c) => {
                            if c.status == ChunkStatus::Ready {
                                RequestOutcome::Ready
                            } else if c.status == ChunkStatus::GenerationFailed {
                                RequestOutcome::Failed
                            } else {
                                RequestOutcome::Pending
                            }
                        },
                    }
                } else if old(self).sched().pending().len() >= old(self).sched().cap() {
                    &&& final(self).table() == old(self).table()
                    &&& final(self).sched().pending() == old(self).sched().pending()
                    &&& r == RequestOutcome::Saturated
                } else {
                    &&& r == RequestOutcome::Submitted
                    &&& final(self).table() == old(self).table().push(
                        (coords, ChunkSlot::InFlight { retries: 0 }),
                    )
                    &&& final(self).sched().pending().len() == old(self).sched().pending().len()
                        + 1
                    &&& final(self).sched().pending() == old(self).sched().pending().push(
                        final(self).sched().pending().last(),
                    )
                    &&& ({
                        let job = final(self).sched().pending().last();
                        &&& job.kind == JobKind::Full
                        &&& job.chunk.wf()
                        &&& job.chunk.coords == coords
                        &&& job.chunk.options == old(self).options
                        &&& job.chunk.status == ChunkStatus::Requested
                        &&& forall|x: int, y: int, z: int|
                            0 <= x < old(self).options.chunk_size && 0 <= y < old(
                                self,
                            ).options.max_height && 0 <= z < old(self).options.chunk_size
                                ==> job.chunk.spec_block(x, y, z) == 0u32
                    })
                }
            }),
    {
        match self.find_slot(&coords) {
            Some(i) => {
                match &self.table[i].1 {
                    ChunkSlot::InFlight { .. } => RequestOutcome::Pending,
                    ChunkSlot::Present(c) => {
                        if c.status == ChunkStatus::Ready {
                            RequestOutcome::Ready
                        } else if c.status == ChunkStatus::GenerationFailed {
                            RequestOutcome::Failed
                        } else {
                            RequestOutcome::Pending
                        }
                    },
                }
            },
            None => {
                if self.scheduler.is_full() {
                    return RequestOutcome::Saturated;
                }
                let chunk = Chunk::new(coords, self.options);
                let job = Job { chunk, kind: JobKind::Full };
                let res = self.scheduler.submit(job);
                proof {
                    lemma_find_in_bounds(old(self).table(), coords);
                }
                self.table.push((coords, ChunkSlot::InFlight { retries: 0 }));
                proof {
                    assert forall|i: int, j: int|
                        0 <= i < j < self.table().len() implies (#[trigger] self.table()[i]).0 != (
                    #[trigger] self.table()[j]).0 by {
                        if j < self.table().len() - 1 {
                            assert(self.table()[i] == old(self).table()[i]);
                            assert(self.table()[j] == old(self).table()[j]);
                        } else {
                            assert(self.table()[i] == old(self).table()[i]);
                            lemma_find_in_prefix(old(self).table(), coords, i);
                        }
                    }
                    assert forall|i: int|
                        0 <= i < self.table().len() implies match (#[trigger] self.table()[i]).1 {
                        ChunkSlot::Present(c) => c.wf() && c.coords == self.table()[i].0,
                        ChunkSlot::InFlight { .. } => true,
                    } by {
                        if i < self.table().len() - 1 {
                            assert(self.table()[i] == old(self).table()[i]);
                        }
                    }
                }
                RequestOutcome::Submitted
            },
        }
    }

    /// Remove the table entry for `coords`, whatever its state. A
    /// job still in flight for it runs to completion; its result is
    /// discarded at merge time.
    pub fn evict(&mut self, coords: &Vec2) -> (removed: bool)
        requires
            old(self).wf(),
        ensures
            final(self).wf(),
            final(self).options == old(self).options,
            final(self).stages_view() == old(self).stages_view(),
            final(self).blocks_reg() == old(self).blocks_reg(),
            final(self).meshers_view() == old(self).meshers_view(),
            final(self).done_list() == old(self).done_list(),
            final(self).stale_count() == old(self).stale_count(),
            final(self).retries_max() == old(self).retries_max(),
            final(self).sched() == old(self).sched(),
            ({
                let i = find_in(old(self).table(), *coords);
                if i == -1 {
                    !removed && final(self).table() == old(self).table()
                } else {
                    removed && final(self).table() == old(self).table().remove(i)
                }
            }),
            find_in(final(self).table(), *coords) == -1,
    {
        match self.find_slot(coords) {
            None => false,
            Some(i) => {
                let _ = self.table.remove(i);
                proof {
                    let pre = old(self).table();
                    let post = self.table();
                    assert forall|a: int, b: int|
                        0 <= a < b < post.len() implies (#[trigger] post[a]).0 != (
                    #[trigger] post[b]).0 by {
                        let a0 = if a < i { a } else { a + 1 };
                        let b0 = if b < i { b } else { b + 1 };
                        assert(post[a] == pre[a0]);
                        assert(post[b] == pre[b0]);
                    }
                    assert forall|a: int|
                        0 <= a < post.len() implies match (#[trigger] post[a]).1 {
                        ChunkSlot::Present(c) => c.wf() && c.coords == post[a].0,
                        ChunkSlot::InFlight { .. } => true,
                    } by {
                        let a0 = if a < i { a } else { a + 1 };
                        assert(post[a] == pre[a0]);
                    }
                    lemma_find_in_bounds(pre, *coords);
                    lemma_find_in_bounds(post, *coords);
                    if find_in(post, *coords) != -1 {
                        let kk = find_in(post, *coords);
                        let k0 = if kk < i { kk } else { kk + 1 };
                        assert(post[kk] == pre[k0]);
                        assert(pre[i as int].0 == *coords);
                        if (i as int) < k0 {
                            assert(pre[i as int].0 != pre[k0].0);
                        } else {
                            assert(pre[k0].0 != pre[i as int].0);
                        }
                        assert(false);
                    }
                }
                true
            },
        }
    }

    /// One worker finishes the queued job at `i`. Exposed as an
    /// explicit step so the pool around the manager — and every
    /// test — can finish jobs in any order.
    pub fn process_job_at(&mut self, i: usize)
        requires
            old(self).wf(),
            i < old(self).sched().pending().len(),
        ensures
            final(self).wf(),
            final(self).options == old(self).options,
            final(self).stages_view() == old(self).stages_view(),
            final(self).blocks_reg() == old(self).blocks_reg(),
            final(self).meshers_view() == old(self).meshers_view(),
            final(self).table() == old(self).table(),
            final(self).done_list() == old(self).done_list(),
            final(self).stale_count() == old(self).stale_count(),
            final(self).retries_max() == old(self).retries_max(),
            final(self).sched().started() == old(self).sched().started(),
            final(self).sched().cap() == old(self).sched().cap(),
            final(self).sched().pending() == old(self).sched().pending().remove(i as int),
            final(self).sched().done() == old(self).sched().done().push(
                final(self).sched().done().last(),
            ),
            final(self).sched().done().len() == old(self).sched().done().len() + 1,
            final(self).sched().done().last().wf(),
            crate::job::run_job_spec(
                old(self).sched().pending()[i as int],
                old(self).stages_view(),
                old(self).meshers_view(),
                old(self).blocks_reg(),
                final(self).sched().done().last(),
            ),
    {
        self.scheduler.complete_job_at(i, &self.stages, &self.mesher_registry, &self.block_registry)
    }

    /// Finish every queued job, oldest first. Earlier finished
    /// results are kept; each queued job contributes exactly one
    /// result, in order, and each result is what running that job
    /// must produce.
    pub fn process_all_jobs(&mut self)
        requires
            old(self).wf(),
        ensures
            final(self).wf(),
            final(self).options == old(self).options,
            final(self).stages_view() == old(self).stages_view(),
            final(self).blocks_reg() == old(self).blocks_reg(),
            final(self).meshers_view() == old(self).meshers_view(),
            final(self).table() == old(self).table(),
            final(self).done_list() == old(self).done_list(),
            final(self).stale_count() == old(self).stale_count(),
            final(self).retries_max() == old(self).retries_max(),
            final(self).sched().started() == old(self).sched().started(),
            final(self).sched().cap() == old(self).sched().cap(),
            final(self).sched().pending().len() == 0,
            final(self).sched().done().len() == old(self).sched().done().len() + old(
                self,
            ).sched().pending().len(),
            forall|m: int|
                0 <= m < old(self).sched().done().len() ==> final(self).sched().done()[m] == (
                #[trigger] old(self).sched().done()[m]),
            forall|m: int|
                0 <= m < old(self).sched().pending().len() ==> crate::job::run_job_spec(
                    #[trigger] old(self).sched().pending()[m],
                    old(self).stages_view(),
                    old(self).meshers_view(),
                    old(self).blocks_reg(),
                    final(self).sched().done()[old(self).sched().done().len() + m],
                ),
    {
        let ghost p0 = self.sched().pending();
        let ghost d0 = self.sched().done();
        let ghost n0 = d0.len() as int;
        proof {
            assert(p0.skip(0) =~= p0);
        }
        let ghost mut j: int = 0;
        while self.scheduler.pending_len() > 0
            invariant
                self.wf(),
                self.options == old(self).options,
                self.stages_view() == old(self).stages_view(),
                self.blocks_reg() == old(self).blocks_reg(),
                self.meshers_view() == old(self).meshers_view(),
                self.table() == old(self).table(),
                self.done_list() == old(self).done_list(),
                self.stale_count() == old(self).stale_count(),
                self.retries_max() == old(self).retries_max(),
                self.sched().started() == old(self).sched().started(),
                self.sched().cap() == old(self).sched().cap(),
                p0 == old(self).sched().pending(),
                d0 == old(self).sched().done(),
                n0 == d0.len(),
                0 <= j <= p0.len(),
                self.sched().pending() == p0.skip(j),
                self.sched().done().len() == n0 + j,
                forall|m: int| 0 <= m < n0 ==> self.sched().done()[m] == (#[trigger] d0[m]),
                forall|m: int|
                    0 <= m < j ==> crate::job::run_job_spec(
                        #[trigger] p0[m],
                        old(self).stages_view(),
                        old(self).meshers_view(),
                        old(self).blocks_reg(),
                        self.sched().done()[n0 + m],
                    ),
            decreases self.sched().pending().len(),
        {
            let ghost dpre = self.sched().done();
            proof {
                assert(p0.skip(j)[0] == p0[j]);
            }
            self.process_job_at(0);
            proof {
                assert(p0.skip(j).remove(0) =~= p0.skip(j + 1));
                assert forall|m: int| 0 <= m < j + 1 implies crate::job::run_job_spec(
                    #[trigger] p0[m],
                    old(self).stages_view(),
                    old(self).meshers_view(),
                    old(self).blocks_reg(),
                    self.sched().done()[n0 + m],
                ) by {
                    let dnow = self.sched().done();
                    assert(dnow == dpre.push(dnow.last()));
                    if m < j {
                        assert(dpre.push(dnow.last())[n0 + m] == dpre[n0 + m]);
                    } else {
                        assert(n0 + m == dnow.len() - 1);
                        assert(dpre.push(dnow.last())[n0 + m] == dnow.last());
                    }
                }
                j = j + 1;
            }
        }
        proof {
            assert(p0.skip(j).len() == 0);
        }
    }

    /// The per-tick ingest: drain the scheduler and fold every
    /// result into the manager's state via `merge_one` — install
    /// finished chunks keyed by coordinate, discard stale results,
    /// re-dispatch failed generations while retries remain. Never
    /// blocks: it only consumes what is already finished.
    pub fn update(&mut self)
        requires
            old(self).wf(),
        ensures
            final(self).wf(),
            final(self).options == old(self).options,
            final(self).stages_view() == old(self).stages_view(),
            final(self).blocks_reg() == old(self).blocks_reg(),
            final(self).meshers_view() == old(self).meshers_view(),
            final(self).retries_max() == old(self).retries_max(),
            final(self).sched().started() == old(self).sched().started(),
            final(self).sched().cap() == old(self).sched().cap(),
            final(self).sched().done().len() == 0,
            final(self).merge_state() == merge_upto(
                old(self).merge_state(),
                old(self).sched().done(),
                old(self).sched().done().len() as int,
                old(self).retries_max(),
            ),
    {
        let mut results = self.scheduler.drain_completed();
        let ghost all = results@;
        let ghost s0 = MergeState {
            table: self.table(),
            done: self.done_list(),
            pending: self.sched().pending(),
            stale: self.stale_count(),
        };
        proof {
            assert(s0 == old(self).merge_state());
            assert(all.skip(0) =~= all);
        }
        let ghost mut k: int = 0;
        while results.len() > 0
            invariant
                self.wf(),
                self.options == old(self).options,
                self.stages_view() == old(self).stages_view(),
                self.blocks_reg() == old(self).blocks_reg(),
                self.meshers_view() == old(self).meshers_view(),
                self.retries_max() == old(self).retries_max(),
                self.sched().done().len() == 0,
                self.sched().started() == old(self).sched().started(),
                self.sched().cap() == old(self).sched().cap(),
                0 <= k <= all.len(),
                results@ == all.skip(k),
                forall|m: int| 0 <= m < all.len() ==> (#[trigger] all[m]).wf(),
                self.merge_state() == merge_upto(s0, all, k, old(self).retries_max()),
            decreases results@.len(),
        {
            let ghost pre = self.merge_state();
            let r = results.remove(0);
            proof {
                assert(all.skip(k)[0] == all[k]);
                assert(r == all[k]);
                assert(all.skip(k).drop_first() =~= all.skip(k + 1));
                assert(r.wf());
                lemma_find_in_bounds(self.table(), r.coords);
            }
            let slot_idx = self.find_slot(&r.coords);
            match slot_idx {
                None => {
                    if self.stale_discarded < u64::MAX {
                        self.stale_discarded = self.stale_discarded + 1;
                    }
                    proof {
                        assert(self.merge_state() == merge_one(pre, r, self.retries_max()));
                    }
                },
                Some(idx) => {
                    let retries_opt: Option<u32> = match &self.table[idx].1 {
                        ChunkSlot::Present(_) => None,
                        ChunkSlot::InFlight { retries } => Some(*retries),
                    };
                    match retries_opt {
                        None => {
                            if self.stale_discarded < u64::MAX {
                                self.stale_discarded = self.stale_discarded + 1;
                            }
                            proof {
                                assert(self.merge_state() == merge_one(
                                    pre,
                                    r,
                                    self.retries_max(),
                                ));
                            }
                        },
                        Some(retries) => {
                            let JobResult { coords, failed, chunk, geometry } = r;
                            if !failed || retries >= self.max_retries {
                                let status = chunk.status;
                                self.table[idx] = (coords, ChunkSlot::Present(chunk));
                                self.done.push(
                                    FinishedJob { coords, status, failed, geometry },
                                );
                                proof {
                                    assert(self.table() =~= pre.table.update(
                                        idx as int,
                                        self.table()[idx as int],
                                    ));
                                    self.lemma_table_update_wf(pre.table, idx as int);
                                    assert(self.done_list() == pre.done.push(finished_of(r)));
                                    assert(self.merge_state() == merge_one(
                                        pre,
                                        r,
                                        self.retries_max(),
                                    ));
                                }
                            } else {
                                let mut ch = chunk;
                                ch.status = ChunkStatus::Generating;
                                proof {
                                    assert(ch == r.chunk.with_status(ChunkStatus::Generating));
                                    r.chunk.lemma_with_status(ChunkStatus::Generating);
                                }
                                self.table[idx] = (
                                    coords,
                                    ChunkSlot::InFlight { retries: retries + 1 },
                                );
                                self.scheduler.enqueue(Job { chunk: ch, kind: JobKind::Full });
                                proof {
                                    assert(self.table() =~= pre.table.update(
                                        idx as int,
                                        self.table()[idx as int],
                                    ));
                                    self.lemma_table_update_wf(pre.table, idx as int);
                                    assert(self.merge_state() == merge_one(
                                        pre,
                                        r,
                                        self.retries_max(),
                                    ));
                                }
                            }
                        },
                    }
                },
            }
            proof {
                k = k + 1;
            }
        }
        proof {
            assert(all.skip(k).len() == 0);
            assert(k == all.len());
        }
    }

    /// After replacing the slot at `idx` (key kept, new slot
    /// well-formed) the table part of `wf` still holds.
    proof fn lemma_table_update_wf(self, pre: Seq<(Vec2, ChunkSlot)>, idx: int)
        requires
            0 <= idx < pre.len(),
            self.table() == pre.update(idx, self.table()[idx]),
            self.table()[idx].0 == pre[idx].0,
            match self.table()[idx].1 {
                ChunkSlot::Present(c) => c.wf() && c.coords == self.table()[idx].0,
                ChunkSlot::InFlight { .. } => true,
            },
            forall|i: int, j: int|
                0 <= i < j < pre.len() ==> (#[trigger] pre[i]).0 != (#[trigger] pre[j]).0,
            forall|i: int|
                0 <= i < pre.len() ==> match (#[trigger] pre[i]).1 {
                    ChunkSlot::Present(c) => c.wf() && c.coords == pre[i].0,
                    ChunkSlot::InFlight { .. } => true,
                },
        ensures
            forall|i: int, j: int|
                0 <= i < j < self.table().len() ==> (#[trigger] self.table()[i]).0 != (
                #[trigger] self.table()[j]).0,
            forall|i: int|
                0 <= i < self.table().len() ==> match (#[trigger] self.table()[i]).1 {
                    ChunkSlot::Present(c) => c.wf() && c.coords == self.table()[i].0,
                    ChunkSlot::InFlight { .. } => true,
                },
    {
        assert forall|i: int, j: int|
            0 <= i < j < self.table().len() implies (#[trigger] self.table()[i]).0 != (
        #[trigger] self.table()[j]).0 by {
            assert(self.table()[i].0 == pre[i].0);
            assert(self.table()[j].0 == pre[j].0);
        }
        assert forall|i: int|
            0 <= i < self.table().len() implies match (#[trigger] self.table()[i]).1 {
            ChunkSlot::Present(c) => c.wf() && c.coords == self.table()[i].0,
            ChunkSlot::InFlight { .. } => true,
        } by {
            if i != idx {
                assert(self.table()[i] == pre[i]);
            }
        }
    }

    /// Drain the "just finished" list: consume-once, the caller
    /// owns the results afterwards.
    pub fn take_done(&mut self) -> (r: Vec<FinishedJob>)
        requires
            old(self).wf(),
        ensures
            final(self).wf(),
            r@ == old(self).done_list(),
            final(self).done_list().len() == 0,
            final(self).table() == old(self).table(),
            final(self).sched() == old(self).sched(),
            final(self).options == old(self).options,
            final(self).stages_view() == old(self).stages_view(),
            final(self).blocks_reg() == old(self).blocks_reg(),
            final(self).meshers_view() == old(self).meshers_view(),
            final(self).stale_count() == old(self).stale_count(),
            final(self).retries_max() == old(self).retries_max(),
    {
        let mut r: Vec<FinishedJob> = Vec::new();
        core::mem::swap(&mut r, &mut self.done);
        r
    }

    /// Edit one voxel of a `Ready` chunk: set the block id, mark
    /// the chunk `Dirty`, and dispatch a mesh-only job so the edit
    /// is re-meshed without re-running generation stages (which
    /// would overwrite the edit). Fails fast — without touching
    /// anything — when the chunk is missing, not ready, the
    /// position is out of bounds, or the queue is at its watermark.
    pub fn set_block(&mut self, coords: &Vec2, vx: i32, vy: i32, vz: i32, id: u32) -> (r: Result<
        (),
        EditError,
    >)
        requires
            old(self).wf(),
        ensures
            final(self).wf(),
            final(self).options == old(self).options,
            final(self).stages_view() == old(self).stages_view(),
            final(self).blocks_reg() == old(self).blocks_reg(),
            final(self).meshers_view() == old(self).meshers_view(),
            final(self).done_list() == old(self).done_list(),
            final(self).stale_count() == old(self).stale_count(),
            final(self).retries_max() == old(self).retries_max(),
            final(self).sched().done() == old(self).sched().done(),
            final(self).sched().started() == old(self).sched().started(),
            final(self).sched().cap() == old(self).sched().cap(),
            r is Err ==> final(self).table() == old(self).table() && final(self).sched().pending()
                == old(self).sched().pending(),
            ({
                let i = find_in(old(self).table(), *coords);
                if i == -1 {
                    r == Result::<(), EditError>::Err(EditError::NoChunk)
                } else {
                    match old(self).table()[i].1 {
                        ChunkSlot::InFlight { .. } => r == Result::<(), EditError>::Err(
                            EditError::NotReady,
                        ),
                        ChunkSlot::Present(c) => {
                            if c.status != ChunkStatus::Ready {
                                r == Result::<(), EditError>::Err(EditError::NotReady)
                            } else if !c.spec_contains(vx as int, vy as int, vz as int) {
                                r == Result::<(), EditError>::Err(EditError::OutOfBounds)
                            } else if old(self).sched().pending().len() >= old(
                                self,
                            ).sched().cap() {
                                r == Result::<(), EditError>::Err(EditError::Saturated)
                            } else {
                                &&& r == Result::<(), EditError>::Ok(())
                                &&& final(self).table() == old(self).table().update(
                                    i,
                                    (*coords, ChunkSlot::InFlight { retries: 0 }),
                                )
                                &&& final(self).sched().pending() == old(
                                    self,
                                ).sched().pending().push(final(self).sched().pending().last())
                                &&& ({
                                    let job = final(self).sched().pending().last();
                                    &&& job.kind == JobKind::MeshOnly
                                    &&& job.chunk.wf()
                                    &&& job.chunk.coords == c.coords
                                    &&& job.chunk.min == c.min
                                    &&& job.chunk.options == c.options
                                    &&& job.chunk.status == ChunkStatus::Dirty
                                    &&& job.chunk.spec_block(
                                        vx - c.min.0,
                                        vy - c.min.1,
                                        vz - c.min.2,
                                    ) == id
                                    &&& forall|x: int, y: int, z: int|
                                        0 <= x < c.options.chunk_size && 0 <= y
                                            < c.options.max_height && 0 <= z
                                            < c.options.chunk_size && !(x == vx - c.min.0 && y
                                            == vy - c.min.1 && z == vz - c.min.2)
                                            ==> job.chunk.spec_block(x, y, z) == c.spec_block(
                                            x,
                                            y,
                                            z,
                                        )
                                })
                            }
                        },
                    }
                }
            }),
    {
        let slot_idx = match self.find_slot(coords) {
            None => {
                return Err(EditError::NoChunk);
            },
            Some(i) => i,
        };
        let ready = match &self.table[slot_idx].1 {
            ChunkSlot::InFlight { .. } => false,
            ChunkSlot::Present(c) => c.status == ChunkStatus::Ready,
        };
        if !ready {
            return Err(EditError::NotReady);
        }
        let in_bounds = match &self.table[slot_idx].1 {
            ChunkSlot::Present(c) => c.contains(vx, vy, vz),
            ChunkSlot::InFlight { .. } => false,
        };
        if !in_bounds {
            return Err(EditError::OutOfBounds);
        }
        if self.scheduler.is_full() {
            return Err(EditError::Saturated);
        }
        let mut slot = ChunkSlot::InFlight { retries: 0 };
        core::mem::swap(&mut self.table[slot_idx].1, &mut slot);
        match slot {
            ChunkSlot::Present(mut ch) => {
                ch.set_block_id(vx, vy, vz, id);
                ch.status = ChunkStatus::Dirty;
                let res = self.scheduler.submit(Job { chunk: ch, kind: JobKind::MeshOnly });
                proof {
                    let pre = old(self).table();
                    let i = slot_idx as int;
                    lemma_find_in_bounds(pre, *coords);
                    assert(self.table() =~= pre.update(i, self.table()[i]));
                    self.lemma_table_update_wf(pre, i);
                }
                Ok(())
            },
            ChunkSlot::InFlight { .. } => {
                proof {
                    assert(false);
                }
                Err(EditError::NotReady)
            },
        }
    }
}

} // verus!
