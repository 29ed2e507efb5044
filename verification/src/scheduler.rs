//! The job scheduler: the state machine a fixed worker pool drives.
//!
//! The owning tick thread submits jobs and drains finished ones; a
//! worker finishing a job is the `complete_job_at` step, which may
//! happen in any order over the queue — different chunks take
//! different times, so results complete out of submission order and
//! the caller merges them by coordinate. Draining never blocks: it
//! only hands back what is already finished, possibly nothing.

use vstd::prelude::*;
use crate::block::BlockRegistry;
use crate::job::{run_job, run_job_spec, Job, JobResult};
use crate::mesher::MesherRegistry;
use crate::stage::ChunkStage;

verus! {

/// Errors of the scheduler boundary. Queue saturation is not an
/// error here: callers test `is_full` and surface it themselves.
#[derive(Clone, Copy, Debug, PartialEq, Eq, Structural)]
pub enum SchedulerError {
    /// `start` was called on a scheduler that already started.
    AlreadyStarted,
}

/// The shared queues between the owning tick thread and the worker
/// pool, modelled as plain state: a pending queue and a finished
/// queue, plus the one-shot started flag of the pool.
pub struct JobScheduler {
    started: bool,
    worker_count: usize,
    cap: usize,
    pending: Vec<Job>,
    done: Vec<JobResult>,
}

impl JobScheduler {
    pub closed spec fn started(self) -> bool {
        self.started
    }

    pub closed spec fn worker_count(self) -> usize {
        self.worker_count
    }

    pub closed spec fn cap(self) -> usize {
        self.cap
    }

    /// The jobs submitted and not yet finished, in submission order.
    pub closed spec fn pending(self) -> Seq<Job> {
        self.pending@
    }

    /// The finished jobs not yet drained, in completion order.
    pub closed spec fn done(self) -> Seq<JobResult> {
        self.done@
    }

    /// Every queued job and finished result is well-formed.
    pub open spec fn wf(self) -> bool {
        &&& forall|i: int| 0 <= i < self.pending().len() ==> (#[trigger] self.pending()[i]).wf()
        &&& forall|i: int| 0 <= i < self.done().len() ==> (#[trigger] self.done()[i]).wf()
    }

    /// A scheduler with no workers started and empty queues;
    /// `cap` is the backpressure watermark on the pending queue.
    pub fn new(cap: usize) -> (r: Self)
        ensures
            r.wf(),
            !r.started(),
            r.cap() == cap,
            r.pending().len() == 0,
            r.done().len() == 0,
    {
        JobScheduler { started: false, worker_count: 0, cap, pending: Vec::new(), done: Vec::new() }
    }

    /// Spin up the fixed worker pool once. Starting twice is an
    /// error and changes nothing.
    pub fn start(&mut self, worker_count: usize) -> (r: Result<(), SchedulerError>)
        ensures
            old(self).started() ==> r == Result::<(), SchedulerError>::Err(
                SchedulerError::AlreadyStarted,
            ) && *final(self) == *old(self),
            !old(self).started() ==> r == Result::<(), SchedulerError>::Ok(())
                && final(self).started() && final(self).worker_count() == worker_count,
            final(self).pending() == old(self).pending(),
            final(self).done() == old(self).done(),
            final(self).cap() == old(self).cap(),
    {
        if self.started {
            return Err(SchedulerError::AlreadyStarted);
        }
        self.started = true;
        self.worker_count = worker_count;
        Ok(())
    }

    /// Whether the pending queue stands at its watermark.
    pub fn is_full(&self) -> (r: bool)
        ensures
            r == (self.pending().len() >= self.cap()),
    {
        self.pending.len() >= self.cap
    }

    /// Hand a job to the pool: a bounded enqueue, nothing more.
    /// Callers check `is_full` first and surface saturation
    /// distinctly; an internal retry uses `enqueue` and may pass the
    /// watermark.
    pub fn submit(&mut self, job: Job) -> (r: Result<(), SchedulerError>)
        requires
            old(self).wf(),
            job.wf(),
            old(self).pending().len() < old(self).cap(),
        ensures
            final(self).wf(),
            r == Result::<(), SchedulerError>::Ok(()),
            final(self).pending() == old(self).pending().push(job),
            final(self).done() == old(self).done(),
            final(self).started() == old(self).started(),
            final(self).cap() == old(self).cap(),
            final(self).worker_count() == old(self).worker_count(),
    {
        self.pending.push(job);
        proof {
            self.lemma_wf_after_push(*old(self), job);
        }
        Ok(())
    }

    /// Pushing a well-formed job onto a well-formed scheduler's
    /// queue keeps the scheduler well-formed.
    proof fn lemma_wf_after_push(self, pre: Self, job: Job)
        requires
            pre.wf(),
            job.wf(),
            self.pending() == pre.pending().push(job),
            self.done() == pre.done(),
        ensures
            self.wf(),
    {
        assert forall|i: int| 0 <= i < self.pending().len() implies (
        #[trigger] self.pending()[i]).wf() by {
            if i < pre.pending().len() {
                assert(self.pending()[i] == pre.pending()[i]);
            } else {
                assert(self.pending()[i] == job);
            }
        }
    }

    /// Enqueue past the watermark: reserved for the manager's
    /// bounded retry of failed generations.
    pub(crate) fn enqueue(&mut self, job: Job)
        requires
            old(self).wf(),
            job.wf(),
        ensures
            final(self).wf(),
            final(self).pending() == old(self).pending().push(job),
            final(self).done() == old(self).done(),
            final(self).started() == old(self).started(),
            final(self).cap() == old(self).cap(),
            final(self).worker_count() == old(self).worker_count(),
    {
        self.pending.push(job);
        proof {
            self.lemma_wf_after_push(*old(self), job);
        }
    }

    /// One worker finishes the pending job at `i`: it runs the
    /// stage pipeline and the mesher and moves the result to the
    /// finished queue. Workers pick jobs in any order, so `i` is
    /// arbitrary.
    pub fn complete_job_at(
        &mut self,
        i: usize,
        stages: &Vec<ChunkStage>,
        meshers: &MesherRegistry,
        registry: &BlockRegistry,
    )
        requires
            old(self).wf(),
            i < old(self).pending().len(),
        ensures
            final(self).wf(),
            final(self).pending() == old(self).pending().remove(i as int),
            final(self).done().len() == old(self).done().len() + 1,
            final(self).done() == old(self).done().push(final(self).done().last()),
            final(self).done().last().wf(),
            final(self).done().last().coords == old(self).pending()[i as int].chunk.coords,
            run_job_spec(
                old(self).pending()[i as int],
                stages@,
                meshers@,
                *registry,
                final(self).done().last(),
            ),
            final(self).started() == old(self).started(),
            final(self).cap() == old(self).cap(),
            final(self).worker_count() == old(self).worker_count(),
    {
        proof {
            assert(old(self).pending()[i as int].wf());
        }
        let job = self.pending.remove(i);
        let res = run_job(job, stages, meshers, registry);
        self.done.push(res);
        proof {
            assert forall|k: int| 0 <= k < self.pending().len() implies (
            #[trigger] self.pending()[k]).wf() by {
                if k < i {
                    assert(self.pending()[k] == old(self).pending()[k]);
                } else {
                    assert(self.pending()[k] == old(self).pending()[k + 1]);
                }
            }
            assert forall|k: int| 0 <= k < self.done().len() implies (
            #[trigger] self.done()[k]).wf() by {
                if k < old(self).done().len() {
                    assert(self.done()[k] == old(self).done()[k]);
                } else {
                    assert(self.done()[k] == res);
                }
            }
        }
    }

    /// Drain the finished queue: return whatever is finished,
    /// possibly nothing, and return immediately either way. This is
    /// the non-blocking boundary between the pool and the tick.
    pub fn drain_completed(&mut self) -> (r: Vec<JobResult>)
        requires
            old(self).wf(),
        ensures
            final(self).wf(),
            r@ == old(self).done(),
            final(self).done().len() == 0,
            final(self).pending() == old(self).pending(),
            final(self).started() == old(self).started(),
            final(self).cap() == old(self).cap(),
            final(self).worker_count() == old(self).worker_count(),
    {
        let mut r: Vec<JobResult> = Vec::new();
        core::mem::swap(&mut r, &mut self.done);
        proof {
            assert(self.pending@ == old(self).pending());
            assert(self.done@.len() == 0);
        }
        r
    }

    /// How many jobs wait in the queue.
    pub fn pending_len(&self) -> (r: usize)
        ensures
            r == self.pending().len(),
    {
        self.pending.len()
    }

    /// How many finished jobs wait to be drained.
    pub fn done_len(&self) -> (r: usize)
        ensures
            r == self.done().len(),
    {
        self.done.len()
    }
}

} // verus!
