//! Jobs: one chunk's pipeline-and-mesh work unit.
//!
//! A job owns its chunk outright. Once submitted, the submitting
//! side keeps no reference to the chunk until the result returns:
//! this exclusive handoff is what makes cross-thread mutation safe
//! without locking the chunk itself.

use vstd::prelude::*;
use crate::block::BlockRegistry;
use crate::chunk::{Chunk, ChunkStatus};
use crate::mesher::{gviews, mesh_chunk, mesh_grid, GeometryData, MesherRegistry};
use crate::stage::{apply_pipeline, run_pipeline, ChunkStage};
use crate::vec::Vec2;

verus! {

/// What a job runs over its chunk: the full pipeline followed by
/// meshing, or meshing alone (after an edit, so generation stages
/// cannot overwrite the edit).
#[derive(Clone, Copy, Debug, PartialEq, Eq, Structural)]
pub enum JobKind {
    Full,
    MeshOnly,
}

/// A unit of work: the chunk, exclusively owned while in flight,
/// and what to run over it. Stage list and registries are shared by
/// every job of a manager and travel alongside, not inside.
pub struct Job {
    pub chunk: Chunk,
    pub kind: JobKind,
}

impl Job {
    pub open spec fn wf(self) -> bool {
        self.chunk.wf()
    }
}

/// A finished job: the processed chunk and its assembled geometry,
/// ready for serialization. `failed` marks a generation failure; a
/// failed result carries no geometry.
pub struct JobResult {
    pub coords: Vec2,
    pub failed: bool,
    pub chunk: Chunk,
    pub geometry: Vec<GeometryData>,
}

impl JobResult {
    pub open spec fn wf(self) -> bool {
        &&& self.chunk.wf()
        &&& self.coords == self.chunk.coords
    }
}

/// What a job's result must look like, given the job and the shared
/// stage list and registries.
pub open spec fn run_job_spec(
    job: Job,
    stages: Seq<ChunkStage>,
    meshers: Seq<crate::mesher::Mesher>,
    registry: BlockRegistry,
    r: JobResult,
) -> bool {
    &&& r.chunk.coords == job.chunk.coords
    &&& r.chunk.min == job.chunk.min
    &&& r.chunk.options == job.chunk.options
    &&& (job.kind == JobKind::Full ==> match apply_pipeline(
        stages,
        job.chunk.grid(),
        job.chunk.min,
        job.chunk.options,
    ) {
        Some(g) => {
            &&& !r.failed
            &&& r.chunk.status == ChunkStatus::Ready
            &&& r.chunk.grid() == g
            &&& gviews(r.geometry@) == mesh_grid(
                meshers,
                registry,
                g,
                job.chunk.min,
                job.chunk.options,
            )
        },
        None => {
            &&& r.failed
            &&& r.chunk.status == ChunkStatus::GenerationFailed
            &&& r.geometry@.len() == 0
        },
    })
    &&& (job.kind == JobKind::MeshOnly ==> {
        &&& !r.failed
        &&& r.chunk.status == ChunkStatus::Ready
        &&& r.chunk.grid() == job.chunk.grid()
        &&& gviews(r.geometry@) == mesh_grid(
            meshers,
            registry,
            job.chunk.grid(),
            job.chunk.min,
            job.chunk.options,
        )
    })
}

/// Execute one job: run the stage pipeline (for a full job), then
/// mesh the result. A stage failure aborts the job and marks the
/// chunk `GenerationFailed`; the pipeline's partial content is kept
/// on the chunk but never meshed or reported as ready.
pub fn run_job(
    job: Job,
    stages: &Vec<ChunkStage>,
    meshers: &MesherRegistry,
    registry: &BlockRegistry,
) -> (r: JobResult)
    requires
        job.wf(),
    ensures
        r.wf(),
        r.coords == job.chunk.coords,
        run_job_spec(job, stages@, meshers@, *registry, r),
{
    let mut chunk = job.chunk;
    match job.kind {
        JobKind::Full => {
            chunk.status = ChunkStatus::Generating;
            let ok = run_pipeline(stages, &mut chunk);
            if !ok {
                chunk.status = ChunkStatus::GenerationFailed;
                let coords = chunk.coords;
                return JobResult { coords, failed: true, chunk, geometry: Vec::new() };
            }
            chunk.status = ChunkStatus::Meshing;
            let geometry = mesh_chunk(&chunk, meshers, registry);
            chunk.status = ChunkStatus::Ready;
            let coords = chunk.coords;
            JobResult { coords, failed: false, chunk, geometry }
        },
        JobKind::MeshOnly => {
            chunk.status = ChunkStatus::Meshing;
            let geometry = mesh_chunk(&chunk, meshers, registry);
            chunk.status = ChunkStatus::Ready;
            let coords = chunk.coords;
            JobResult { coords, failed: false, chunk, geometry }
        },
    }
}

} // verus!
