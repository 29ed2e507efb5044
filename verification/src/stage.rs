//! The stage pipeline: an ordered list of pure chunk transforms.
//!
//! Stages run strictly in registration order; stage *i* always sees
//! the output of stage *i-1*. Each stage is a function of the chunk's
//! content and placement alone, so pipeline output is deterministic.
//! A stage whose precondition does not hold stops the pipeline for
//! that chunk; the caller marks the chunk as failed instead of
//! keeping a partially built result.

use vstd::prelude::*;
use crate::chunk::{Chunk, ChunkOptions, Grid};
use crate::vec::Vec3;

verus! {

/// A chunk transform. The closed set of stage kinds stands in for
/// the registered-strategy table: each variant is one pure transform
/// over the chunk's voxel content.
#[derive(Clone, Copy, Debug, PartialEq, Eq, Structural)]
pub enum ChunkStage {
    /// Set every voxel in the horizontal layer at world height `y`.
    FlatLayer { y: i32, block_id: u32 },
    /// Set every voxel with world height in `from_y..to_y`.
    FillRange { from_y: i32, to_y: i32, block_id: u32 },
}

impl ChunkStage {
    /// Human-readable stage name, as shown in diagnostics.
    pub fn name(&self) -> &'static str {
        match self {
            ChunkStage::FlatLayer { .. } => "flat layer",
            ChunkStage::FillRange { .. } => "fill range",
        }
    }
}

/// `g` with every voxel in local rows `ly0..ly1` set to `id` and all
/// other voxels kept.
pub open spec fn fill_rows(g: Grid, ly0: int, ly1: int, id: u32) -> Grid {
    Seq::new(
        g.len(),
        |x: int|
            Seq::new(
                g[x].len(),
                |y: int|
                    if ly0 <= y < ly1 {
                        Seq::new(g[x][y].len(), |z: int| id)
                    } else {
                        g[x][y]
                    },
            ),
    )
}

/// Whether the stage's precondition holds for a chunk placed at
/// `min` under `options`: its target rows must lie inside the
/// chunk's vertical extent.
pub open spec fn stage_ok(stage: ChunkStage, min: Vec3, options: ChunkOptions) -> bool {
    match stage {
        ChunkStage::FlatLayer { y, .. } => min.1 <= y < min.1 + options.max_height,
        ChunkStage::FillRange { from_y, to_y, .. } => min.1 <= from_y <= to_y <= min.1
            + options.max_height,
    }
}

/// The content a stage produces from `g` for a chunk placed at `min`.
pub open spec fn apply_stage(stage: ChunkStage, g: Grid, min: Vec3) -> Grid {
    match stage {
        ChunkStage::FlatLayer { y, block_id } => fill_rows(g, y - min.1, y - min.1 + 1, block_id),
        ChunkStage::FillRange { from_y, to_y, block_id } => fill_rows(
            g,
            from_y - min.1,
            to_y - min.1,
            block_id,
        ),
    }
}

/// The content the whole pipeline produces, stage by stage in order,
/// or `None` if some stage's precondition fails along the way.
pub open spec fn apply_pipeline(
    stages: Seq<ChunkStage>,
    g: Grid,
    min: Vec3,
    options: ChunkOptions,
) -> Option<Grid>
    decreases stages.len(),
{
    if stages.len() == 0 {
        Some(g)
    } else if !stage_ok(stages[0], min, options) {
        None
    } else {
        apply_pipeline(stages.drop_first(), apply_stage(stages[0], g, min), min, options)
    }
}

/// Law: the stage pipeline is deterministic. Running the same
/// ordered stage list on two chunks with the same initial content
/// and placement yields the same block content (or fails on both).
pub proof fn lemma_pipeline_deterministic(stages: Seq<ChunkStage>, a: Chunk, b: Chunk)
    requires
        a.same_content(b),
    ensures
        apply_pipeline(stages, a.grid(), a.min, a.options) == apply_pipeline(
            stages,
            b.grid(),
            b.min,
            b.options,
        ),
{
}

/// Set every voxel in local rows `ly0..ly1` of `chunk` to `id`.
fn fill_rows_exec(chunk: &mut Chunk, ly0: usize, ly1: usize, id: u32)
    requires
        old(chunk).wf(),
        ly0 <= ly1 <= old(chunk).options.max_height,
    ensures
        final(chunk).wf(),
        final(chunk).coords == old(chunk).coords,
        final(chunk).min == old(chunk).min,
        final(chunk).options == old(chunk).options,
        final(chunk).status == old(chunk).status,
        final(chunk).grid() == fill_rows(old(chunk).grid(), ly0 as int, ly1 as int, id),
{
    let ghost g0 = chunk.grid();
    let size = chunk.options.chunk_size as usize;
    let mut lx: usize = 0;
    while lx < size
        invariant
            chunk.wf(),
            chunk.coords == old(chunk).coords,
            chunk.min == old(chunk).min,
            chunk.options == old(chunk).options,
            chunk.status == old(chunk).status,
            size == chunk.options.chunk_size,
            ly0 <= ly1 <= chunk.options.max_height,
            lx <= size,
            g0 == old(chunk).grid(),
            chunk.grid().len() == g0.len(),
            forall|x: int, y: int, z: int|
                0 <= x < size && 0 <= y < chunk.options.max_height && 0 <= z < size
                    ==> #[trigger] chunk.spec_block(x, y, z) == (
                    if ly0 <= y < ly1 && x < lx {
                        id
                    } else {
                        g0[x][y][z]
                    }),
        decreases size - lx,
    {
        let mut ly: usize = ly0;
        while ly < ly1
            invariant
                chunk.wf(),
                chunk.coords == old(chunk).coords,
                chunk.min == old(chunk).min,
                chunk.options == old(chunk).options,
                chunk.status == old(chunk).status,
                size == chunk.options.chunk_size,
                ly0 <= ly1 <= chunk.options.max_height,
                lx < size,
                ly0 <= ly <= ly1,
                g0 == old(chunk).grid(),
                forall|x: int, y: int, z: int|
                    0 <= x < size && 0 <= y < chunk.options.max_height && 0 <= z < size
                        ==> #[trigger] chunk.spec_block(x, y, z) == (
                        if ly0 <= y < ly1 && (x < lx || (x == lx && y < ly)) {
                            id
                        } else {
                            g0[x][y][z]
                        }),
            decreases ly1 - ly,
        {
            let mut lz: usize = 0;
            while lz < size
                invariant
                    chunk.wf(),
                    chunk.coords == old(chunk).coords,
                    chunk.min == old(chunk).min,
                    chunk.options == old(chunk).options,
                    chunk.status == old(chunk).status,
                    size == chunk.options.chunk_size,
                    ly0 <= ly1 <= chunk.options.max_height,
                    lx < size,
                    ly0 <= ly < ly1,
                    lz <= size,
                    g0 == old(chunk).grid(),
                    forall|x: int, y: int, z: int|
                        0 <= x < size && 0 <= y < chunk.options.max_height && 0 <= z < size
                            ==> #[trigger] chunk.spec_block(x, y, z) == (
                            if ly0 <= y < ly1 && (x < lx || (x == lx && (y < ly || (y == ly && z
                                < lz)))) {
                                id
                            } else {
                                g0[x][y][z]
                            }),
                decreases size - lz,
            {
                let vx = chunk.min.0 + lx as i32;
                let vy = chunk.min.1 + ly as i32;
                let vz = chunk.min.2 + lz as i32;
                chunk.set_block_id(vx, vy, vz, id);
                lz += 1;
            }
            ly += 1;
        }
        lx += 1;
    }
    proof {
        let gf = fill_rows(g0, ly0 as int, ly1 as int, id);
        assert forall|x: int| 0 <= x < chunk.grid().len() implies chunk.grid()[x] =~~= gf[x] by {
            assert(chunk.grid()[x].len() == chunk.options.max_height);
            assert(g0[x].len() == chunk.options.max_height);
            assert forall|y: int| 0 <= y < chunk.grid()[x].len() implies chunk.grid()[x][y] =~~= gf[x][y] by {
                assert(chunk.grid()[x][y].len() == chunk.options.chunk_size);
                assert(g0[x][y].len() == chunk.options.chunk_size);
                assert forall|z: int|
                    0 <= z < chunk.grid()[x][y].len() implies chunk.grid()[x][y][z] == gf[x][y][z] by {
                    assert(chunk.spec_block(x, y, z) == (
                        if ly0 <= y < ly1 && x < size {
                            id
                        } else {
                            g0[x][y][z]
                        }));
                }
            }
        }
        assert(chunk.grid() =~~= gf);
    }
}

/// Run one stage over `chunk`. Returns whether the stage's
/// precondition held; on failure the chunk's content is untouched.
pub fn process_stage(stage: &ChunkStage, chunk: &mut Chunk) -> (ok: bool)
    requires
        old(chunk).wf(),
    ensures
        final(chunk).wf(),
        final(chunk).coords == old(chunk).coords,
        final(chunk).min == old(chunk).min,
        final(chunk).options == old(chunk).options,
        final(chunk).status == old(chunk).status,
        ok == stage_ok(*stage, old(chunk).min, old(chunk).options),
        ok ==> final(chunk).grid() == apply_stage(*stage, old(chunk).grid(), old(chunk).min),
        !ok ==> final(chunk).grid() == old(chunk).grid(),
{
    match stage {
        ChunkStage::FlatLayer { y, block_id } => {
            let y = *y;
            let block_id = *block_id;
            if y < chunk.min.1 || y >= chunk.min.1 + chunk.options.max_height as i32 {
                return false;
            }
            let ly = (y - chunk.min.1) as usize;
            fill_rows_exec(chunk, ly, ly + 1, block_id);
            true
        },
        ChunkStage::FillRange { from_y, to_y, block_id } => {
            let from_y = *from_y;
            let to_y = *to_y;
            let block_id = *block_id;
            if from_y < chunk.min.1 || from_y > to_y || to_y > chunk.min.1
                + chunk.options.max_height as i32 {
                return false;
            }
            let ly0 = (from_y - chunk.min.1) as usize;
            let ly1 = (to_y - chunk.min.1) as usize;
            fill_rows_exec(chunk, ly0, ly1, block_id);
            true
        },
    }
}

/// Run every stage over `chunk`, in registration order. Returns
/// whether all stages completed; the resulting content is exactly
/// what `apply_pipeline` states.
pub fn run_pipeline(stages: &Vec<ChunkStage>, chunk: &mut Chunk) -> (ok: bool)
    requires
        old(chunk).wf(),
    ensures
        final(chunk).wf(),
        final(chunk).coords == old(chunk).coords,
        final(chunk).min == old(chunk).min,
        final(chunk).options == old(chunk).options,
        final(chunk).status == old(chunk).status,
        match apply_pipeline(stages@, old(chunk).grid(), old(chunk).min, old(chunk).options) {
            Some(g) => ok && final(chunk).grid() == g,
            None => !ok,
        },
{
    let ghost full = apply_pipeline(stages@, old(chunk).grid(), old(chunk).min, old(chunk).options);
    let n = stages.len();
    proof {
        assert(stages@.skip(0) =~= stages@);
    }
    let mut i: usize = 0;
    while i < n
        invariant
            chunk.wf(),
            chunk.coords == old(chunk).coords,
            chunk.min == old(chunk).min,
            chunk.options == old(chunk).options,
            chunk.status == old(chunk).status,
            n == stages@.len(),
            i <= n,
            full == apply_pipeline(stages@, old(chunk).grid(), old(chunk).min, old(chunk).options),
            apply_pipeline(stages@.skip(i as int), chunk.grid(), chunk.min, chunk.options) == full,
        decreases n - i,
    {
        let ghost pre = chunk.grid();
        let ok = process_stage(&stages[i], chunk);
        proof {
            assert(stages@.skip(i as int)[0] == stages@[i as int]);
            assert(stages@.skip(i as int).drop_first() =~= stages@.skip(i as int + 1));
        }
        if !ok {
            return false;
        }
        i += 1;
    }
    proof {
        assert(stages@.skip(n as int) =~= Seq::<ChunkStage>::empty());
    }
    true
}

} // verus!
