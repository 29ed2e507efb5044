//! The chunk: a bounded 3D voxel grid plus lifecycle metadata.
//!
//! A chunk owns a dense block-id grid sized by [`ChunkOptions`], knows
//! its minimum world-space corner (coordinate × chunk size), and
//! carries a lifecycle status. Voxel access is by absolute world
//! coordinate, translated internally to local grid indices; the chunk
//! owns the edge policy, and an out-of-range access is excluded by
//! contract rather than clamped.

use vstd::prelude::*;
use crate::vec::{Vec2, Vec3};

verus! {

/// The voxel content of a chunk, indexed `[x][y][z]` in local
/// coordinates.
pub type Grid = Seq<Seq<Seq<u32>>>;

/// Lifecycle of a chunk. A chunk only moves forward; it re-enters
/// `Generating` or `Meshing` only on an explicit re-request or edit.
#[derive(Clone, Copy, Debug, PartialEq, Eq, Structural)]
pub enum ChunkStatus {
    Requested,
    Generating,
    Meshing,
    Ready,
    Dirty,
    GenerationFailed,
}

/// Immutable configuration shared by every chunk of a manager:
/// horizontal size, world height, number of vertical sub-divisions
/// (a presentation grouping for clients), and the margin width used
/// for neighbor-aware decisions at chunk borders.
#[derive(Clone, Copy, Debug, PartialEq, Eq, Structural)]
pub struct ChunkOptions {
    pub chunk_size: u32,
    pub max_height: u32,
    pub sub_divisions: u32,
    pub margin: u32,
}

impl ChunkOptions {
    /// Sizes are bounded so grids fit comfortably in memory and all
    /// world-coordinate arithmetic stays inside `i32`.
    pub open spec fn wf(self) -> bool {
        &&& 1 <= self.chunk_size <= 512
        &&& 1 <= self.max_height <= 4096
        &&& 1 <= self.sub_divisions
    }

    pub fn new(chunk_size: u32, max_height: u32, sub_divisions: u32, margin: u32) -> (r: Self)
        requires
            1 <= chunk_size <= 512,
            1 <= max_height <= 4096,
            1 <= sub_divisions,
        ensures
            r == (ChunkOptions { chunk_size, max_height, sub_divisions, margin }),
            r.wf(),
    {
        ChunkOptions { chunk_size, max_height, sub_divisions, margin }
    }
}

/// A bounded voxel grid with metadata. Well-formed callers go
/// through the world-coordinate accessors, which keep the grid's
/// dimensions intact.
pub struct Chunk {
    pub coords: Vec2,
    pub min: Vec3,
    pub options: ChunkOptions,
    pub status: ChunkStatus,
    pub blocks: Vec<Vec<Vec<u32>>>,
}

impl Chunk {
    /// The voxel content as a mathematical grid.
    pub open spec fn grid(self) -> Grid {
        Seq::new(
            self.blocks@.len(),
            |x: int| Seq::new(self.blocks@[x]@.len(), |y: int| self.blocks@[x]@[y]@),
        )
    }

    /// The grid has exactly the dimensions the options prescribe.
    pub open spec fn grid_wf(self) -> bool {
        &&& self.grid().len() == self.options.chunk_size
        &&& forall|x: int|
            0 <= x < self.grid().len() ==> (#[trigger] self.grid()[x]).len()
                == self.options.max_height
        &&& forall|x: int, y: int|
            0 <= x < self.grid().len() && 0 <= y < self.options.max_height
                ==> (#[trigger] self.grid()[x][y]).len() == self.options.chunk_size
    }

    /// Well-formedness: valid options, correctly sized grid, and a
    /// minimum corner that matches the coordinate and keeps every
    /// voxel position inside `i32`.
    pub open spec fn wf(self) -> bool {
        &&& self.options.wf()
        &&& self.grid_wf()
        &&& self.min.0 == self.coords.0 * self.options.chunk_size
        &&& self.min.1 == 0
        &&& self.min.2 == self.coords.1 * self.options.chunk_size
        &&& i32::MIN < self.min.0
        &&& self.min.0 + self.options.chunk_size < i32::MAX
        &&& i32::MIN < self.min.2
        &&& self.min.2 + self.options.chunk_size < i32::MAX
    }

    /// The block id at local grid position `(lx, ly, lz)`.
    pub open spec fn spec_block(self, lx: int, ly: int, lz: int) -> u32 {
        self.grid()[lx][ly][lz]
    }

    /// Whether world position `(vx, vy, vz)` lies inside this chunk.
    pub open spec fn spec_contains(self, vx: int, vy: int, vz: int) -> bool {
        &&& self.min.0 <= vx < self.min.0 + self.options.chunk_size
        &&& self.min.1 <= vy < self.min.1 + self.options.max_height
        &&& self.min.2 <= vz < self.min.2 + self.options.chunk_size
    }

    /// Two chunks carry the same meshing-relevant content.
    pub open spec fn same_content(self, other: Chunk) -> bool {
        &&& self.grid() == other.grid()
        &&& self.min == other.min
        &&& self.options == other.options
    }

    /// `self` with only the status replaced.
    pub open spec fn with_status(self, status: ChunkStatus) -> Chunk {
        Chunk { status, ..self }
    }

    /// What `with_status` keeps and what it changes.
    pub proof fn lemma_with_status(self, status: ChunkStatus)
        ensures
            self.with_status(status).status == status,
            self.with_status(status).coords == self.coords,
            self.with_status(status).min == self.min,
            self.with_status(status).options == self.options,
            self.with_status(status).grid() == self.grid(),
            self.wf() ==> self.with_status(status).wf(),
    {
    }

    /// The raw nested vectors have the dimensions `grid_wf` states of
    /// the mathematical grid.
    pub proof fn lemma_dims(self)
        requires
            self.grid_wf(),
        ensures
            self.blocks@.len() == self.options.chunk_size,
            forall|x: int|
                0 <= x < self.blocks@.len() ==> (#[trigger] self.blocks@[x])@.len()
                    == self.options.max_height,
            forall|x: int, y: int|
                0 <= x < self.blocks@.len() && 0 <= y < self.options.max_height
                    ==> (#[trigger] self.blocks@[x]@[y])@.len() == self.options.chunk_size,
    {
        assert(self.grid().len() == self.blocks@.len());
        assert forall|x: int| 0 <= x < self.blocks@.len() implies (#[trigger] self.blocks@[x])@.len()
            == self.options.max_height by {
            assert(self.grid()[x].len() == self.blocks@[x]@.len());
        }
        assert forall|x: int, y: int|
            0 <= x < self.blocks@.len() && 0 <= y < self.options.max_height implies (
        #[trigger] self.blocks@[x]@[y])@.len() == self.options.chunk_size by {
            assert(self.grid()[x][y].len() == self.blocks@[x]@[y]@.len());
        }
    }

    /// A fresh all-air chunk for `coords`, in `Requested` status.
    pub fn new(coords: Vec2, options: ChunkOptions) -> (c: Self)
        requires
            options.wf(),
            i32::MIN < coords.0 * options.chunk_size,
            coords.0 * options.chunk_size + options.chunk_size < i32::MAX,
            i32::MIN < coords.1 * options.chunk_size,
            coords.1 * options.chunk_size + options.chunk_size < i32::MAX,
        ensures
            c.wf(),
            c.coords == coords,
            c.options == options,
            c.status == ChunkStatus::Requested,
            forall|x: int, y: int, z: int|
                0 <= x < options.chunk_size && 0 <= y < options.max_height && 0 <= z
                    < options.chunk_size ==> c.spec_block(x, y, z) == 0u32,
    {
        let size = options.chunk_size as usize;
        let height = options.max_height as usize;
        let mut blocks: Vec<Vec<Vec<u32>>> = Vec::new();
        let mut x: usize = 0;
        while x < size
            invariant
                blocks@.len() == x,
                x <= size,
                forall|i: int| 0 <= i < x ==> (#[trigger] blocks@[i])@.len() == height,
                forall|i: int, j: int|
                    0 <= i < x && 0 <= j < height ==> (#[trigger] blocks@[i]@[j])@.len() == size,
                forall|i: int, j: int, k: int|
                    0 <= i < x && 0 <= j < height && 0 <= k < size
                        ==> (#[trigger] blocks@[i]@[j]@[k]) == 0u32,
            decreases size - x,
        {
            let mut col: Vec<Vec<u32>> = Vec::new();
            let mut y: usize = 0;
            while y < height
                invariant
                    col@.len() == y,
                    y <= height,
                    forall|j: int| 0 <= j < y ==> (#[trigger] col@[j])@.len() == size,
                    forall|j: int, k: int|
                        0 <= j < y && 0 <= k < size ==> (#[trigger] col@[j]@[k]) == 0u32,
                decreases height - y,
            {
                let mut row: Vec<u32> = Vec::new();
                let mut z: usize = 0;
                while z < size
                    invariant
                        row@.len() == z,
                        z <= size,
                        forall|k: int| 0 <= k < z ==> (#[trigger] row@[k]) == 0u32,
                    decreases size - z,
                {
                    row.push(0u32);
                    z += 1;
                }
                col.push(row);
                y += 1;
            }
            blocks.push(col);
            x += 1;
        }
        let min_x: i32 = coords.0 * (options.chunk_size as i32);
        let min_z: i32 = coords.1 * (options.chunk_size as i32);
        let c = Chunk {
            coords,
            min: Vec3(min_x, 0, min_z),
            options,
            status: ChunkStatus::Requested,
            blocks,
        };
        c
    }

    /// Whether world position `(vx, vy, vz)` lies inside this chunk.
    pub fn contains(&self, vx: i32, vy: i32, vz: i32) -> (r: bool)
        requires
            self.wf(),
        ensures
            r == self.spec_contains(vx as int, vy as int, vz as int),
    {
        vx >= self.min.0 && vx < self.min.0 + self.options.chunk_size as i32
            && vy >= self.min.1 && vy < self.min.1 + self.options.max_height as i32
            && vz >= self.min.2 && vz < self.min.2 + self.options.chunk_size as i32
    }

    /// The block id at absolute world position `(vx, vy, vz)`.
    pub fn get_block_id(&self, vx: i32, vy: i32, vz: i32) -> (r: u32)
        requires
            self.wf(),
            self.spec_contains(vx as int, vy as int, vz as int),
        ensures
            r == self.spec_block(vx - self.min.0, vy - self.min.1, vz - self.min.2),
    {
        proof {
            self.lemma_dims();
        }
        let lx = (vx - self.min.0) as usize;
        let ly = (vy - self.min.1) as usize;
        let lz = (vz - self.min.2) as usize;
        let r = self.blocks[lx][ly][lz];
        proof {
            assert(self.grid()[lx as int][ly as int] == self.blocks@[lx as int]@[ly as int]@);
        }
        r
    }

    /// Set the block id at absolute world position `(vx, vy, vz)`.
    /// Exactly the targeted voxel changes; everything else about the
    /// chunk — other voxels, dimensions, metadata, status — is kept.
    pub fn set_block_id(&mut self, vx: i32, vy: i32, vz: i32, id: u32)
        requires
            old(self).wf(),
            old(self).spec_contains(vx as int, vy as int, vz as int),
        ensures
            final(self).wf(),
            final(self).coords == old(self).coords,
            final(self).min == old(self).min,
            final(self).options == old(self).options,
            final(self).status == old(self).status,
            final(self).grid() == old(self).grid().update(
                vx - old(self).min.0,
                old(self).grid()[vx - old(self).min.0].update(
                    vy - old(self).min.1,
                    old(self).grid()[vx - old(self).min.0][vy - old(self).min.1].update(
                        vz - old(self).min.2,
                        id,
                    ),
                ),
            ),
            final(self).spec_block(vx - old(self).min.0, vy - old(self).min.1, vz - old(self).min.2)
                == id,
            forall|x: int, y: int, z: int|
                0 <= x < old(self).options.chunk_size && 0 <= y < old(self).options.max_height
                    && 0 <= z < old(self).options.chunk_size
                    && !(x == vx - old(self).min.0 && y == vy - old(self).min.1 && z == vz - old(
                    self,
                ).min.2) ==> final(self).spec_block(x, y, z) == old(self).spec_block(x, y, z),
    {
        proof {
            self.lemma_dims();
        }
        let lx = (vx - self.min.0) as usize;
        let ly = (vy - self.min.1) as usize;
        let lz = (vz - self.min.2) as usize;
        let ghost g0 = self.grid();
        self.blocks[lx][ly][lz] = id;
        proof {
            let lxi = lx as int;
            let lyi = ly as int;
            let lzi = lz as int;
            let target = g0.update(lxi, g0[lxi].update(lyi, g0[lxi][lyi].update(lzi, id)));
            assert(self.grid() =~~= target);
        }
    }
}

} // verus!
