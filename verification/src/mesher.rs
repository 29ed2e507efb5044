//! Mesher dispatch and geometry assembly.
//!
//! For every voxel of a processed chunk the registry picks the first
//! registered mesher whose predicate matches the block id (first
//! registered wins). The matched strategy turns the voxel and its
//! neighborhood into zero or more geometry fragments; fragments of
//! all voxels are concatenated in voxel scan order, so the output is
//! a function of chunk content alone and therefore deterministic.
//!
//! A face is emitted when the neighboring voxel on that side is
//! transparent toward it; a neighbor beyond the chunk's own grid
//! counts as air, so border faces are exposed.

use vstd::prelude::*;
use crate::block::{BlockRegistry, FaceDir};
use crate::chunk::{Chunk, ChunkOptions, Grid};
use crate::vec::Vec3;

verus! {

/// The predicate half of a registered (predicate, mesher) pair.
#[derive(Clone, Copy, Debug, PartialEq, Eq, Structural)]
pub enum ApplyRule {
    /// Applies to every non-air block id.
    AnySolid,
    /// Applies to exactly one block id.
    Exactly(u32),
}

/// The strategy half of a registered (predicate, mesher) pair.
#[derive(Clone, Copy, Debug, PartialEq, Eq, Structural)]
pub enum MeshStrategy {
    /// Emit one quad for every face not hidden by its neighbor.
    CubeFaces,
    /// Emit nothing; the block is never rendered.
    NoGeometry,
}

/// One registered mesher.
#[derive(Clone, Copy, Debug, PartialEq, Eq, Structural)]
pub struct Mesher {
    pub rule: ApplyRule,
    pub strategy: MeshStrategy,
}

/// Whether `m`'s predicate matches block id `id`.
pub open spec fn mesher_applies(m: Mesher, id: u32) -> bool {
    match m.rule {
        ApplyRule::AnySolid => id != 0,
        ApplyRule::Exactly(b) => id == b,
    }
}

impl Mesher {
    /// Whether this mesher handles block id `id`.
    pub fn is_applicable(&self, id: u32) -> (r: bool)
        ensures
            r == mesher_applies(*self, id),
    {
        match self.rule {
            ApplyRule::AnySolid => id != 0,
            ApplyRule::Exactly(b) => id == b,
        }
    }
}

/// Index of the first mesher in `s` that applies to `id`, or -1.
pub open spec fn first_applicable(s: Seq<Mesher>, id: u32) -> int
    decreases s.len(),
{
    if s.len() == 0 {
        -1
    } else if mesher_applies(s[0], id) {
        0
    } else {
        let rest = first_applicable(s.drop_first(), id);
        if rest == -1 {
            -1
        } else {
            rest + 1
        }
    }
}

pub proof fn lemma_first_applicable_bounds(s: Seq<Mesher>, id: u32)
    ensures
        first_applicable(s, id) == -1 || (0 <= first_applicable(s, id) < s.len()
            && mesher_applies(s[first_applicable(s, id)], id)),
    decreases s.len(),
{
    if s.len() > 0 && !mesher_applies(s[0], id) {
        lemma_first_applicable_bounds(s.drop_first(), id);
    }
}

/// If the first applicable mesher is not before `i`, position `i`
/// decides whether it is `i` or past `i`.
pub proof fn lemma_first_applicable_prefix(s: Seq<Mesher>, id: u32, i: int)
    requires
        0 <= i < s.len(),
        first_applicable(s, id) == -1 || first_applicable(s, id) >= i,
    ensures
        mesher_applies(s[i], id) ==> first_applicable(s, id) == i,
        !mesher_applies(s[i], id) ==> first_applicable(s, id) == -1 || first_applicable(s, id) >= i
            + 1,
    decreases i,
{
    if i > 0 {
        if mesher_applies(s[0], id) {
            assert(first_applicable(s, id) == 0);
        } else {
            let rest = first_applicable(s.drop_first(), id);
            lemma_first_applicable_bounds(s.drop_first(), id);
            assert(first_applicable(s, id) == if rest == -1 { -1int } else { rest + 1 });
            lemma_first_applicable_prefix(s.drop_first(), id, i - 1);
            assert(s.drop_first()[i - 1] == s[i]);
        }
    }
}

/// The ordered mesher table. Resolution order is registration
/// order: when several predicates match a block id, the first
/// registered mesher wins.
pub struct MesherRegistry {
    meshers: Vec<Mesher>,
}

impl MesherRegistry {
    pub closed spec fn view(self) -> Seq<Mesher> {
        self.meshers@
    }

    /// An empty table.
    pub fn new() -> (r: Self)
        ensures
            r@ == Seq::<Mesher>::empty(),
    {
        MesherRegistry { meshers: Vec::new() }
    }

    /// Append a mesher; it loses ties against everything already
    /// registered.
    pub fn register(&mut self, m: Mesher)
        ensures
            final(self)@ == old(self)@.push(m),
    {
        self.meshers.push(m);
    }

    /// The first registered mesher applicable to `id`, if any.
    pub fn find_for(&self, id: u32) -> (r: Option<&Mesher>)
        ensures
            match r {
                Some(m) => {
                    &&& 0 <= first_applicable(self@, id) < self@.len()
                    &&& *m == self@[first_applicable(self@, id)]
                },
                None => first_applicable(self@, id) == -1,
            },
    {
        proof {
            lemma_first_applicable_bounds(self@, id);
        }
        let n = self.meshers.len();
        let mut i: usize = 0;
        while i < n
            invariant
                n == self@.len(),
                0 <= i <= n,
                first_applicable(self@, id) == -1 || first_applicable(self@, id) >= i,
            decreases n - i,
        {
            proof {
                lemma_first_applicable_prefix(self@, id, i as int);
            }
            if self.meshers[i].is_applicable(id) {
                return Some(&self.meshers[i]);
            }
            i += 1;
        }
        None
    }
}

/// A geometry fragment: one textured quad of one block.
pub struct GeometryData {
    pub block_id: u32,
    pub dir: FaceDir,
    pub corners: Vec<Vec3>,
    pub indices: Vec<u32>,
    pub uv: u32,
}

/// The mathematical value of a fragment.
pub ghost struct GeomView {
    pub block_id: u32,
    pub dir: FaceDir,
    pub corners: Seq<Vec3>,
    pub indices: Seq<u32>,
    pub uv: u32,
}

impl View for GeometryData {
    type V = GeomView;

    open spec fn view(&self) -> GeomView {
        GeomView {
            block_id: self.block_id,
            dir: self.dir,
            corners: self.corners@,
            indices: self.indices@,
            uv: self.uv,
        }
    }
}

/// The fragment values of a fragment list.
pub open spec fn gviews(s: Seq<GeometryData>) -> Seq<GeomView> {
    s.map_values(|g: GeometryData| g@)
}

/// The side of the neighbor that faces a block's `dir` face.
pub open spec fn spec_opposite(dir: FaceDir) -> FaceDir {
    match dir {
        FaceDir::PosX => FaceDir::NegX,
        FaceDir::NegX => FaceDir::PosX,
        FaceDir::PosY => FaceDir::NegY,
        FaceDir::NegY => FaceDir::PosY,
        FaceDir::PosZ => FaceDir::NegZ,
        FaceDir::NegZ => FaceDir::PosZ,
    }
}

/// Local-coordinate offset towards `dir`.
pub open spec fn dir_offset(dir: FaceDir) -> (int, int, int) {
    match dir {
        FaceDir::PosX => (1int, 0int, 0int),
        FaceDir::NegX => (-1int, 0int, 0int),
        FaceDir::PosY => (0int, 1int, 0int),
        FaceDir::NegY => (0int, -1int, 0int),
        FaceDir::PosZ => (0int, 0int, 1int),
        FaceDir::NegZ => (0int, 0int, -1int),
    }
}

/// The block id next to local cell `(lx, ly, lz)` towards `dir`;
/// air beyond the grid.
pub open spec fn spec_neighbor_id(
    g: Grid,
    options: ChunkOptions,
    lx: int,
    ly: int,
    lz: int,
    dir: FaceDir,
) -> u32 {
    let (dx, dy, dz) = dir_offset(dir);
    let nx = lx + dx;
    let ny = ly + dy;
    let nz = lz + dz;
    if 0 <= nx < options.chunk_size && 0 <= ny < options.max_height && 0 <= nz
        < options.chunk_size {
        g[nx][ny][nz]
    } else {
        0u32
    }
}

/// Whether the `dir` face of local cell `(lx, ly, lz)` is exposed:
/// the neighbor on that side is transparent toward it.
pub open spec fn face_visible(
    reg: BlockRegistry,
    g: Grid,
    options: ChunkOptions,
    lx: int,
    ly: int,
    lz: int,
    dir: FaceDir,
) -> bool {
    reg.spec_transparent(spec_neighbor_id(g, options, lx, ly, lz, dir), spec_opposite(dir))
}

/// The quad emitted for the `dir` face of the unit cube whose
/// minimum corner is world position `(wx, wy, wz)`.
pub open spec fn quad_view(b: u32, dir: FaceDir, wx: i32, wy: i32, wz: i32) -> GeomView {
    let x0 = wx;
    let y0 = wy;
    let z0 = wz;
    let x1 = (wx + 1) as i32;
    let y1 = (wy + 1) as i32;
    let z1 = (wz + 1) as i32;
    GeomView {
        block_id: b,
        dir,
        corners: match dir {
            FaceDir::PosX => seq![
                Vec3(x1, y0, z0),
                Vec3(x1, y1, z0),
                Vec3(x1, y1, z1),
                Vec3(x1, y0, z1),
            ],
            FaceDir::NegX => seq![
                Vec3(x0, y0, z0),
                Vec3(x0, y0, z1),
                Vec3(x0, y1, z1),
                Vec3(x0, y1, z0),
            ],
            FaceDir::PosY => seq![
                Vec3(x0, y1, z0),
                Vec3(x1, y1, z0),
                Vec3(x1, y1, z1),
                Vec3(x0, y1, z1),
            ],
            FaceDir::NegY => seq![
                Vec3(x0, y0, z0),
                Vec3(x0, y0, z1),
                Vec3(x1, y0, z1),
                Vec3(x1, y0, z0),
            ],
            FaceDir::PosZ => seq![
                Vec3(x0, y0, z1),
                Vec3(x1, y0, z1),
                Vec3(x1, y1, z1),
                Vec3(x0, y1, z1),
            ],
            FaceDir::NegZ => seq![
                Vec3(x0, y0, z0),
                Vec3(x0, y1, z0),
                Vec3(x1, y1, z0),
                Vec3(x1, y0, z0),
            ],
        },
        indices: seq![0u32, 1u32, 2u32, 0u32, 2u32, 3u32],
        uv: dir.spec_code(),
    }
}

/// The fragments the `dir` face of local cell `(lx, ly, lz)`
/// contributes: one quad when exposed, none when hidden.
pub open spec fn face_term(
    b: u32,
    reg: BlockRegistry,
    g: Grid,
    min: Vec3,
    options: ChunkOptions,
    lx: int,
    ly: int,
    lz: int,
    dir: FaceDir,
) -> Seq<GeomView> {
    if face_visible(reg, g, options, lx, ly, lz, dir) {
        seq![
            quad_view(
                b,
                dir,
                (min.0 + lx) as i32,
                (min.1 + ly) as i32,
                (min.2 + lz) as i32,
            ),
        ]
    } else {
        Seq::empty()
    }
}

/// All fragments of local cell `(lx, ly, lz)` under the cube-face
/// strategy, in the fixed face order.
pub open spec fn cube_faces(
    b: u32,
    reg: BlockRegistry,
    g: Grid,
    min: Vec3,
    options: ChunkOptions,
    lx: int,
    ly: int,
    lz: int,
) -> Seq<GeomView> {
    face_term(b, reg, g, min, options, lx, ly, lz, FaceDir::PosX) + face_term(
        b,
        reg,
        g,
        min,
        options,
        lx,
        ly,
        lz,
        FaceDir::NegX,
    ) + face_term(b, reg, g, min, options, lx, ly, lz, FaceDir::PosY) + face_term(
        b,
        reg,
        g,
        min,
        options,
        lx,
        ly,
        lz,
        FaceDir::NegY,
    ) + face_term(b, reg, g, min, options, lx, ly, lz, FaceDir::PosZ) + face_term(
        b,
        reg,
        g,
        min,
        options,
        lx,
        ly,
        lz,
        FaceDir::NegZ,
    )
}

/// The fragments local cell `(lx, ly, lz)` contributes: what the
/// first applicable mesher produces, or nothing if none applies.
pub open spec fn mesh_voxel(
    ms: Seq<Mesher>,
    reg: BlockRegistry,
    g: Grid,
    min: Vec3,
    options: ChunkOptions,
    lx: int,
    ly: int,
    lz: int,
) -> Seq<GeomView> {
    let b = g[lx][ly][lz];
    let i = first_applicable(ms, b);
    if i == -1 {
        Seq::empty()
    } else {
        match ms[i].strategy {
            MeshStrategy::NoGeometry => Seq::empty(),
            MeshStrategy::CubeFaces => cube_faces(b, reg, g, min, options, lx, ly, lz),
        }
    }
}

/// Fragments of cells `(lx, ly, 0..lz)`.
pub open spec fn mesh_z(
    ms: Seq<Mesher>,
    reg: BlockRegistry,
    g: Grid,
    min: Vec3,
    options: ChunkOptions,
    lx: int,
    ly: int,
    lz: int,
) -> Seq<GeomView>
    decreases lz,
{
    if lz <= 0 {
        Seq::empty()
    } else {
        mesh_z(ms, reg, g, min, options, lx, ly, lz - 1) + mesh_voxel(
            ms,
            reg,
            g,
            min,
            options,
            lx,
            ly,
            lz - 1,
        )
    }
}

/// Fragments of rows `(lx, 0..ly, *)`.
pub open spec fn mesh_y(
    ms: Seq<Mesher>,
    reg: BlockRegistry,
    g: Grid,
    min: Vec3,
    options: ChunkOptions,
    lx: int,
    ly: int,
) -> Seq<GeomView>
    decreases ly,
{
    if ly <= 0 {
        Seq::empty()
    } else {
        mesh_y(ms, reg, g, min, options, lx, ly - 1) + mesh_z(
            ms,
            reg,
            g,
            min,
            options,
            lx,
            ly - 1,
            options.chunk_size as int,
        )
    }
}

/// Fragments of columns `(0..lx, *, *)`.
pub open spec fn mesh_x(
    ms: Seq<Mesher>,
    reg: BlockRegistry,
    g: Grid,
    min: Vec3,
    options: ChunkOptions,
    lx: int,
) -> Seq<GeomView>
    decreases lx,
{
    if lx <= 0 {
        Seq::empty()
    } else {
        mesh_x(ms, reg, g, min, options, lx - 1) + mesh_y(
            ms,
            reg,
            g,
            min,
            options,
            lx - 1,
            options.max_height as int,
        )
    }
}

/// Every fragment of the whole grid, in voxel scan order.
pub open spec fn mesh_grid(
    ms: Seq<Mesher>,
    reg: BlockRegistry,
    g: Grid,
    min: Vec3,
    options: ChunkOptions,
) -> Seq<GeomView> {
    mesh_x(ms, reg, g, min, options, options.chunk_size as int)
}

/// Law: mesher dispatch is deterministic. Two chunks with identical
/// content and placement produce identical geometry, fragment for
/// fragment, under the same registries.
pub proof fn lemma_mesh_deterministic(ms: Seq<Mesher>, reg: BlockRegistry, a: Chunk, b: Chunk)
    requires
        a.same_content(b),
    ensures
        mesh_grid(ms, reg, a.grid(), a.min, a.options) == mesh_grid(
            ms,
            reg,
            b.grid(),
            b.min,
            b.options,
        ),
{
}

/// Law: an exposed face is always emitted. When the first mesher
/// applicable to a voxel's block id uses the cube-face strategy and
/// the neighbor on side `dir` is transparent toward the voxel, the
/// voxel's fragments contain the quad of that face.
pub proof fn lemma_exposed_face_is_emitted(
    ms: Seq<Mesher>,
    reg: BlockRegistry,
    g: Grid,
    min: Vec3,
    options: ChunkOptions,
    lx: int,
    ly: int,
    lz: int,
    dir: FaceDir,
)
    requires
        0 <= first_applicable(ms, g[lx][ly][lz]) < ms.len(),
        ms[first_applicable(ms, g[lx][ly][lz])].strategy == MeshStrategy::CubeFaces,
        face_visible(reg, g, options, lx, ly, lz, dir),
    ensures
        mesh_voxel(ms, reg, g, min, options, lx, ly, lz).contains(
            quad_view(
                g[lx][ly][lz],
                dir,
                (min.0 + lx) as i32,
                (min.1 + ly) as i32,
                (min.2 + lz) as i32,
            ),
        ),
{
    let b = g[lx][ly][lz];
    let t0 = face_term(b, reg, g, min, options, lx, ly, lz, FaceDir::PosX);
    let t1 = face_term(b, reg, g, min, options, lx, ly, lz, FaceDir::NegX);
    let t2 = face_term(b, reg, g, min, options, lx, ly, lz, FaceDir::PosY);
    let t3 = face_term(b, reg, g, min, options, lx, ly, lz, FaceDir::NegY);
    let t4 = face_term(b, reg, g, min, options, lx, ly, lz, FaceDir::PosZ);
    let t5 = face_term(b, reg, g, min, options, lx, ly, lz, FaceDir::NegZ);
    let s = mesh_voxel(ms, reg, g, min, options, lx, ly, lz);
    assert(s == t0 + t1 + t2 + t3 + t4 + t5);
    let q = quad_view(b, dir, (min.0 + lx) as i32, (min.1 + ly) as i32, (min.2 + lz) as i32);
    let i = match dir {
        FaceDir::PosX => 0int,
        FaceDir::NegX => t0.len() as int,
        FaceDir::PosY => (t0.len() + t1.len()) as int,
        FaceDir::NegY => (t0.len() + t1.len() + t2.len()) as int,
        FaceDir::PosZ => (t0.len() + t1.len() + t2.len() + t3.len()) as int,
        FaceDir::NegZ => (t0.len() + t1.len() + t2.len() + t3.len() + t4.len()) as int,
    };
    assert(s[i] == q);
    assert(s.contains(q));
}

/// Build the quad for the `dir` face of the unit cube at `(wx, wy,
/// wz)`.
fn make_quad(b: u32, dir: FaceDir, wx: i32, wy: i32, wz: i32) -> (r: GeometryData)
    requires
        wx + 1 <= i32::MAX,
        wy + 1 <= i32::MAX,
        wz + 1 <= i32::MAX,
    ensures
        r@ == quad_view(b, dir, wx, wy, wz),
{
    let x1 = wx + 1;
    let y1 = wy + 1;
    let z1 = wz + 1;
    let mut corners: Vec<Vec3> = Vec::new();
    match dir {
        FaceDir::PosX => {
            corners.push(Vec3(x1, wy, wz));
            corners.push(Vec3(x1, y1, wz));
            corners.push(Vec3(x1, y1, z1));
            corners.push(Vec3(x1, wy, z1));
        },
        FaceDir::NegX => {
            corners.push(Vec3(wx, wy, wz));
            corners.push(Vec3(wx, wy, z1));
            corners.push(Vec3(wx, y1, z1));
            corners.push(Vec3(wx, y1, wz));
        },
        FaceDir::PosY => {
            corners.push(Vec3(wx, y1, wz));
            corners.push(Vec3(x1, y1, wz));
            corners.push(Vec3(x1, y1, z1));
            corners.push(Vec3(wx, y1, z1));
        },
        FaceDir::NegY => {
            corners.push(Vec3(wx, wy, wz));
            corners.push(Vec3(wx, wy, z1));
            corners.push(Vec3(x1, wy, z1));
            corners.push(Vec3(x1, wy, wz));
        },
        FaceDir::PosZ => {
            corners.push(Vec3(wx, wy, z1));
            corners.push(Vec3(x1, wy, z1));
            corners.push(Vec3(x1, y1, z1));
            corners.push(Vec3(wx, y1, z1));
        },
        FaceDir::NegZ => {
            corners.push(Vec3(wx, wy, wz));
            corners.push(Vec3(wx, y1, wz));
            corners.push(Vec3(x1, y1, wz));
            corners.push(Vec3(x1, wy, wz));
        },
    }
    let mut indices: Vec<u32> = Vec::new();
    indices.push(0);
    indices.push(1);
    indices.push(2);
    indices.push(0);
    indices.push(2);
    indices.push(3);
    let uv = dir.code();
    let r = GeometryData { block_id: b, dir, corners, indices, uv };
    proof {
        assert(r.corners@ =~= quad_view(b, dir, wx, wy, wz).corners);
        assert(r.indices@ =~= quad_view(b, dir, wx, wy, wz).indices);
    }
    r
}

/// Append the `dir` face of local cell `(lx, ly, lz)` to `out` when
/// it is exposed.
fn emit_face(
    chunk: &Chunk,
    registry: &BlockRegistry,
    b: u32,
    dir: FaceDir,
    lx: usize,
    ly: usize,
    lz: usize,
    out: &mut Vec<GeometryData>,
)
    requires
        chunk.wf(),
        lx < chunk.options.chunk_size,
        ly < chunk.options.max_height,
        lz < chunk.options.chunk_size,
    ensures
        gviews(final(out)@) == gviews(old(out)@) + face_term(
            b,
            *registry,
            chunk.grid(),
            chunk.min,
            chunk.options,
            lx as int,
            ly as int,
            lz as int,
            dir,
        ),
{
    let (dx, dy, dz): (i32, i32, i32) = match dir {
        FaceDir::PosX => (1, 0, 0),
        FaceDir::NegX => (-1, 0, 0),
        FaceDir::PosY => (0, 1, 0),
        FaceDir::NegY => (0, -1, 0),
        FaceDir::PosZ => (0, 0, 1),
        FaceDir::NegZ => (0, 0, -1),
    };
    let nx = lx as i32 + dx;
    let ny = ly as i32 + dy;
    let nz = lz as i32 + dz;
    let size = chunk.options.chunk_size as i32;
    let height = chunk.options.max_height as i32;
    let nid: u32 = if nx >= 0 && nx < size && ny >= 0 && ny < height && nz >= 0 && nz < size {
        chunk.get_block_id(chunk.min.0 + nx, chunk.min.1 + ny, chunk.min.2 + nz)
    } else {
        0
    };
    proof {
        assert(nid == spec_neighbor_id(
            chunk.grid(),
            chunk.options,
            lx as int,
            ly as int,
            lz as int,
            dir,
        ));
    }
    let opp = match dir {
        FaceDir::PosX => FaceDir::NegX,
        FaceDir::NegX => FaceDir::PosX,
        FaceDir::PosY => FaceDir::NegY,
        FaceDir::NegY => FaceDir::PosY,
        FaceDir::PosZ => FaceDir::NegZ,
        FaceDir::NegZ => FaceDir::PosZ,
    };
    let visible = registry.is_transparent(nid, opp);
    let ghost pre = out@;
    if visible {
        let wx = chunk.min.0 + lx as i32;
        let wy = chunk.min.1 + ly as i32;
        let wz = chunk.min.2 + lz as i32;
        let q = make_quad(b, dir, wx, wy, wz);
        out.push(q);
        proof {
            assert(gviews(out@) =~= gviews(pre) + face_term(
                b,
                *registry,
                chunk.grid(),
                chunk.min,
                chunk.options,
                lx as int,
                ly as int,
                lz as int,
                dir,
            ));
        }
    } else {
        proof {
            assert(gviews(out@) =~= gviews(pre) + face_term(
                b,
                *registry,
                chunk.grid(),
                chunk.min,
                chunk.options,
                lx as int,
                ly as int,
                lz as int,
                dir,
            ));
        }
    }
}

/// Append every fragment of local cell `(lx, ly, lz)` to `out`.
fn mesh_one_voxel(
    chunk: &Chunk,
    meshers: &MesherRegistry,
    registry: &BlockRegistry,
    lx: usize,
    ly: usize,
    lz: usize,
    out: &mut Vec<GeometryData>,
)
    requires
        chunk.wf(),
        lx < chunk.options.chunk_size,
        ly < chunk.options.max_height,
        lz < chunk.options.chunk_size,
    ensures
        gviews(final(out)@) == gviews(old(out)@) + mesh_voxel(
            meshers@,
            *registry,
            chunk.grid(),
            chunk.min,
            chunk.options,
            lx as int,
            ly as int,
            lz as int,
        ),
{
    let b = chunk.get_block_id(
        chunk.min.0 + lx as i32,
        chunk.min.1 + ly as i32,
        chunk.min.2 + lz as i32,
    );
    let ghost pre = out@;
    let found = meshers.find_for(b);
    match found {
        None => {
            proof {
                assert(gviews(out@) =~= gviews(pre) + Seq::<GeomView>::empty());
            }
        },
        Some(m) => {
            match m.strategy {
                MeshStrategy::NoGeometry => {
                    proof {
                        assert(gviews(out@) =~= gviews(pre) + Seq::<GeomView>::empty());
                    }
                },
                MeshStrategy::CubeFaces => {
                    emit_face(chunk, registry, b, FaceDir::PosX, lx, ly, lz, out);
                    emit_face(chunk, registry, b, FaceDir::NegX, lx, ly, lz, out);
                    emit_face(chunk, registry, b, FaceDir::PosY, lx, ly, lz, out);
                    emit_face(chunk, registry, b, FaceDir::NegY, lx, ly, lz, out);
                    emit_face(chunk, registry, b, FaceDir::PosZ, lx, ly, lz, out);
                    emit_face(chunk, registry, b, FaceDir::NegZ, lx, ly, lz, out);
                    proof {
                        assert(gviews(out@) =~= gviews(pre) + cube_faces(
                            b,
                            *registry,
                            chunk.grid(),
                            chunk.min,
                            chunk.options,
                            lx as int,
                            ly as int,
                            lz as int,
                        ));
                    }
                },
            }
        },
    }
}

/// Mesh a whole chunk: concatenate the fragments of every voxel in
/// scan order. The result is exactly `mesh_grid` of the chunk's
/// content.
pub fn mesh_chunk(chunk: &Chunk, meshers: &MesherRegistry, registry: &BlockRegistry) -> (out: Vec<
    GeometryData,
>)
    requires
        chunk.wf(),
    ensures
        gviews(out@) == mesh_grid(meshers@, *registry, chunk.grid(), chunk.min, chunk.options),
{
    let size = chunk.options.chunk_size as usize;
    let height = chunk.options.max_height as usize;
    let mut out: Vec<GeometryData> = Vec::new();
    let mut lx: usize = 0;
    while lx < size
        invariant
            chunk.wf(),
            size == chunk.options.chunk_size,
            height == chunk.options.max_height,
            lx <= size,
            gviews(out@) == mesh_x(
                meshers@,
                *registry,
                chunk.grid(),
                chunk.min,
                chunk.options,
                lx as int,
            ),
        decreases size - lx,
    {
        let mut ly: usize = 0;
        while ly < height
            invariant
                chunk.wf(),
                size == chunk.options.chunk_size,
                height == chunk.options.max_height,
                lx < size,
                ly <= height,
                gviews(out@) == mesh_x(
                    meshers@,
                    *registry,
                    chunk.grid(),
                    chunk.min,
                    chunk.options,
                    lx as int,
                ) + mesh_y(
                    meshers@,
                    *registry,
                    chunk.grid(),
                    chunk.min,
                    chunk.options,
                    lx as int,
                    ly as int,
                ),
            decreases height - ly,
        {
            let mut lz: usize = 0;
            while lz < size
                invariant
                    chunk.wf(),
                    size == chunk.options.chunk_size,
                    height == chunk.options.max_height,
                    lx < size,
                    ly < height,
                    lz <= size,
                    gviews(out@) == mesh_x(
                        meshers@,
                        *registry,
                        chunk.grid(),
                        chunk.min,
                        chunk.options,
                        lx as int,
                    ) + mesh_y(
                        meshers@,
                        *registry,
                        chunk.grid(),
                        chunk.min,
                        chunk.options,
                        lx as int,
                        ly as int,
                    ) + mesh_z(
                        meshers@,
                        *registry,
                        chunk.grid(),
                        chunk.min,
                        chunk.options,
                        lx as int,
                        ly as int,
                        lz as int,
                    ),
                decreases size - lz,
            {
                mesh_one_voxel(chunk, meshers, registry, lx, ly, lz, &mut out);
                lz += 1;
            }
            ly += 1;
        }
        lx += 1;
    }
    proof {
        assert(gviews(out@) =~= mesh_grid(
            meshers@,
            *registry,
            chunk.grid(),
            chunk.min,
            chunk.options,
        ));
    }
    out
}

} // verus!
