//! Block descriptors and the block registry.
//!
//! A descriptor is resolved data: the authoring side has already
//! scaled and offset its face quads and bounding boxes. Geometry
//! coordinates are fixed-point, in 1/16ths of a block, so the whole
//! registry is exact integer data. Block id 0 is air by convention:
//! it never gets a descriptor and is transparent from every side.

use vstd::prelude::*;
use crate::vec::Vec3;

verus! {

/// One of the six axis-aligned face directions of a cube.
#[derive(Clone, Copy, Debug, PartialEq, Eq, Structural)]
pub enum FaceDir {
    PosX,
    NegX,
    PosY,
    NegY,
    PosZ,
    NegZ,
}

impl FaceDir {
    /// A stable small code for the direction, used as a UV group key.
    pub fn code(&self) -> (r: u32)
        ensures
            r == self.spec_code(),
    {
        match self {
            FaceDir::PosX => 0,
            FaceDir::NegX => 1,
            FaceDir::PosY => 2,
            FaceDir::NegY => 3,
            FaceDir::PosZ => 4,
            FaceDir::NegZ => 5,
        }
    }

    pub open spec fn spec_code(self) -> u32 {
        match self {
            FaceDir::PosX => 0u32,
            FaceDir::NegX => 1u32,
            FaceDir::PosY => 2u32,
            FaceDir::NegY => 3u32,
            FaceDir::PosZ => 4u32,
            FaceDir::NegZ => 5u32,
        }
    }
}

/// A resolved face quad of a block, in 1/16ths of a block relative to
/// the block's own minimum corner.
#[derive(Clone, Debug)]
pub struct BlockFace {
    pub dir: FaceDir,
    pub corners: Vec<Vec3>,
}

/// A resolved axis-aligned bounding box, in 1/16ths of a block
/// relative to the block's own minimum corner.
#[derive(Clone, Copy, Debug, PartialEq, Eq, Structural)]
pub struct Aabb {
    pub min: Vec3,
    pub max: Vec3,
}

/// Everything the engine knows about one block kind. Read-only after
/// registration; workers share it without synchronization.
#[derive(Clone, Debug)]
pub struct BlockDescriptor {
    pub id: u32,
    pub name: String,
    pub is_px_transparent: bool,
    pub is_nx_transparent: bool,
    pub is_py_transparent: bool,
    pub is_ny_transparent: bool,
    pub is_pz_transparent: bool,
    pub is_nz_transparent: bool,
    pub is_passable: bool,
    pub is_fluid: bool,
    pub rotatable: bool,
    pub faces: Vec<BlockFace>,
    pub aabbs: Vec<Aabb>,
}

impl BlockDescriptor {
    /// A plain opaque, impassable solid with no extra geometry data.
    pub fn solid(id: u32, name: String) -> (d: Self)
        ensures
            d.id == id,
            d.name@ == name@,
            !d.spec_transparent(FaceDir::PosX),
            !d.spec_transparent(FaceDir::NegX),
            !d.spec_transparent(FaceDir::PosY),
            !d.spec_transparent(FaceDir::NegY),
            !d.spec_transparent(FaceDir::PosZ),
            !d.spec_transparent(FaceDir::NegZ),
            !d.is_passable,
            !d.is_fluid,
            !d.rotatable,
    {
        BlockDescriptor {
            id,
            name,
            is_px_transparent: false,
            is_nx_transparent: false,
            is_py_transparent: false,
            is_ny_transparent: false,
            is_pz_transparent: false,
            is_nz_transparent: false,
            is_passable: false,
            is_fluid: false,
            rotatable: false,
            faces: Vec::new(),
            aabbs: Vec::new(),
        }
    }

    /// Whether the block lets light/faces show through on side `dir`.
    pub fn is_transparent(&self, dir: FaceDir) -> (r: bool)
        ensures
            r == self.spec_transparent(dir),
    {
        match dir {
            FaceDir::PosX => self.is_px_transparent,
            FaceDir::NegX => self.is_nx_transparent,
            FaceDir::PosY => self.is_py_transparent,
            FaceDir::NegY => self.is_ny_transparent,
            FaceDir::PosZ => self.is_pz_transparent,
            FaceDir::NegZ => self.is_nz_transparent,
        }
    }

    pub open spec fn spec_transparent(self, dir: FaceDir) -> bool {
        match dir {
            FaceDir::PosX => self.is_px_transparent,
            FaceDir::NegX => self.is_nx_transparent,
            FaceDir::PosY => self.is_py_transparent,
            FaceDir::NegY => self.is_ny_transparent,
            FaceDir::PosZ => self.is_pz_transparent,
            FaceDir::NegZ => self.is_nz_transparent,
        }
    }
}

/// The immutable mapping from block id to descriptor. Built once at
/// manager construction; never mutated afterwards. If two descriptors
/// carry the same id the first registered wins.
pub struct BlockRegistry {
    blocks: Vec<BlockDescriptor>,
}

/// Index of the first descriptor in `s` carrying `id`, or -1.
pub open spec fn first_with_id(s: Seq<BlockDescriptor>, id: u32) -> int
    decreases s.len(),
{
    if s.len() == 0 {
        -1
    } else if s[0].id == id {
        0
    } else {
        let rest = first_with_id(s.drop_first(), id);
        if rest == -1 {
            -1
        } else {
            rest + 1
        }
    }
}

pub proof fn lemma_first_with_id_bounds(s: Seq<BlockDescriptor>, id: u32)
    ensures
        first_with_id(s, id) == -1 || (0 <= first_with_id(s, id) < s.len()
            && s[first_with_id(s, id)].id == id),
    decreases s.len(),
{
    if s.len() > 0 && s[0].id != id {
        lemma_first_with_id_bounds(s.drop_first(), id);
    }
}

impl BlockRegistry {
    pub closed spec fn view(self) -> Seq<BlockDescriptor> {
        self.blocks@
    }

    /// The descriptor `id` resolves to, if any.
    pub open spec fn spec_lookup(self, id: u32) -> Option<BlockDescriptor> {
        if first_with_id(self@, id) == -1 {
            None
        } else {
            Some(self@[first_with_id(self@, id)])
        }
    }

    /// Whether a block with `id` lets faces show through on `dir`.
    /// An unregistered id (air among them) is transparent everywhere.
    pub open spec fn spec_transparent(self, id: u32, dir: FaceDir) -> bool {
        match self.spec_lookup(id) {
            None => true,
            Some(d) => d.spec_transparent(dir),
        }
    }

    /// Build the registry from an already-resolved descriptor list.
    pub fn with_blocks(blocks: Vec<BlockDescriptor>) -> (r: Self)
        ensures
            r@ == blocks@,
    {
        BlockRegistry { blocks }
    }

    /// The first descriptor registered under `id`, if any.
    pub fn get_block_by_id(&self, id: u32) -> (r: Option<&BlockDescriptor>)
        ensures
            match r {
                Some(d) => {
                    &&& self.spec_lookup(id) == Some(*d)
                    &&& d.id == id
                },
                None => self.spec_lookup(id) is None,
            },
    {
        proof {
            lemma_first_with_id_bounds(self@, id);
        }
        let n = self.blocks.len();
        let mut i: usize = 0;
        while i < n
            invariant
                n == self@.len(),
                0 <= i <= n,
                first_with_id(self@, id) == -1 || first_with_id(self@, id) >= i,
            decreases n - i,
        {
            proof {
                lemma_first_with_id_prefix(self@, id, i as int);
            }
            if self.blocks[i].id == id {
                proof {
                    lemma_first_with_id_bounds(self@, id);
                }
                return Some(&self.blocks[i]);
            }
            i += 1;
        }
        proof {
            lemma_first_with_id_bounds(self@, id);
        }
        None
    }

    /// Whether a block with `id` is transparent on side `dir`.
    pub fn is_transparent(&self, id: u32, dir: FaceDir) -> (r: bool)
        ensures
            r == self.spec_transparent(id, dir),
    {
        match self.get_block_by_id(id) {
            None => true,
            Some(d) => d.is_transparent(dir),
        }
    }
}

/// If the first hit is not before `i`, then position `i` decides:
/// a hit at `i` makes it `i`; a miss at `i` pushes it past `i`.
pub proof fn lemma_first_with_id_prefix(s: Seq<BlockDescriptor>, id: u32, i: int)
    requires
        0 <= i < s.len(),
        first_with_id(s, id) == -1 || first_with_id(s, id) >= i,
    ensures
        s[i].id == id ==> first_with_id(s, id) == i,
        s[i].id != id ==> first_with_id(s, id) == -1 || first_with_id(s, id) >= i + 1,
    decreases i,
{
    if i > 0 {
        if s[0].id == id {
            assert(first_with_id(s, id) == 0);
        } else {
            let rest = first_with_id(s.drop_first(), id);
            lemma_first_with_id_bounds(s.drop_first(), id);
            assert(first_with_id(s, id) == if rest == -1 { -1int } else { rest + 1 });
            lemma_first_with_id_prefix(s.drop_first(), id, i - 1);
            assert(s.drop_first()[i - 1] == s[i]);
        }
    }
}

} // verus!
