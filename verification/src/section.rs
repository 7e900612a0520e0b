//! The voxel data the mesher consumes.
//!
//! A section is a fixed 16x16x16 grid of voxel type identifiers; type 0
//! is empty air, any other value is an opaque block. Cells are stored
//! flat, addressed by `idx(x, z, y) = x*256 + z*16 + y` (z next-fastest,
//! y fastest); that ordering fixes the traversal order all three merge
//! passes depend on. A chunk is a vertical stack of sections with an
//! integer world position.

use vstd::prelude::*;

verus! {

/// Cells per section edge along x.
pub const SECTION_LENGTH_X: usize = 16;

/// Cells per section edge along y.
pub const SECTION_LENGTH_Y: usize = 16;

/// Cells per section edge along z.
pub const SECTION_LENGTH_Z: usize = 16;

/// Cells per section.
pub const SECTION_VOLUME: usize = 4096;

/// The flat index of cell (x, z, y).
pub open spec fn spec_idx(x: int, z: int, y: int) -> int {
    x * 256 + z * 16 + y
}

/// The x coordinate of flat index `k`.
pub open spec fn cell_x(k: int) -> int {
    k / 256
}

/// The z coordinate of flat index `k`.
pub open spec fn cell_z(k: int) -> int {
    (k / 16) % 16
}

/// The y coordinate of flat index `k`.
pub open spec fn cell_y(k: int) -> int {
    k % 16
}

/// Flat index and coordinates invert each other.
pub proof fn lemma_idx_coords(x: int, z: int, y: int)
    requires
        0 <= x < 16,
        0 <= z < 16,
        0 <= y < 16,
    ensures
        0 <= spec_idx(x, z, y) < 4096,
        cell_x(spec_idx(x, z, y)) == x,
        cell_z(spec_idx(x, z, y)) == z,
        cell_y(spec_idx(x, z, y)) == y,
{
    let k = spec_idx(x, z, y);
    assert(k == x * 256 + z * 16 + y);
    assert(0 <= x * 256 <= 15 * 256 && 0 <= z * 16 <= 15 * 16) by (nonlinear_arith)
        requires 0 <= x < 16 && 0 <= z < 16;
    assert((x * 256 + z * 16 + y) / 256 == x && ((x * 256 + z * 16 + y) / 16) % 16 == z
        && (x * 256 + z * 16 + y) % 16 == y) by (nonlinear_arith)
        requires 0 <= x < 16 && 0 <= z < 16 && 0 <= y < 16;
}

/// A flat index decomposes into its three coordinates.
pub proof fn lemma_cell_decomp(k: int)
    requires
        0 <= k < 4096,
    ensures
        k == 256 * cell_x(k) + 16 * cell_z(k) + cell_y(k),
        0 <= cell_x(k) < 16,
        0 <= cell_z(k) < 16,
        0 <= cell_y(k) < 16,
{
    assert(k == 256 * (k / 256) + 16 * ((k / 16) % 16) + k % 16
        && 0 <= k / 256 < 16 && 0 <= (k / 16) % 16 < 16 && 0 <= k % 16 < 16) by (nonlinear_arith)
        requires 0 <= k < 4096;
}

/// The cell one flat slot earlier is the cell below in the same column.
pub proof fn lemma_coords_prev_y(k: int)
    requires
        0 <= k < 4096,
        cell_y(k) > 0,
    ensures
        cell_x(k - 1) == cell_x(k),
        cell_z(k - 1) == cell_z(k),
        cell_y(k - 1) == cell_y(k) - 1,
{
    assert((k - 1) / 256 == k / 256 && ((k - 1) / 16) % 16 == (k / 16) % 16
        && (k - 1) % 16 == k % 16 - 1) by (nonlinear_arith)
        requires 0 <= k < 4096 && k % 16 > 0;
}

/// A 16x16x16 grid of voxel type identifiers, the immutable input of
/// one merge run. Entry `idx(x, z, y)` is the type of cell (x, z, y);
/// 0 is empty air.
pub struct Section {
    pub data: Vec<u32>,
}

impl Section {
    /// A section holds exactly one identifier per cell.
    pub open spec fn wf(&self) -> bool {
        self.data@.len() == 4096
    }

    /// The voxel type of the cell at flat index `k`.
    pub open spec fn voxel(&self, k: int) -> u32 {
        self.data@[k]
    }

    pub fn new(data: Vec<u32>) -> (s: Section)
        requires
            data@.len() == 4096,
        ensures
            s.wf(),
            s.data@ == data@,
    {
        Section { data }
    }

    /// A section uniformly filled with one voxel type.
    pub fn filled(v: u32) -> (s: Section)
        ensures
            s.wf(),
            forall|k: int| 0 <= k < 4096 ==> s.voxel(k) == v,
    {
        let mut data: Vec<u32> = Vec::new();
        let mut i: usize = 0;
        while i < 4096
            invariant
                i <= 4096,
                data@.len() == i,
                forall|k: int| 0 <= k < i ==> data@[k] == v,
            decreases 4096 - i,
        {
            data.push(v);
            i = i + 1;
        }
        Section { data }
    }

    /// The voxel type at (x, z, y).
    pub fn at(&self, x: usize, z: usize, y: usize) -> (v: u32)
        requires
            self.wf(),
            x < 16,
            z < 16,
            y < 16,
        ensures
            v == self.voxel(spec_idx(x as int, z as int, y as int)),
    {
        proof {
            lemma_idx_coords(x as int, z as int, y as int);
        }
        self.data[x * 256 + z * 16 + y]
    }
}

/// A vertical stack of sections with an integer world position, the
/// unit one mesh job works on. Positions are bounded so that every
/// block coordinate of the chunk stays far from the edge of `i32`.
pub struct Chunk {
    pub sections: Vec<Section>,
    pub x: i32,
    pub y: i32,
    pub z: i32,
}

impl Chunk {
    pub open spec fn wf(&self) -> bool {
        &&& forall|i: int| 0 <= i < self.sections@.len() ==> (#[trigger] self.sections@[i]).wf()
        &&& self.sections@.len() <= 1024
        &&& -0x10_0000 <= self.x <= 0x10_0000
        &&& -0x10_0000 <= self.y && self.y + self.sections@.len() <= 0x10_0000
        &&& -0x10_0000 <= self.z <= 0x10_0000
    }

    pub fn new(x: i32, y: i32, z: i32, sections: Vec<Section>) -> (c: Chunk)
        requires
            forall|i: int| 0 <= i < sections@.len() ==> (#[trigger] sections@[i]).wf(),
            sections@.len() <= 1024,
            -0x10_0000 <= x <= 0x10_0000,
            -0x10_0000 <= y && y + sections@.len() <= 0x10_0000,
            -0x10_0000 <= z <= 0x10_0000,
        ensures
            c.wf(),
            c.sections@ == sections@,
            c.x == x && c.y == y && c.z == z,
    {
        Chunk { sections, x, y, z }
    }

    pub fn section_count(&self) -> (n: usize)
        ensures
            n == self.sections@.len(),
    {
        self.sections.len()
    }
}

} // verus!
