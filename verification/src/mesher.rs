//! The greedy cube mesher: three merge passes over one section, then
//! box emission for every surviving record, concatenated per chunk.
//!
//! Pass 1 initializes one record per cell and merges vertical runs;
//! pass 2 merges along z; pass 3 merges along x. Emission walks the
//! finalized records in flat order, skips absorbed records and records
//! of empty air, and appends each survivor's box to the section's mesh;
//! a chunk's mesh is its sections' meshes concatenated bottom-up. Every
//! stage is mirrored by a spec-level fold, so the mesh is a function of
//! the chunk's voxel data and position alone.

use vstd::prelude::*;
use crate::emit::{cuboid_args_wf, cuboid_idxs, cuboid_verts};
use crate::group::GroupedBlock;
use crate::lateral::{lateral_pass, lateral_pre, lateral_spec, lemma_lateral_wf, Axis};
use crate::mesh::{shift_indices, Mesh, MeshBuilder, Vertex};
use crate::pass1::{pass1, pass1_spec, pass1_wf_upto};
use crate::section::{cell_x, cell_y, cell_z, Chunk, Section};

verus! {

/// The grid origin of a surviving record's box, in block units: the
/// record's flat index names the last cell of its merged run, and the
/// box is placed one extent back from it.
pub open spec fn group_origin(bp: (int, int, int), k: int, g: GroupedBlock) -> (i32, i32, i32) {
    (
        (cell_x(k) + bp.0 - g.extent_x) as i32,
        (cell_y(k) + bp.1 - g.extent_y) as i32,
        (cell_z(k) + bp.2 - g.extent_z) as i32,
    )
}

/// Emission of the record at flat index `k`: absorbed records and air
/// contribute nothing; a survivor appends its box's vertices and its
/// indices shifted past the vertices already present.
pub open spec fn emit_step(
    blocks: Seq<u32>,
    g: Seq<GroupedBlock>,
    bp: (int, int, int),
    st: (Seq<Vertex>, Seq<u32>),
    k: int,
) -> (Seq<Vertex>, Seq<u32>) {
    let grp = g[k];
    if grp.in_group || blocks[grp.block as int] == 0 {
        st
    } else {
        let ext = (grp.extent_x, grp.extent_y, grp.extent_z);
        let org = group_origin(bp, k, grp);
        (
            st.0 + cuboid_verts(ext, org, grp.face_mask),
            st.1 + shift_indices(cuboid_idxs(ext, org, grp.face_mask), st.0.len() as int),
        )
    }
}

/// The mesh data emitted by the first `k` records.
pub open spec fn emit_upto(
    blocks: Seq<u32>,
    g: Seq<GroupedBlock>,
    bp: (int, int, int),
    k: int,
) -> (Seq<Vertex>, Seq<u32>)
    decreases k,
{
    if k <= 0 {
        (Seq::<Vertex>::empty(), Seq::<u32>::empty())
    } else {
        emit_step(blocks, g, bp, emit_upto(blocks, g, bp, k - 1), k - 1)
    }
}

/// The mesh data of one section at block position `bp`: pass 1, the
/// two lateral passes, then emission of every surviving record.
pub open spec fn intrasection_spec(sec: Seq<u32>, bp: (int, int, int)) -> (Seq<Vertex>, Seq<u32>) {
    let p1 = pass1_spec(sec);
    let g2 = lateral_spec(p1.blocks, p1.groups, Axis::ZAxis);
    let g3 = lateral_spec(p1.blocks, g2, Axis::XAxis);
    emit_upto(p1.blocks, g3, bp, 4096)
}

/// The block position of the `i`-th section of a chunk.
pub open spec fn section_block_pos(c: Chunk, i: int) -> (int, int, int) {
    (c.x * 16, (c.y + i) * 16, c.z * 16)
}

/// The mesh data of a chunk's first `i` sections, concatenated.
pub open spec fn chunk_mesh_upto(c: Chunk, i: int) -> (Seq<Vertex>, Seq<u32>)
    decreases i,
{
    if i <= 0 {
        (Seq::<Vertex>::empty(), Seq::<u32>::empty())
    } else {
        let st = chunk_mesh_upto(c, i - 1);
        let sm = intrasection_spec(c.sections@[i - 1].data@, section_block_pos(c, i - 1));
        (st.0 + sm.0, st.1 + shift_indices(sm.1, st.0.len() as int))
    }
}

/// The mesh data of a whole chunk.
pub open spec fn chunk_mesh_spec(c: Chunk) -> (Seq<Vertex>, Seq<u32>) {
    chunk_mesh_upto(c, c.sections@.len() as int)
}

/// Meshes one chunk by greedy run merging, one section at a time.
pub struct GreedyCubeMesher<'a> {
    pub chunk: &'a Chunk,
}

impl<'a> GreedyCubeMesher<'a> {
    /// A mesher over the given chunk. The mesher is designed for
    /// sections of at most 16 blocks per axis; `Section`'s invariant
    /// makes every section exactly 16x16x16.
    pub fn from_chunk(chunk: &'a Chunk) -> (m: GreedyCubeMesher<'a>)
        requires
            chunk.wf(),
        ensures
            m.chunk == chunk,
    {
        GreedyCubeMesher { chunk }
    }

    /// Merge and emit one section: the result is exactly
    /// `intrasection_spec` of the section's cells and block position.
    fn intrasection_cull(&self, section_pos: (i32, i32, i32), section: &Section) -> (m: Mesh)
        requires
            section.wf(),
            -0x10_0000 <= section_pos.0 <= 0x10_0000,
            -0x10_0000 <= section_pos.1 <= 0x10_0000,
            -0x10_0000 <= section_pos.2 <= 0x10_0000,
        ensures
            m.vertices@ == intrasection_spec(
                section.data@,
                (section_pos.0 * 16, section_pos.1 * 16, section_pos.2 * 16),
            ).0,
            m.indices@ == intrasection_spec(
                section.data@,
                (section_pos.0 * 16, section_pos.1 * 16, section_pos.2 * 16),
            ).1,
            m.textures is None,
            m.vertices@.len() <= 147456,
            m.indices_in_range(),
    {
        let ghost sec = section.data@;
        let (groups, blocks) = pass1(section);
        let mut groups = groups;
        let ghost p1 = pass1_spec(sec);
        proof {
            assert(lateral_pre(blocks@, groups@, Axis::ZAxis));
        }
        lateral_pass(&mut groups, &blocks, Axis::ZAxis);
        let ghost g2 = lateral_spec(p1.blocks, p1.groups, Axis::ZAxis);
        proof {
            lemma_lateral_wf(p1.blocks, p1.groups, Axis::ZAxis, 4096);
            assert(lateral_pre(blocks@, groups@, Axis::XAxis));
        }
        lateral_pass(&mut groups, &blocks, Axis::XAxis);
        let ghost g3 = lateral_spec(p1.blocks, g2, Axis::XAxis);
        proof {
            lemma_lateral_wf(p1.blocks, g2, Axis::XAxis, 4096);
        }
        let bp: (i32, i32, i32) = (section_pos.0 * 16, section_pos.1 * 16, section_pos.2 * 16);
        let ghost bpv: (int, int, int) = (bp.0 as int, bp.1 as int, bp.2 as int);
        let mut mb = MeshBuilder::new();
        let mut pos: usize = 0;
        while pos < 4096
            invariant
                pos <= 4096,
                groups@ == g3,
                g3.len() == 4096,
                forall|j: int| 0 <= j < 4096 ==> (#[trigger] g3[j]).wf(),
                forall|j: int| 0 <= j < 4096 ==> (#[trigger] g3[j]).block < blocks@.len(),
                bpv == (bp.0 as int, bp.1 as int, bp.2 as int),
                -0x100_0000 <= bpv.0 <= 0x100_0000,
                -0x100_0000 <= bpv.1 <= 0x100_0000,
                -0x100_0000 <= bpv.2 <= 0x100_0000,
                mb.vertices@ == emit_upto(blocks@, g3, bpv, pos as int).0,
                mb.indices@ == emit_upto(blocks@, g3, bpv, pos as int).1,
                mb.textures@.len() == 0,
                mb.vertices@.len() <= 36 * pos,
                forall|i: int| 0 <= i < mb.indices@.len()
                    ==> (#[trigger] mb.indices@[i]) < mb.vertices@.len(),
            decreases 4096 - pos,
        {
            let grp: GroupedBlock = groups[pos];
            if !grp.is_in_group() && blocks[grp.block_id()] != 0 {
                let x: usize = pos / 256;
                let z: usize = (pos / 16) % 16;
                let y: usize = pos % 16;
                let ext = grp.extent();
                let org: (i32, i32, i32) = (
                    x as i32 + bp.0 - ext.0 as i32,
                    y as i32 + bp.1 - ext.1 as i32,
                    z as i32 + bp.2 - ext.2 as i32,
                );
                proof {
                    assert(cuboid_args_wf((ext.0, ext.1, ext.2), org));
                    assert(org == group_origin(bpv, pos as int, grp));
                }
                let mesh = MeshBuilder::create_cuboid(ext, org, grp.faces());
                mb = mb.add_mesh(mesh);
            }
            proof {
                assert(emit_upto(blocks@, g3, bpv, pos as int + 1)
                    == emit_step(blocks@, g3, bpv, emit_upto(blocks@, g3, bpv, pos as int), pos as int));
                assert(mb.vertices@ == emit_upto(blocks@, g3, bpv, pos as int + 1).0);
                assert(mb.indices@ == emit_upto(blocks@, g3, bpv, pos as int + 1).1);
            }
            pos = pos + 1;
        }
        mb.build()
    }

    /// Mesh the whole chunk: every section merged and emitted, the
    /// fragments concatenated bottom-up. The result is exactly
    /// `chunk_mesh_spec` of the chunk.
    pub fn generate_mesh(&self) -> (m: Mesh)
        requires
            self.chunk.wf(),
        ensures
            m.vertices@ == chunk_mesh_spec(*self.chunk).0,
            m.indices@ == chunk_mesh_spec(*self.chunk).1,
            m.textures is None,
            m.indices_in_range(),
    {
        let mut meshes = MeshBuilder::new();
        let n = self.chunk.sections.len();
        let mut i: usize = 0;
        while i < n
            invariant
                self.chunk.wf(),
                n == self.chunk.sections@.len(),
                i <= n,
                meshes.vertices@ == chunk_mesh_upto(*self.chunk, i as int).0,
                meshes.indices@ == chunk_mesh_upto(*self.chunk, i as int).1,
                meshes.textures@.len() == 0,
                meshes.vertices@.len() <= 147456 * i,
                forall|j: int| 0 <= j < meshes.indices@.len()
                    ==> (#[trigger] meshes.indices@[j]) < meshes.vertices@.len(),
            decreases n - i,
        {
            let sect_pos: (i32, i32, i32) = (self.chunk.x, self.chunk.y + i as i32, self.chunk.z);
            let m = self.intrasection_cull(sect_pos, &self.chunk.sections[i]);
            meshes = meshes.add_mesh(m);
            proof {
                assert(chunk_mesh_upto(*self.chunk, i as int + 1).0
                    == chunk_mesh_upto(*self.chunk, i as int).0
                        + intrasection_spec(
                            self.chunk.sections@[i as int].data@,
                            section_block_pos(*self.chunk, i as int),
                        ).0);
                assert(meshes.vertices@ == chunk_mesh_upto(*self.chunk, i as int + 1).0);
                assert(meshes.indices@ == chunk_mesh_upto(*self.chunk, i as int + 1).1);
            }
            i = i + 1;
        }
        meshes.build()
    }
}

} // verus!
