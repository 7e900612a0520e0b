//! The box emitter: one surviving group record becomes the vertices
//! and triangle indices of an axis-aligned box, with only the visible
//! faces present.
//!
//! Corners carry fixed ids 0..8; faces are emitted in a fixed order
//! (back, right, top, front, left, bottom), two triangles each, and a
//! corner already added by an earlier face of the same box is reused
//! through an index map, so a box with all six faces visible emits
//! exactly 8 vertices and 36 indices. Each corner's shading value
//! comes from a fixed per-corner lookup.
//!
//! The whole emission is mirrored by spec functions (`cuboid_verts`,
//! `cuboid_idxs`), so the output is a function of the record alone.

use vstd::prelude::*;
use crate::face::Face;
use crate::mesh::{Mesh, MeshBuilder, Vertex};

verus! {

/// Sentinel in the corner-to-vertex index map: corner not yet added.
pub const UNMAPPED: u32 = 0xFFFF_FFFF;

/// Whether corner `c` sits at the far end of the box along x.
pub open spec fn corner_dx(c: int) -> bool {
    c == 2 || c == 3 || c == 6 || c == 7
}

/// Whether corner `c` sits at the far end of the box along y.
pub open spec fn corner_dy(c: int) -> bool {
    c == 1 || c == 2 || c == 5 || c == 6
}

/// Whether corner `c` sits at the far end of the box along z.
pub open spec fn corner_dz(c: int) -> bool {
    c == 4 || c == 5 || c == 6 || c == 7
}

/// The fixed per-corner shading value (an index into the renderer's
/// lighting table).
pub open spec fn corner_light(c: int) -> u8 {
    if c == 0 { 3 } else if c == 1 { 4 } else if c == 2 { 4 } else if c == 3 { 3 }
    else if c == 4 { 1 } else if c == 5 { 3 } else if c == 6 { 5 } else { 5 }
}

/// The vertex of corner `c` of a box that spans `origin .. origin + extent`.
pub open spec fn corner_vertex(extent: (u8, u8, u8), origin: (i32, i32, i32), c: int) -> Vertex {
    Vertex {
        x: (origin.0 + if corner_dx(c) { extent.0 as int } else { 0 }) as i32,
        y: (origin.1 + if corner_dy(c) { extent.1 as int } else { 0 }) as i32,
        z: (origin.2 + if corner_dz(c) { extent.2 as int } else { 0 }) as i32,
        light: corner_light(c),
    }
}

/// The corner ids of the two triangles of each face, in emission order.
pub open spec fn back_corners() -> Seq<int> { seq![1, 3, 0, 1, 2, 3] }

pub open spec fn right_corners() -> Seq<int> { seq![7, 3, 2, 6, 7, 2] }

pub open spec fn top_corners() -> Seq<int> { seq![1, 5, 6, 2, 1, 6] }

pub open spec fn front_corners() -> Seq<int> { seq![4, 7, 5, 7, 6, 5] }

pub open spec fn left_corners() -> Seq<int> { seq![0, 4, 1, 4, 5, 1] }

pub open spec fn bottom_corners() -> Seq<int> { seq![3, 7, 4, 0, 3, 4] }

/// The state of one box's emission: the vertices and indices so far,
/// and for each corner id the vertex index it was given, or `UNMAPPED`.
pub ghost struct EmitState {
    pub verts: Seq<Vertex>,
    pub idxs: Seq<u32>,
    pub mapped: Seq<u32>,
}

pub open spec fn emit_init() -> EmitState {
    EmitState {
        verts: Seq::<Vertex>::empty(),
        idxs: Seq::<u32>::empty(),
        mapped: Seq::new(8, |i: int| UNMAPPED),
    }
}

/// Emit one triangle-list entry for corner `c`: reuse the corner's
/// vertex if the box already has it, else add the vertex.
pub open spec fn emit_corner(extent: (u8, u8, u8), origin: (i32, i32, i32), st: EmitState, c: int) -> EmitState {
    if st.mapped[c] == UNMAPPED {
        EmitState {
            verts: st.verts.push(corner_vertex(extent, origin, c)),
            idxs: st.idxs.push(st.verts.len() as u32),
            mapped: st.mapped.update(c, st.verts.len() as u32),
        }
    } else {
        EmitState { idxs: st.idxs.push(st.mapped[c]), ..st }
    }
}

/// Emit the entries of `cs` in order.
pub open spec fn emit_corners(extent: (u8, u8, u8), origin: (i32, i32, i32), st: EmitState, cs: Seq<int>) -> EmitState
    decreases cs.len(),
{
    if cs.len() == 0 {
        st
    } else {
        emit_corner(extent, origin, emit_corners(extent, origin, st, cs.drop_last()), cs.last())
    }
}

pub open spec fn emit_face_if(extent: (u8, u8, u8), origin: (i32, i32, i32), st: EmitState, visible: bool, cs: Seq<int>) -> EmitState {
    if visible { emit_corners(extent, origin, st, cs) } else { st }
}

/// The final emission state of one box: faces processed in the fixed
/// order back, right, top, front, left, bottom.
pub open spec fn cuboid_state(extent: (u8, u8, u8), origin: (i32, i32, i32), faces: Face) -> EmitState {
    let s1 = emit_face_if(extent, origin, emit_init(), faces.back, back_corners());
    let s2 = emit_face_if(extent, origin, s1, faces.right, right_corners());
    let s3 = emit_face_if(extent, origin, s2, faces.top, top_corners());
    let s4 = emit_face_if(extent, origin, s3, faces.front, front_corners());
    let s5 = emit_face_if(extent, origin, s4, faces.left, left_corners());
    emit_face_if(extent, origin, s5, faces.bottom, bottom_corners())
}

/// The vertex list a record's box emits.
pub open spec fn cuboid_verts(extent: (u8, u8, u8), origin: (i32, i32, i32), faces: Face) -> Seq<Vertex> {
    cuboid_state(extent, origin, faces).verts
}

/// The triangle-index list a record's box emits.
pub open spec fn cuboid_idxs(extent: (u8, u8, u8), origin: (i32, i32, i32), faces: Face) -> Seq<u32> {
    cuboid_state(extent, origin, faces).idxs
}

/// Arguments under which a box can be emitted: a legitimate extent and
/// an origin far enough from the edge of the coordinate space that the
/// far corner still fits.
pub open spec fn cuboid_args_wf(extent: (u8, u8, u8), origin: (i32, i32, i32)) -> bool {
    &&& 1 <= extent.0 <= 16
    &&& 1 <= extent.1 <= 16
    &&& 1 <= extent.2 <= 16
    &&& -0x4000_0000 <= origin.0 <= 0x4000_0000
    &&& -0x4000_0000 <= origin.1 <= 0x4000_0000
    &&& -0x4000_0000 <= origin.2 <= 0x4000_0000
}

impl MeshBuilder {
    /// Emit one box. The result is the vertex and index data of
    /// `cuboid_verts` / `cuboid_idxs`: a function of the arguments
    /// alone, with no textures.
    pub fn create_cuboid(extent: (u8, u8, u8), origin: (i32, i32, i32), faces: Face) -> (m: Mesh)
        requires
            cuboid_args_wf(extent, origin),
        ensures
            m.vertices@ == cuboid_verts(extent, origin, faces),
            m.indices@ == cuboid_idxs(extent, origin, faces),
            m.textures is None,
            m.vertices@.len() <= 36,
            m.indices@.len() == 6 * faces.count(),
            m.indices_in_range(),
    {
        let mut verts: Vec<Vertex> = Vec::new();
        let mut idxs: Vec<u32> = Vec::new();
        let mut mapped: Vec<u32> = Vec::new();
        let mut c: usize = 0;
        while c < 8
            invariant
                c <= 8,
                mapped@.len() == c,
                forall|i: int| 0 <= i < c ==> mapped@[i] == UNMAPPED,
                verts@.len() == 0,
                idxs@.len() == 0,
            decreases 8 - c,
        {
            mapped.push(UNMAPPED);
            c = c + 1;
        }
        proof {
            assert(mapped@ =~= emit_init().mapped);
            assert(verts@ =~= emit_init().verts);
            assert(idxs@ =~= emit_init().idxs);
        }
        let ghost s0 = emit_init();
        if faces.back {
            let fc: [u8; 6] = [1, 3, 0, 1, 2, 3];
            add_face(&mut verts, &mut idxs, &mut mapped, extent, origin, fc);
            proof { assert(corner_seq(fc@) =~= back_corners()); }
        }
        let ghost s1 = emit_face_if(extent, origin, s0, faces.back, back_corners());
        proof { assert(st_of(verts@, idxs@, mapped@) == s1); }
        if faces.right {
            let fc: [u8; 6] = [7, 3, 2, 6, 7, 2];
            add_face(&mut verts, &mut idxs, &mut mapped, extent, origin, fc);
            proof { assert(corner_seq(fc@) =~= right_corners()); }
        }
        let ghost s2 = emit_face_if(extent, origin, s1, faces.right, right_corners());
        proof { assert(st_of(verts@, idxs@, mapped@) == s2); }
        if faces.top {
            let fc: [u8; 6] = [1, 5, 6, 2, 1, 6];
            add_face(&mut verts, &mut idxs, &mut mapped, extent, origin, fc);
            proof { assert(corner_seq(fc@) =~= top_corners()); }
        }
        let ghost s3 = emit_face_if(extent, origin, s2, faces.top, top_corners());
        proof { assert(st_of(verts@, idxs@, mapped@) == s3); }
        if faces.front {
            let fc: [u8; 6] = [4, 7, 5, 7, 6, 5];
            add_face(&mut verts, &mut idxs, &mut mapped, extent, origin, fc);
            proof { assert(corner_seq(fc@) =~= front_corners()); }
        }
        let ghost s4 = emit_face_if(extent, origin, s3, faces.front, front_corners());
        proof { assert(st_of(verts@, idxs@, mapped@) == s4); }
        if faces.left {
            let fc: [u8; 6] = [0, 4, 1, 4, 5, 1];
            add_face(&mut verts, &mut idxs, &mut mapped, extent, origin, fc);
            proof { assert(corner_seq(fc@) =~= left_corners()); }
        }
        let ghost s5 = emit_face_if(extent, origin, s4, faces.left, left_corners());
        proof { assert(st_of(verts@, idxs@, mapped@) == s5); }
        if faces.bottom {
            let fc: [u8; 6] = [3, 7, 4, 0, 3, 4];
            add_face(&mut verts, &mut idxs, &mut mapped, extent, origin, fc);
            proof { assert(corner_seq(fc@) =~= bottom_corners()); }
        }
        let ghost s6 = emit_face_if(extent, origin, s5, faces.bottom, bottom_corners());
        proof { assert(st_of(verts@, idxs@, mapped@) == s6); }
        Mesh { vertices: verts, indices: idxs, textures: None }
    }
}

impl MeshBuilder {
    /// Emit one cube: a box of the same extent along every axis.
    pub fn create_cube(length: u8, origin: (i32, i32, i32), faces: Face) -> (m: Mesh)
        requires
            cuboid_args_wf((length, length, length), origin),
        ensures
            m.vertices@ == cuboid_verts((length, length, length), origin, faces),
            m.indices@ == cuboid_idxs((length, length, length), origin, faces),
            m.textures is None,
    {
        MeshBuilder::create_cuboid((length, length, length), origin, faces)
    }
}

/// The emission state the three exec buffers stand for.
pub open spec fn st_of(verts: Seq<Vertex>, idxs: Seq<u32>, mapped: Seq<u32>) -> EmitState {
    EmitState { verts: verts, idxs: idxs, mapped: mapped }
}

/// Corner ids widened to the spec index type.
pub open spec fn corner_seq(cs: Seq<u8>) -> Seq<int> {
    cs.map_values(|c: u8| c as int)
}

/// Exec buffers that stand for a plausible emission state: 8 map
/// entries, each either unmapped or a valid vertex index, every index
/// already emitted valid, and room to grow.
pub open spec fn bufs_wf(verts: Seq<Vertex>, idxs: Seq<u32>, mapped: Seq<u32>) -> bool {
    &&& mapped.len() == 8
    &&& forall|i: int| 0 <= i < 8 ==> (#[trigger] mapped[i]) == UNMAPPED || mapped[i] < verts.len()
    &&& forall|i: int| 0 <= i < idxs.len() ==> (#[trigger] idxs[i]) < verts.len()
}

/// The vertex of corner `c`.
fn corner_vertex_exec(extent: (u8, u8, u8), origin: (i32, i32, i32), c: u8) -> (v: Vertex)
    requires
        c < 8,
        cuboid_args_wf(extent, origin),
    ensures
        v == corner_vertex(extent, origin, c as int),
{
    let dx = c == 2 || c == 3 || c == 6 || c == 7;
    let dy = c == 1 || c == 2 || c == 5 || c == 6;
    let dz = c == 4 || c == 5 || c == 6 || c == 7;
    let light: u8 = if c == 0 { 3 } else if c == 1 { 4 } else if c == 2 { 4 } else if c == 3 { 3 }
        else if c == 4 { 1 } else if c == 5 { 3 } else if c == 6 { 5 } else { 5 };
    Vertex {
        x: origin.0 + if dx { extent.0 as i32 } else { 0 },
        y: origin.1 + if dy { extent.1 as i32 } else { 0 },
        z: origin.2 + if dz { extent.2 as i32 } else { 0 },
        light: light,
    }
}

/// Emit one face: six triangle-list entries over the given corner ids,
/// reusing corners the box already has.
fn add_face(
    verts: &mut Vec<Vertex>,
    idxs: &mut Vec<u32>,
    mapped: &mut Vec<u32>,
    extent: (u8, u8, u8),
    origin: (i32, i32, i32),
    corners: [u8; 6],
)
    requires
        cuboid_args_wf(extent, origin),
        bufs_wf(old(verts)@, old(idxs)@, old(mapped)@),
        old(verts)@.len() <= 30,
        forall|j: int| 0 <= j < 6 ==> (#[trigger] corners@[j]) < 8,
    ensures
        st_of(final(verts)@, final(idxs)@, final(mapped)@)
            == emit_corners(extent, origin, st_of(old(verts)@, old(idxs)@, old(mapped)@), corner_seq(corners@)),
        bufs_wf(final(verts)@, final(idxs)@, final(mapped)@),
        final(verts)@.len() <= old(verts)@.len() + 6,
        final(idxs)@.len() == old(idxs)@.len() + 6,
{
    let ghost st0 = st_of(old(verts)@, old(idxs)@, old(mapped)@);
    let ghost cs = corner_seq(corners@);
    let mut j: usize = 0;
    while j < 6
        invariant
            j <= 6,
            cuboid_args_wf(extent, origin),
            cs == corner_seq(corners@),
            cs.len() == 6,
            forall|i: int| 0 <= i < 6 ==> 0 <= (#[trigger] cs[i]) < 8,
            forall|i: int| 0 <= i < 6 ==> (#[trigger] corners@[i]) as int == cs[i],
            st_of(verts@, idxs@, mapped@) == emit_corners(extent, origin, st0, cs.take(j as int)),
            bufs_wf(verts@, idxs@, mapped@),
            st0.verts.len() <= 30,
            verts@.len() <= st0.verts.len() + j,
            idxs@.len() == st0.idxs.len() + j,
        decreases 6 - j,
    {
        let c: u8 = corners[j];
        let ghost st_pre = st_of(verts@, idxs@, mapped@);
        if mapped[c as usize] == UNMAPPED {
            let v = corner_vertex_exec(extent, origin, c);
            let n: u32 = verts.len() as u32;
            idxs.push(n);
            mapped[c as usize] = n;
            verts.push(v);
        } else {
            let n: u32 = mapped[c as usize];
            idxs.push(n);
        }
        proof {
            let jj = j as int;
            assert(st_of(verts@, idxs@, mapped@) == emit_corner(extent, origin, st_pre, cs[jj]));
            assert(cs.take(jj + 1) == cs.take(jj).push(cs[jj]));
            assert(cs.take(jj + 1).len() == jj + 1);
            assert(cs.take(jj + 1).drop_last() == cs.take(jj));
            assert(cs.take(jj + 1).last() == cs[jj]);
            assert(emit_corners(extent, origin, st0, cs.take(jj + 1))
                == emit_corner(extent, origin,
                    emit_corners(extent, origin, st0, cs.take(jj + 1).drop_last()),
                    cs.take(jj + 1).last()));
            assert(st_of(verts@, idxs@, mapped@) == emit_corners(extent, origin, st0, cs.take(jj + 1)));
        }
        j = j + 1;
    }
    proof {
        assert(cs.take(6) == cs);
    }
}

/// A box with all six faces visible emits exactly 8 vertices — each
/// corner shared among its three faces — and 36 triangle-list indices,
/// whatever its extent and position.
pub proof fn lemma_full_box_counts(extent: (u8, u8, u8), origin: (i32, i32, i32))
    ensures
        cuboid_verts(extent, origin, Face::spec_all()).len() == 8,
        cuboid_idxs(extent, origin, Face::spec_all()).len() == 36,
{
    reveal_with_fuel(emit_corners, 8);
    let s0 = emit_init();
    let s1 = emit_corners(extent, origin, s0, back_corners());
    assert(s1.verts.len() == 4 && s1.idxs.len() == 6 && s1.mapped.len() == 8);
    let s2 = emit_corners(extent, origin, s1, right_corners());
    assert(s2.verts.len() == 6 && s2.idxs.len() == 12 && s2.mapped.len() == 8);
    let s3 = emit_corners(extent, origin, s2, top_corners());
    assert(s3.verts.len() == 7 && s3.idxs.len() == 18 && s3.mapped.len() == 8);
    let s4 = emit_corners(extent, origin, s3, front_corners());
    assert(s4.verts.len() == 8 && s4.idxs.len() == 24 && s4.mapped.len() == 8);
    let s5 = emit_corners(extent, origin, s4, left_corners());
    assert(s5.verts.len() == 8 && s5.idxs.len() == 30 && s5.mapped.len() == 8);
    let s6 = emit_corners(extent, origin, s5, bottom_corners());
    assert(s6.verts.len() == 8 && s6.idxs.len() == 36);
    assert(cuboid_state(extent, origin, Face::spec_all()) == s6);
}

/// Idempotent emission: the mesh data a finalized record emits is a
/// function of the record alone, so emitting the same record twice
/// gives bit-identical vertex and index data.
pub proof fn lemma_emission_deterministic(
    m1: Mesh,
    m2: Mesh,
    extent: (u8, u8, u8),
    origin: (i32, i32, i32),
    faces: Face,
)
    requires
        m1.vertices@ == cuboid_verts(extent, origin, faces),
        m1.indices@ == cuboid_idxs(extent, origin, faces),
        m2.vertices@ == cuboid_verts(extent, origin, faces),
        m2.indices@ == cuboid_idxs(extent, origin, faces),
    ensures
        m1.vertices@ == m2.vertices@,
        m1.indices@ == m2.indices@,
{
}

} // verus!
