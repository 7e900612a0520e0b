//! Proved behaviour of the merge engine on two canonical sections.
//!
//! `lemma_uniform_merge_completeness`: a section uniformly filled with
//! one opaque type collapses, over the three passes, into exactly one
//! surviving record of extent (16,16,16) with all six faces visible —
//! an isolated section has no neighbour context, so nothing is culled.
//!
//! `lemma_alternating_transparency`: a section alternating opaque and
//! empty along every axis merges nothing and culls nothing — every
//! record keeps unit extent and all six faces, and the records of
//! empty cells are exactly those whose type resolves to air.

use vstd::prelude::*;
use crate::face::Face;
use crate::group::GroupedBlock;
use crate::lateral::{
    axis_coord, lateral_spec, lateral_step, lateral_upto, lemma_axis_coord_prev,
    lemma_other_coords_prev, stride, Axis,
};
use crate::emit::lemma_full_box_counts;
use crate::mesh::shift_indices;
use crate::mesher::{emit_step, emit_upto, group_origin, intrasection_spec};
use crate::pass1::{pass1_spec, pass1_step, pass1_upto, rev_find};
use crate::section::{cell_x, cell_y, cell_z, lemma_cell_decomp, lemma_coords_prev_y};

verus! {

/// A section whose every cell holds the one opaque type `t`.
pub open spec fn uniform_sec(sec: Seq<u32>, t: u32) -> bool {
    &&& sec.len() == 4096
    &&& t != 0
    &&& forall|j: int| 0 <= j < 4096 ==> sec[j] == t
}

/// The record pass 1 leaves at cell `j` of a uniform section once the
/// first `k` cells are processed: the column prefix up to `j` merged
/// into it, absorbed as soon as the cell above has taken it over.
spec fn u_rec1(j: int, k: int) -> GroupedBlock {
    GroupedBlock {
        extent_x: 1,
        extent_y: (cell_y(j) + 1) as u8,
        extent_z: 1,
        block: 0,
        face_mask: Face::spec_all(),
        in_group: cell_y(j) < 15 && j < k - 1,
    }
}

proof fn lemma_uniform_pass1(sec: Seq<u32>, t: u32, k: int)
    requires
        uniform_sec(sec, t),
        0 <= k <= 4096,
    ensures
        pass1_upto(sec, k).groups.len() == k,
        pass1_upto(sec, k).blocks =~= (if k == 0 { Seq::<u32>::empty() } else { seq![t] }),
        forall|j: int| 0 <= j < k ==> pass1_upto(sec, k).groups[j] == u_rec1(j, k),
    decreases k,
{
    if k > 0 {
        lemma_uniform_pass1(sec, t, k - 1);
        let st = pass1_upto(sec, k - 1);
        let st2 = pass1_upto(sec, k);
        assert(st2 == pass1_step(sec, st, k - 1));
        if k - 1 == 0 {
            assert(rev_find(st.blocks, t) == -1);
        } else {
            assert(st.blocks.last() == t);
            assert(rev_find(st.blocks, t) == st.blocks.len() - 1);
            assert(rev_find(st.blocks, t) == 0);
        }
        if cell_y(k - 1) > 0 {
            lemma_coords_prev_y(k - 1);
            assert(st.groups[k - 2] == u_rec1(k - 2, k - 1));
            assert(st2.groups[k - 2] == u_rec1(k - 2, k));
            assert(st2.groups[k - 1] == u_rec1(k - 1, k));
        } else {
            if k >= 2 {
                assert(cell_y(k - 2) == 15) by (nonlinear_arith)
                    requires 2 <= k <= 4096 && (k - 1) % 16 == 0;
                assert(st.groups[k - 2] == u_rec1(k - 2, k - 1));
                assert(st2.groups[k - 2] == u_rec1(k - 2, k));
            }
            assert(st2.groups[k - 1] == u_rec1(k - 1, k));
        }
        assert forall|j: int| 0 <= j < k implies st2.groups[j] == u_rec1(j, k) by {
            if j < k - 2 {
                assert(st.groups[j] == u_rec1(j, k - 1));
                assert(u_rec1(j, k - 1) == u_rec1(j, k));
            }
        }
    }
}

/// The record after the z pass has processed the first `k` cells of a
/// uniform section's pass-1 state: surviving column runs merge along z,
/// absorbed as soon as the run one step further in z has taken over.
spec fn u_rec2(j: int, k: int) -> GroupedBlock {
    if cell_y(j) == 15 && j < k {
        GroupedBlock {
            extent_x: 1,
            extent_y: 16,
            extent_z: (cell_z(j) + 1) as u8,
            block: 0,
            face_mask: Face::spec_all(),
            in_group: cell_z(j) < 15 && j + 16 < k,
        }
    } else {
        u_rec1(j, 4096)
    }
}

proof fn lemma_uniform_z(t: u32, g1: Seq<GroupedBlock>, k: int)
    requires
        t != 0,
        g1.len() == 4096,
        forall|j: int| 0 <= j < 4096 ==> g1[j] == u_rec1(j, 4096),
        0 <= k <= 4096,
    ensures
        lateral_upto(seq![t], g1, Axis::ZAxis, k).len() == 4096,
        forall|j: int| 0 <= j < 4096 ==> lateral_upto(seq![t], g1, Axis::ZAxis, k)[j] == u_rec2(j, k),
    decreases k,
{
    let blocks = seq![t];
    if k == 0 {
        assert forall|j: int| 0 <= j < 4096 implies lateral_upto(blocks, g1, Axis::ZAxis, 0)[j] == u_rec2(j, 0) by {
            lemma_cell_decomp(j);
        }
    } else {
        lemma_uniform_z(t, g1, k - 1);
        let g = lateral_upto(blocks, g1, Axis::ZAxis, k - 1);
        let g2 = lateral_upto(blocks, g1, Axis::ZAxis, k);
        assert(g2 == lateral_step(blocks, g, Axis::ZAxis, k - 1));
        let i = k - 1;
        lemma_cell_decomp(i);
        if cell_z(i) > 0 && cell_y(i) == 15 {
            lemma_axis_coord_prev(Axis::ZAxis, i);
            lemma_other_coords_prev(Axis::ZAxis, i);
            assert(g[i] == u_rec2(i, k - 1));
            assert(!g[i].in_group);
            assert(g[i - 16] == u_rec2(i - 16, k - 1));
            assert(!g[i - 16].in_group);
            assert(g2[i] == u_rec2(i, k));
            assert(g2[i - 16] == u_rec2(i - 16, k));
        } else if cell_y(i) != 15 {
            assert(cell_y(4095) == 15);
            assert(g[i] == u_rec2(i, k - 1));
            assert(g[i] == u_rec1(i, 4096));
            assert(g[i].in_group);
            assert(g2 == g);
            assert(g2[i] == u_rec2(i, k));
            if i >= 16 {
                assert(cell_y(i - 16) == cell_y(i)) by (nonlinear_arith)
                    requires 16 <= i < 4096;
                assert(g[i - 16] == u_rec2(i - 16, k - 1));
                assert(g2[i - 16] == u_rec2(i - 16, k));
            }
        } else {
            assert(g[i] == u_rec2(i, k - 1));
            assert(g2 == g);
            assert(g2[i] == u_rec2(i, k));
            if i >= 16 {
                assert(cell_y(i - 16) == cell_y(i) && cell_z(i - 16) == 15) by (nonlinear_arith)
                    requires 16 <= i < 4096 && (i / 16) % 16 == 0;
                assert(g[i - 16] == u_rec2(i - 16, k - 1));
                assert(g2[i - 16] == u_rec2(i - 16, k));
            }
        }
        assert forall|j: int| 0 <= j < 4096 implies g2[j] == u_rec2(j, k) by {
            lemma_cell_decomp(j);
            if j != i && j != i - 16 {
                assert(g2[j] == g[j]);
                assert(u_rec2(j, k - 1) == u_rec2(j, k));
            }
        }
    }
}

/// The record after the x pass has processed the first `k` cells:
/// surviving z runs merge along x; in the end one record, at the last
/// flat index, carries the whole section.
spec fn u_rec3(j: int, k: int) -> GroupedBlock {
    if cell_y(j) == 15 && cell_z(j) == 15 && j < k {
        GroupedBlock {
            extent_x: (cell_x(j) + 1) as u8,
            extent_y: 16,
            extent_z: 16,
            block: 0,
            face_mask: Face::spec_all(),
            in_group: cell_x(j) < 15 && j + 256 < k,
        }
    } else {
        u_rec2(j, 4096)
    }
}

proof fn lemma_uniform_x(t: u32, g2: Seq<GroupedBlock>, k: int)
    requires
        t != 0,
        g2.len() == 4096,
        forall|j: int| 0 <= j < 4096 ==> g2[j] == u_rec2(j, 4096),
        0 <= k <= 4096,
    ensures
        lateral_upto(seq![t], g2, Axis::XAxis, k).len() == 4096,
        forall|j: int| 0 <= j < 4096 ==> lateral_upto(seq![t], g2, Axis::XAxis, k)[j] == u_rec3(j, k),
    decreases k,
{
    let blocks = seq![t];
    if k == 0 {
        assert forall|j: int| 0 <= j < 4096 implies lateral_upto(blocks, g2, Axis::XAxis, 0)[j] == u_rec3(j, 0) by {
            lemma_cell_decomp(j);
        }
    } else {
        lemma_uniform_x(t, g2, k - 1);
        let g = lateral_upto(blocks, g2, Axis::XAxis, k - 1);
        let gn = lateral_upto(blocks, g2, Axis::XAxis, k);
        assert(gn == lateral_step(blocks, g, Axis::XAxis, k - 1));
        let i = k - 1;
        lemma_cell_decomp(i);
        if cell_x(i) > 0 && cell_y(i) == 15 && cell_z(i) == 15 {
            lemma_axis_coord_prev(Axis::XAxis, i);
            lemma_other_coords_prev(Axis::XAxis, i);
            assert(g[i] == u_rec3(i, k - 1));
            assert(!g[i].in_group);
            assert(g[i - 256] == u_rec3(i - 256, k - 1));
            lemma_cell_decomp(i - 256);
            assert(!g[i - 256].in_group);
            assert(gn[i] == u_rec3(i, k));
            assert(gn[i - 256] == u_rec3(i - 256, k));
        } else if cell_y(i) != 15 {
            assert(cell_y(4095) == 15);
            assert(g[i] == u_rec3(i, k - 1));
            assert(g[i] == u_rec2(i, 4096));
            assert(g[i].in_group);
            assert(gn == g);
            assert(gn[i] == u_rec3(i, k));
            if i >= 256 {
                assert(cell_y(i - 256) == cell_y(i)) by (nonlinear_arith)
                    requires 256 <= i < 4096;
                assert(g[i - 256] == u_rec3(i - 256, k - 1));
                assert(gn[i - 256] == u_rec3(i - 256, k));
            }
        } else if cell_z(i) != 15 {
            // The run at a z coordinate below 15 was absorbed by the z
            // pass: its absorber's flat index stays inside the grid.
            assert(g[i] == u_rec3(i, k - 1));
            assert(g[i] == u_rec2(i, 4096));
            assert(i + 16 <= 256 * cell_x(i) + 16 * 15 + 15 < 4096);
            assert(g[i].in_group);
            assert(gn == g);
            assert(gn[i] == u_rec3(i, k));
            if i >= 256 {
                assert(cell_y(i - 256) == cell_y(i) && cell_z(i - 256) == cell_z(i))
                    by (nonlinear_arith)
                    requires 256 <= i < 4096;
                assert(g[i - 256] == u_rec3(i - 256, k - 1));
                assert(gn[i - 256] == u_rec3(i - 256, k));
            }
        } else {
            assert(g[i] == u_rec3(i, k - 1));
            assert(gn == g);
            assert(gn[i] == u_rec3(i, k));
            assert(i < 256);
        }
        assert forall|j: int| 0 <= j < 4096 implies gn[j] == u_rec3(j, k) by {
            lemma_cell_decomp(j);
            if j != i && j != i - 256 {
                assert(gn[j] == g[j]);
                assert(u_rec3(j, k - 1) == u_rec3(j, k));
            }
        }
    }
}

/// Merge completeness: a section filled uniformly with one opaque
/// voxel type collapses into exactly one surviving record — at the last
/// flat index — of extent (16,16,16), with all six faces still visible
/// (an isolated section has no neighbour context, so nothing culls
/// them), and its type index resolves to the filling type.
pub proof fn lemma_uniform_merge_completeness(sec: Seq<u32>, t: u32)
    requires
        uniform_sec(sec, t),
    ensures
        ({
            let p1 = pass1_spec(sec);
            let g2 = lateral_spec(p1.blocks, p1.groups, Axis::ZAxis);
            let g3 = lateral_spec(p1.blocks, g2, Axis::XAxis);
            &&& g3.len() == 4096
            &&& forall|j: int| 0 <= j < 4095 ==> (#[trigger] g3[j]).in_group
            &&& !g3[4095].in_group
            &&& g3[4095].extent_x == 16
            &&& g3[4095].extent_y == 16
            &&& g3[4095].extent_z == 16
            &&& g3[4095].face_mask == Face::spec_all()
            &&& p1.blocks[g3[4095].block as int] == t
        }),
{
    let p1 = pass1_spec(sec);
    let g2 = lateral_spec(p1.blocks, p1.groups, Axis::ZAxis);
    let g3 = lateral_spec(p1.blocks, g2, Axis::XAxis);
    lemma_uniform_pass1(sec, t, 4096);
    assert(p1.blocks == seq![t]);
    assert(forall|j: int| 0 <= j < 4096 ==> p1.groups[j] == u_rec1(j, 4096));
    lemma_uniform_z(t, p1.groups, 4096);
    assert(forall|j: int| 0 <= j < 4096 ==> g2[j] == u_rec2(j, 4096));
    lemma_uniform_x(t, g2, 4096);
    assert(forall|j: int| 0 <= j < 4096 ==> g3[j] == u_rec3(j, 4096));
    assert(cell_x(4095) == 15 && cell_z(4095) == 15 && cell_y(4095) == 15);
    assert(g3[4095] == u_rec3(4095, 4096));
    assert forall|j: int| 0 <= j < 4095 implies (#[trigger] g3[j]).in_group by {
        lemma_cell_decomp(j);
        assert(g3[j] == u_rec3(j, 4096));
        if cell_y(j) == 15 && cell_z(j) == 15 {
            // A z-column run short of the last x slice: absorbed by the
            // x pass, its absorber staying inside the grid.
            assert(j == 256 * cell_x(j) + 255);
            assert(cell_x(j) < 15);
            assert(j + 256 < 4096);
        } else if cell_y(j) == 15 {
            // A column run short of the last z row: absorbed by the z
            // pass.
            assert(j + 16 <= 256 * cell_x(j) + 16 * 15 + 15 < 4096);
        }
    }
}


/// Emission over a prefix of records that are all absorbed produces
/// nothing.
proof fn lemma_skip_emit(blocks: Seq<u32>, g: Seq<GroupedBlock>, bp: (int, int, int), k: int)
    requires
        0 <= k <= 4095,
        g.len() == 4096,
        forall|j: int| 0 <= j < 4095 ==> (#[trigger] g[j]).in_group,
    ensures
        emit_upto(blocks, g, bp, k).0 == Seq::<crate::mesh::Vertex>::empty(),
        emit_upto(blocks, g, bp, k).1 == Seq::<u32>::empty(),
    decreases k,
{
    if k > 0 {
        lemma_skip_emit(blocks, g, bp, k - 1);
        assert(g[k - 1].in_group);
        assert(emit_upto(blocks, g, bp, k)
            == emit_step(blocks, g, bp, emit_upto(blocks, g, bp, k - 1), k - 1));
    }
}

/// The mesh of a uniform opaque section is one full box: exactly 8
/// vertices and 36 triangle-list indices, wherever the section sits.
pub proof fn lemma_uniform_section_mesh(sec: Seq<u32>, t: u32, bp: (int, int, int))
    requires
        uniform_sec(sec, t),
    ensures
        intrasection_spec(sec, bp).0.len() == 8,
        intrasection_spec(sec, bp).1.len() == 36,
{
    lemma_uniform_merge_completeness(sec, t);
    let p1 = pass1_spec(sec);
    let g2 = lateral_spec(p1.blocks, p1.groups, Axis::ZAxis);
    let g3 = lateral_spec(p1.blocks, g2, Axis::XAxis);
    lemma_skip_emit(p1.blocks, g3, bp, 4095);
    let st = emit_upto(p1.blocks, g3, bp, 4095);
    assert(emit_upto(p1.blocks, g3, bp, 4096) == emit_step(p1.blocks, g3, bp, st, 4095));
    let grp = g3[4095];
    assert(!grp.in_group && p1.blocks[grp.block as int] == t);
    let ext = (grp.extent_x, grp.extent_y, grp.extent_z);
    let org = group_origin(bp, 4095, grp);
    lemma_full_box_counts(ext, org);
    assert(shift_indices(crate::emit::cuboid_idxs(ext, org, grp.face_mask), 0).len() == 36);
}

/// The parity of a cell: the sum of its three coordinates, mod 2.
pub open spec fn cell_parity(j: int) -> int {
    (cell_x(j) + cell_z(j) + cell_y(j)) % 2
}

/// A section alternating one opaque type and empty air along every
/// axis: the cells whose parity equals `ph` are opaque, the rest empty.
pub open spec fn alternating_sec(sec: Seq<u32>, t: u32, ph: int) -> bool {
    &&& sec.len() == 4096
    &&& t != 0
    &&& (ph == 0 || ph == 1)
    &&& forall|j: int| 0 <= j < 4096
        ==> sec[j] == (if cell_parity(j) == ph { t } else { 0u32 })
}

/// The record every cell of an alternating section keeps through all
/// three passes: fresh, with type index 0 for even cells and 1 for odd
/// ones (the scan starts at the even origin, so first occurrence gives
/// the even cells' type the first index).
spec fn a_rec(j: int) -> GroupedBlock {
    GroupedBlock::spec_new(if cell_parity(j) == 0 { 0u16 } else { 1u16 })
}

proof fn lemma_alternating_pass1(sec: Seq<u32>, t: u32, ph: int, k: int)
    requires
        alternating_sec(sec, t, ph),
        0 <= k <= 4096,
    ensures
        pass1_upto(sec, k).groups.len() == k,
        pass1_upto(sec, k).blocks =~= (if k == 0 {
            Seq::<u32>::empty()
        } else if k == 1 {
            seq![sec[0]]
        } else {
            seq![sec[0], sec[1]]
        }),
        forall|j: int| 0 <= j < k ==> pass1_upto(sec, k).groups[j] == a_rec(j),
    decreases k,
{
    reveal_with_fuel(rev_find, 3);
    assert(cell_parity(0) == 0 && cell_parity(1) == 1);
    if k > 0 {
        lemma_alternating_pass1(sec, t, ph, k - 1);
        let st = pass1_upto(sec, k - 1);
        let st2 = pass1_upto(sec, k);
        assert(st2 == pass1_step(sec, st, k - 1));
        let i = k - 1;
        lemma_cell_decomp(i);
        let v = sec[i];
        assert(sec[0] != sec[1]);
        if i == 0 {
            assert(rev_find(st.blocks, v) == -1);
            assert(st2.blocks =~= seq![sec[0]]);
            assert(st2.groups[0] == a_rec(0));
        } else if i == 1 {
            assert(st.blocks == seq![sec[0]]);
            assert(v == sec[1] && v != sec[0]);
            assert(st.blocks.last() == sec[0]);
            assert(st.blocks.drop_last() =~= Seq::<u32>::empty());
            assert(rev_find(st.blocks, v) == -1);
            assert(st2.blocks =~= seq![sec[0], sec[1]]);
        } else {
            assert(st.blocks == seq![sec[0], sec[1]]);
            assert(st.blocks.last() == sec[1]);
            assert(st.blocks.drop_last() =~= seq![sec[0]]);
            if cell_parity(i) == 0 {
                assert(v == sec[0] && v != sec[1]);
                assert(rev_find(st.blocks, v) == 0);
            } else {
                assert(v == sec[1]);
                assert(rev_find(st.blocks, v) == 1);
            }
        }
        if cell_y(i) > 0 {
            lemma_coords_prev_y(i);
            let su = cell_x(i) + cell_z(i) + cell_y(i);
            assert((su - 1) % 2 != su % 2) by (nonlinear_arith)
                requires su >= 1;
            assert(cell_parity(i - 1) != cell_parity(i));
            assert(st.groups[i - 1] == a_rec(i - 1));
            assert(st.groups[i - 1].block != (if cell_parity(i) == 0 { 0u16 } else { 1u16 }));
            assert(st2.groups[i] == a_rec(i));
            assert(st2.groups[i - 1] == a_rec(i - 1));
        } else {
            assert(st2.groups[i] == a_rec(i));
        }
        assert forall|j: int| 0 <= j < k implies st2.groups[j] == a_rec(j) by {
            if j < i - 1 {
                assert(st.groups[j] == a_rec(j));
            }
        }
    }
}

proof fn lemma_alternating_lateral(blocks: Seq<u32>, g0: Seq<GroupedBlock>, a: Axis, k: int)
    requires
        blocks.len() == 2,
        blocks[0] == 0 || blocks[1] == 0,
        g0.len() == 4096,
        forall|j: int| 0 <= j < 4096 ==> g0[j] == a_rec(j),
        0 <= k <= 4096,
    ensures
        lateral_upto(blocks, g0, a, k) == g0,
    decreases k,
{
    if k > 0 {
        lemma_alternating_lateral(blocks, g0, a, k - 1);
        let i = k - 1;
        assert(lateral_upto(blocks, g0, a, k) == lateral_step(blocks, g0, a, i));
        if axis_coord(a, i) > 0 {
            lemma_axis_coord_prev(a, i);
            lemma_other_coords_prev(a, i);
            lemma_cell_decomp(i);
            let nbi = i - stride(a);
            lemma_cell_decomp(nbi);
            let su = cell_x(i) + cell_z(i) + cell_y(i);
            assert((su - 1) % 2 != su % 2) by (nonlinear_arith)
                requires su >= 1;
            assert(cell_parity(nbi) != cell_parity(i));
            assert(g0[i] == a_rec(i));
            assert(g0[nbi] == a_rec(nbi));
            assert(g0[i].block != g0[nbi].block);
            assert(blocks[g0[i].block as int] == 0 || blocks[g0[nbi].block as int] == 0);
            assert(lateral_step(blocks, g0, a, i) == g0);
        }
    }
}

/// Air transparency: a section alternating one opaque voxel type and
/// empty air along every axis merges nothing and culls nothing. After
/// all three passes every record still has extent (1,1,1), keeps all
/// six faces and is not absorbed, and a record's type resolves to its
/// own cell's value — so exactly the empty cells are skipped at
/// emission and every opaque cell is emitted as a full box.
pub proof fn lemma_alternating_transparency(sec: Seq<u32>, t: u32, ph: int)
    requires
        alternating_sec(sec, t, ph),
    ensures
        ({
            let p1 = pass1_spec(sec);
            let g2 = lateral_spec(p1.blocks, p1.groups, Axis::ZAxis);
            let g3 = lateral_spec(p1.blocks, g2, Axis::XAxis);
            &&& g3.len() == 4096
            &&& forall|j: int| 0 <= j < 4096 ==> !(#[trigger] g3[j]).in_group
            &&& forall|j: int| 0 <= j < 4096 ==> (#[trigger] g3[j]).extent_x == 1
                && g3[j].extent_y == 1 && g3[j].extent_z == 1
            &&& forall|j: int| 0 <= j < 4096 ==> (#[trigger] g3[j]).face_mask == Face::spec_all()
            &&& forall|j: int| 0 <= j < 4096
                ==> p1.blocks[(#[trigger] g3[j]).block as int] == sec[j]
        }),
{
    let p1 = pass1_spec(sec);
    let g2 = lateral_spec(p1.blocks, p1.groups, Axis::ZAxis);
    let g3 = lateral_spec(p1.blocks, g2, Axis::XAxis);
    lemma_alternating_pass1(sec, t, ph, 4096);
    assert(p1.blocks == seq![sec[0], sec[1]]);
    assert(cell_parity(0) == 0 && cell_parity(1) == 1);
    assert(p1.blocks[0] == 0 || p1.blocks[1] == 0);
    lemma_alternating_lateral(p1.blocks, p1.groups, Axis::ZAxis, 4096);
    assert(g2 == p1.groups);
    lemma_alternating_lateral(p1.blocks, g2, Axis::XAxis, 4096);
    assert(g3 == p1.groups);
    assert forall|j: int| 0 <= j < 4096
        implies p1.blocks[(#[trigger] g3[j]).block as int] == sec[j] by {
        assert(g3[j] == a_rec(j));
        lemma_cell_decomp(j);
    }
    assert forall|j: int| 0 <= j < 4096 implies !(#[trigger] g3[j]).in_group
        && g3[j].extent_x == 1 && g3[j].extent_y == 1 && g3[j].extent_z == 1
        && g3[j].face_mask == Face::spec_all() by {
        assert(g3[j] == a_rec(j));
    }
}

} // verus!

