//! Passes 2 and 3 of the merge engine: lateral run merging.
//!
//! Both passes walk the flat array in the same order as pass 1 and
//! compare each record with its neighbour one step earlier along the
//! pass's axis (16 flat slots for z, 256 for x). A record already
//! absorbed is skipped. Merging requires the neighbour to survive and
//! both records to present the same cross-section in the axes still
//! pending (equal y extents for the z pass; equal y and z extents for
//! the x pass) and the same voxel type: then the earlier record is
//! absorbed and the current one takes over its extent. Otherwise two
//! opaque records whose neighbour covers at least the current record's
//! cross-section cull the touching faces; when the neighbour was itself
//! absorbed into an earlier run only the current record's near face is
//! culled, since the absorbed record's face state already reflects its
//! own merge chain.
//!
//! Each pass is mirrored by a spec-level fold (`lateral_spec`), so its
//! result is a function of its input alone.

use vstd::prelude::*;
use crate::face::Face;
use crate::group::GroupedBlock;
use crate::section::{cell_x, cell_y, cell_z};

verus! {

/// The axis a lateral pass merges along.
#[derive(Clone, Copy, PartialEq, Eq, Structural, Debug)]
pub enum Axis {
    ZAxis,
    XAxis,
}

/// How many flat slots one step along the axis spans.
pub open spec fn stride(a: Axis) -> int {
    match a {
        Axis::ZAxis => 16,
        Axis::XAxis => 256,
    }
}

/// The coordinate of flat index `k` along the axis.
pub open spec fn axis_coord(a: Axis, k: int) -> int {
    match a {
        Axis::ZAxis => cell_z(k),
        Axis::XAxis => cell_x(k),
    }
}

/// The record's extent along the axis.
pub open spec fn axis_extent(a: Axis, g: GroupedBlock) -> u8 {
    match a {
        Axis::ZAxis => g.extent_z,
        Axis::XAxis => g.extent_x,
    }
}

/// Whether the two extents not merged by this pass agree between the
/// two records.
pub open spec fn cross_extents_eq(a: Axis, g: GroupedBlock, h: GroupedBlock) -> bool {
    match a {
        Axis::ZAxis => g.extent_x == h.extent_x && g.extent_y == h.extent_y,
        Axis::XAxis => g.extent_y == h.extent_y && g.extent_z == h.extent_z,
    }
}

/// Whether the records present the same cross-section in the axes
/// still pending, the condition for merging.
pub open spec fn extents_match(a: Axis, cur: GroupedBlock, nb: GroupedBlock) -> bool {
    match a {
        Axis::ZAxis => cur.extent_y == nb.extent_y,
        Axis::XAxis => cur.extent_y == nb.extent_y && cur.extent_z == nb.extent_z,
    }
}

/// Whether the neighbour covers at least the current record's
/// cross-section, the geometric condition for culling.
pub open spec fn covers(a: Axis, nb: GroupedBlock, cur: GroupedBlock) -> bool {
    match a {
        Axis::ZAxis => nb.extent_y >= cur.extent_y,
        Axis::XAxis => nb.extent_y >= cur.extent_y && nb.extent_z >= cur.extent_z,
    }
}

/// The current record's face towards the neighbour.
pub open spec fn near_mask(a: Axis) -> Face {
    match a {
        Axis::ZAxis => Face { back: true, ..Face::spec_empty() },
        Axis::XAxis => Face { left: true, ..Face::spec_empty() },
    }
}

/// The neighbour's face towards the current record.
pub open spec fn far_mask(a: Axis) -> Face {
    match a {
        Axis::ZAxis => Face { front: true, ..Face::spec_empty() },
        Axis::XAxis => Face { right: true, ..Face::spec_empty() },
    }
}

/// The current record after taking over the neighbour's run.
pub open spec fn extend_along(a: Axis, cur: GroupedBlock, nb: GroupedBlock) -> GroupedBlock {
    match a {
        Axis::ZAxis => GroupedBlock { extent_z: (cur.extent_z + nb.extent_z) as u8, ..cur },
        Axis::XAxis => GroupedBlock { extent_x: (cur.extent_x + nb.extent_x) as u8, ..cur },
    }
}

/// Process the record at flat index `k` against its neighbour one step
/// earlier along the axis.
pub open spec fn lateral_step(blocks: Seq<u32>, g: Seq<GroupedBlock>, a: Axis, k: int) -> Seq<GroupedBlock> {
    if axis_coord(a, k) == 0 {
        g
    } else {
        let cur = g[k];
        let nb = g[k - stride(a)];
        if cur.in_group {
            g
        } else {
            let can_disable = blocks[cur.block as int] != 0 && blocks[nb.block as int] != 0
                && covers(a, nb, cur);
            if nb.in_group {
                if can_disable {
                    g.update(k, GroupedBlock { face_mask: cur.face_mask.spec_disable(near_mask(a)), ..cur })
                } else {
                    g
                }
            } else if extents_match(a, cur, nb) {
                if cur.block == nb.block {
                    g.update(k - stride(a), GroupedBlock { in_group: !nb.in_group, ..nb })
                        .update(k, extend_along(a, cur, nb))
                } else if can_disable {
                    g.update(k, GroupedBlock { face_mask: cur.face_mask.spec_disable(near_mask(a)), ..cur })
                        .update(k - stride(a), GroupedBlock { face_mask: nb.face_mask.spec_disable(far_mask(a)), ..nb })
                } else {
                    g
                }
            } else {
                g
            }
        }
    }
}

/// The pass's state after the first `k` records.
pub open spec fn lateral_upto(blocks: Seq<u32>, g0: Seq<GroupedBlock>, a: Axis, k: int) -> Seq<GroupedBlock>
    decreases k,
{
    if k <= 0 {
        g0
    } else {
        lateral_step(blocks, lateral_upto(blocks, g0, a, k - 1), a, k - 1)
    }
}

/// The finished pass over all 4096 records.
pub open spec fn lateral_spec(blocks: Seq<u32>, g0: Seq<GroupedBlock>, a: Axis) -> Seq<GroupedBlock> {
    lateral_upto(blocks, g0, a, 4096)
}

/// What a lateral pass needs of its input: one well-formed record per
/// cell with a valid table index, and no run yet along the pass's own
/// axis.
pub open spec fn lateral_pre(blocks: Seq<u32>, g: Seq<GroupedBlock>, a: Axis) -> bool {
    &&& g.len() == 4096
    &&& forall|j: int| 0 <= j < 4096 ==> (#[trigger] g[j]).wf()
    &&& forall|j: int| 0 <= j < 4096 ==> (#[trigger] g[j]).block < blocks.len()
    &&& forall|j: int| 0 <= j < 4096 ==> axis_extent(a, #[trigger] g[j]) == 1
}

/// One step back along the axis: the neighbour's coordinate is one
/// less and its flat index is in range.
pub proof fn lemma_axis_coord_prev(a: Axis, k: int)
    requires
        0 <= k < 4096,
        axis_coord(a, k) > 0,
    ensures
        0 <= k - stride(a) < k,
        axis_coord(a, k - stride(a)) == axis_coord(a, k) - 1,
        0 <= axis_coord(a, k) <= 15,
{
    match a {
        Axis::ZAxis => {
            assert(0 <= (k / 16) % 16 <= 15 && ((k / 16) % 16 > 0 ==> k >= 16)) by (nonlinear_arith)
                requires 0 <= k < 4096;
            assert(((k - 16) / 16) % 16 == (k / 16) % 16 - 1) by (nonlinear_arith)
                requires 16 <= k < 4096 && (k / 16) % 16 > 0;
        },
        Axis::XAxis => {
            assert(0 <= k / 256 <= 15 && (k / 256 > 0 ==> k >= 256)) by (nonlinear_arith)
                requires 0 <= k < 4096;
            assert((k - 256) / 256 == k / 256 - 1) by (nonlinear_arith)
                requires 256 <= k < 4096;
        },
    }
}

/// The neighbour one step back along the axis shares the other two
/// coordinates.
pub proof fn lemma_other_coords_prev(a: Axis, k: int)
    requires
        0 <= k < 4096,
        axis_coord(a, k) > 0,
    ensures
        match a {
            Axis::ZAxis => cell_x(k - 16) == cell_x(k) && cell_y(k - 16) == cell_y(k),
            Axis::XAxis => cell_z(k - 256) == cell_z(k) && cell_y(k - 256) == cell_y(k),
        },
{
    lemma_axis_coord_prev(a, k);
    match a {
        Axis::ZAxis => {
            assert((k - 16) / 256 == k / 256 && (k - 16) % 16 == k % 16) by (nonlinear_arith)
                requires 0 <= k < 4096 && (k / 16) % 16 > 0;
        },
        Axis::XAxis => {
            assert(((k - 256) / 16) % 16 == (k / 16) % 16 && (k - 256) % 16 == k % 16)
                by (nonlinear_arith)
                requires 256 <= k < 4096;
        },
    }
}

/// Shape of the pass's state after `k` records: records stay
/// well-formed with their table index and cross extents untouched,
/// records not yet visited are exactly the input, and a merged run
/// along the axis never outgrows the coordinate of its last cell.
pub proof fn lemma_lateral_wf(blocks: Seq<u32>, g0: Seq<GroupedBlock>, a: Axis, k: int)
    requires
        lateral_pre(blocks, g0, a),
        0 <= k <= 4096,
    ensures
        lateral_upto(blocks, g0, a, k).len() == 4096,
        forall|j: int| 0 <= j < 4096 ==> (#[trigger] lateral_upto(blocks, g0, a, k)[j]).wf(),
        forall|j: int| 0 <= j < 4096 ==> (#[trigger] lateral_upto(blocks, g0, a, k)[j]).block == g0[j].block,
        forall|j: int| k <= j < 4096 ==> (#[trigger] lateral_upto(blocks, g0, a, k)[j]) == g0[j],
        forall|j: int| 0 <= j < 4096 ==> cross_extents_eq(a, #[trigger] lateral_upto(blocks, g0, a, k)[j], g0[j]),
        forall|j: int| 0 <= j < k ==> axis_extent(a, #[trigger] lateral_upto(blocks, g0, a, k)[j]) <= axis_coord(a, j) + 1,
    decreases k,
{
    if k > 0 {
        lemma_lateral_wf(blocks, g0, a, k - 1);
        let g = lateral_upto(blocks, g0, a, k - 1);
        let g2 = lateral_upto(blocks, g0, a, k);
        assert(g2 == lateral_step(blocks, g, a, k - 1));
        if axis_coord(a, k - 1) > 0 {
            lemma_axis_coord_prev(a, k - 1);
            let cur = g[k - 1];
            let nb = g[k - 1 - stride(a)];
            assert(cur == g0[k - 1]);
            if !cur.in_group && !nb.in_group && extents_match(a, cur, nb) && cur.block == nb.block {
                assert(axis_extent(a, cur) == 1);
                if k - 1 - stride(a) < k - 1 {
                    assert(axis_extent(a, nb) <= axis_coord(a, k - 1 - stride(a)) + 1);
                }
                assert(axis_extent(a, extend_along(a, cur, nb)) == 1 + axis_extent(a, nb));
            }
        }
    }
}

/// Run one lateral pass in place. The result is exactly `lateral_spec`
/// of the input records — a function of the records and the type table
/// alone.
pub fn lateral_pass(groups: &mut Vec<GroupedBlock>, blocks: &Vec<u32>, axis: Axis)
    requires
        lateral_pre(blocks@, old(groups)@, axis),
    ensures
        final(groups)@ == lateral_spec(blocks@, old(groups)@, axis),
{
    let ghost g0 = old(groups)@;
    let mut k: usize = 0;
    while k < 4096
        invariant
            lateral_pre(blocks@, g0, axis),
            k <= 4096,
            groups@ == lateral_upto(blocks@, g0, axis, k as int),
        decreases 4096 - k,
    {
        proof {
            lemma_lateral_wf(blocks@, g0, axis, k as int);
        }
        let coord: usize = match axis {
            Axis::ZAxis => (k / 16) % 16,
            Axis::XAxis => k / 256,
        };
        proof {
            assert(coord as int == axis_coord(axis, k as int));
        }
        if coord > 0 {
            proof {
                lemma_axis_coord_prev(axis, k as int);
            }
            let str: usize = match axis {
                Axis::ZAxis => 16,
                Axis::XAxis => 256,
            };
            let idx = k;
            let idx2 = k - str;
            let cur: GroupedBlock = groups[idx];
            if !cur.is_in_group() {
                let nb: GroupedBlock = groups[idx2];
                let cur_ext = cur.extent();
                let nb_ext = nb.extent();
                let covers_cross = match axis {
                    Axis::ZAxis => nb_ext.1 >= cur_ext.1,
                    Axis::XAxis => nb_ext.1 >= cur_ext.1 && nb_ext.2 >= cur_ext.2,
                };
                let can_disable = blocks[cur.block_id()] != 0 && blocks[nb.block_id()] != 0
                    && covers_cross;
                let near = match axis {
                    Axis::ZAxis => Face::only_back(),
                    Axis::XAxis => Face::only_left(),
                };
                let same_cross = match axis {
                    Axis::ZAxis => cur_ext.1 == nb_ext.1,
                    Axis::XAxis => cur_ext.1 == nb_ext.1 && cur_ext.2 == nb_ext.2,
                };
                if nb.is_in_group() {
                    if can_disable {
                        let mut f = cur.faces();
                        f.disable(near);
                        let mut c2 = cur;
                        c2.set_faces(f);
                        groups[idx] = c2;
                    }
                } else if same_cross {
                    if cur.block == nb.block {
                        let mut n2 = nb;
                        n2.toggle_group();
                        groups[idx2] = n2;
                        let mut c2 = cur;
                        match axis {
                            Axis::ZAxis => c2.extend_to(cur_ext.0, cur_ext.1, cur_ext.2 + nb_ext.2),
                            Axis::XAxis => c2.extend_to(cur_ext.0 + nb_ext.0, cur_ext.1, cur_ext.2),
                        }
                        groups[idx] = c2;
                    } else if can_disable {
                        let mut f1 = cur.faces();
                        let mut f2 = nb.faces();
                        f1.disable(near);
                        let far = match axis {
                            Axis::ZAxis => Face::only_front(),
                            Axis::XAxis => Face::only_right(),
                        };
                        f2.disable(far);
                        let mut c2 = cur;
                        c2.set_faces(f1);
                        groups[idx] = c2;
                        let mut n2 = nb;
                        n2.set_faces(f2);
                        groups[idx2] = n2;
                    }
                }
            }
        }
        proof {
            assert(lateral_upto(blocks@, g0, axis, k as int + 1)
                == lateral_step(blocks@, lateral_upto(blocks@, g0, axis, k as int), axis, k as int));
            assert(groups@ == lateral_upto(blocks@, g0, axis, k as int + 1));
        }
        k = k + 1;
    }
}

} // verus!
