//! Pass 1 of the merge engine: initialization and vertical merging.
//!
//! Cells are visited in flat-index order (x outer, z middle, y fastest).
//! Each cell's voxel type is resolved to an index in a section-local
//! table of distinct types, built lazily: the table is searched from
//! its most recently added entry backwards (the most recent type is the
//! likeliest to repeat in a scanline), and a type not yet present is
//! appended, so the first occurrence wins the index. For y > 0 the cell
//! is compared with the one below it in the same column: the same type
//! index merges (the current record takes over the run, the previous is
//! absorbed), two distinct opaque types cull the touching faces, and
//! air neither merges nor culls.
//!
//! The whole pass is mirrored by a spec-level fold (`pass1_spec`), so
//! its result is a function of the section alone: re-running the pass
//! gives identical records and an identical type table.

use vstd::prelude::*;
use crate::face::Face;
use crate::group::GroupedBlock;
use crate::section::{Section, cell_y};

verus! {

/// Index of the last occurrence of `v` in `s`, or -1 when `v` is absent.
pub open spec fn rev_find(s: Seq<u32>, v: u32) -> int
    decreases s.len(),
{
    if s.len() == 0 {
        -1
    } else if s.last() == v {
        s.len() - 1
    } else {
        rev_find(s.drop_last(), v)
    }
}

pub proof fn lemma_rev_find_props(s: Seq<u32>, v: u32)
    ensures
        -1 <= rev_find(s, v) < s.len(),
        rev_find(s, v) >= 0 ==> s[rev_find(s, v)] == v,
        rev_find(s, v) == -1 ==> forall|i: int| 0 <= i < s.len() ==> s[i] != v,
    decreases s.len(),
{
    if s.len() > 0 && s.last() != v {
        lemma_rev_find_props(s.drop_last(), v);
        let r = rev_find(s, v);
        assert(r == rev_find(s.drop_last(), v));
        if r >= 0 {
            assert(s[r] == s.drop_last()[r]);
        } else {
            assert forall|i: int| 0 <= i < s.len() implies s[i] != v by {
                if i < s.len() - 1 {
                    assert(s[i] == s.drop_last()[i]);
                }
            }
        }
    }
}

/// `rev_find` is the last index holding `v`.
pub proof fn lemma_rev_find_last(s: Seq<u32>, v: u32, i: int)
    requires
        0 <= i < s.len(),
        s[i] == v,
        forall|j: int| i < j < s.len() ==> s[j] != v,
    ensures
        rev_find(s, v) == i,
    decreases s.len(),
{
    if i == s.len() - 1 {
    } else {
        lemma_rev_find_last(s.drop_last(), v, i);
    }
}

/// The state pass 1 builds cell by cell: one record per visited cell
/// and the table of distinct voxel types seen so far, in first-
/// occurrence order.
pub ghost struct Pass1State {
    pub groups: Seq<GroupedBlock>,
    pub blocks: Seq<u32>,
}

/// Process the cell at flat index `k`: resolve its type, then merge
/// with or cull against the cell below it in the same column.
pub open spec fn pass1_step(sec: Seq<u32>, st: Pass1State, k: int) -> Pass1State {
    let v = sec[k];
    let found = rev_find(st.blocks, v);
    let blocks2 = if found >= 0 { st.blocks } else { st.blocks.push(v) };
    let bid = if found >= 0 { found } else { st.blocks.len() as int };
    let fresh = GroupedBlock::spec_new(bid as u16);
    if cell_y(k) > 0 {
        let prev = st.groups[k - 1];
        if prev.block == bid as u16 {
            let merged = GroupedBlock { extent_y: (1 + prev.extent_y) as u8, ..fresh };
            let absorbed = GroupedBlock { in_group: !prev.in_group, ..prev };
            Pass1State { groups: st.groups.update(k - 1, absorbed).push(merged), blocks: blocks2 }
        } else if blocks2[prev.block as int] != 0 && blocks2[bid] != 0 {
            let culled = GroupedBlock {
                face_mask: fresh.face_mask.spec_disable(Face { bottom: true, ..Face::spec_empty() }),
                ..fresh
            };
            let prev2 = GroupedBlock {
                face_mask: prev.face_mask.spec_disable(Face { top: true, ..Face::spec_empty() }),
                ..prev
            };
            Pass1State { groups: st.groups.update(k - 1, prev2).push(culled), blocks: blocks2 }
        } else {
            Pass1State { groups: st.groups.push(fresh), blocks: blocks2 }
        }
    } else {
        Pass1State { groups: st.groups.push(fresh), blocks: blocks2 }
    }
}

/// The pass-1 state after the first `k` cells.
pub open spec fn pass1_upto(sec: Seq<u32>, k: int) -> Pass1State
    decreases k,
{
    if k <= 0 {
        Pass1State { groups: Seq::<GroupedBlock>::empty(), blocks: Seq::<u32>::empty() }
    } else {
        pass1_step(sec, pass1_upto(sec, k - 1), k - 1)
    }
}

/// The finished pass-1 state of a section.
pub open spec fn pass1_spec(sec: Seq<u32>) -> Pass1State {
    pass1_upto(sec, 4096)
}

/// Shape of the pass-1 state after `k` cells: one record per cell, a
/// table of at most one entry per cell, every record well-formed with a
/// valid table index, unit x and z extents, and a y extent no longer
/// than the column prefix it ends.
pub open spec fn pass1_wf_upto(sec: Seq<u32>, k: int) -> bool {
    let st = pass1_upto(sec, k);
    &&& st.groups.len() == k
    &&& st.blocks.len() <= if k == 0 { 0int } else { k }
    &&& forall|j: int| 0 <= j < k ==> (#[trigger] st.groups[j]).wf()
    &&& forall|j: int| 0 <= j < k ==> (#[trigger] st.groups[j]).block < st.blocks.len()
    &&& forall|j: int| 0 <= j < k ==> (#[trigger] st.groups[j]).extent_x == 1
    &&& forall|j: int| 0 <= j < k ==> (#[trigger] st.groups[j]).extent_z == 1
    &&& forall|j: int| 0 <= j < k ==> (#[trigger] st.groups[j]).extent_y <= cell_y(j) + 1
}

pub proof fn lemma_pass1_wf(sec: Seq<u32>, k: int)
    requires
        sec.len() == 4096,
        0 <= k <= 4096,
    ensures
        pass1_wf_upto(sec, k),
    decreases k,
{
    if k > 0 {
        lemma_pass1_wf(sec, k - 1);
        let st = pass1_upto(sec, k - 1);
        let st2 = pass1_upto(sec, k);
        let v = sec[k - 1];
        lemma_rev_find_props(st.blocks, v);
        assert(st2 == pass1_step(sec, st, k - 1));
        if cell_y(k - 1) > 0 {
            assert(cell_y(k - 1) == cell_y(k - 2) + 1);
        }
    }
}

/// Search the type table from the most recent entry backwards.
fn rev_find_exec(blocks: &Vec<u32>, v: u32) -> (r: Option<usize>)
    ensures
        match r {
            Some(i) => i as int == rev_find(blocks@, v),
            None => rev_find(blocks@, v) == -1,
        },
{
    let mut i: usize = blocks.len();
    while i > 0
        invariant
            i <= blocks@.len(),
            forall|j: int| i <= j < blocks@.len() ==> blocks@[j] != v,
        decreases i,
    {
        i = i - 1;
        if blocks[i] == v {
            proof {
                lemma_rev_find_last(blocks@, v, i as int);
            }
            return Some(i);
        }
    }
    proof {
        lemma_rev_find_props(blocks@, v);
    }
    None
}

/// Run pass 1 over a section: one record per cell, vertically merged,
/// plus the section-local table of distinct voxel types. The result is
/// exactly `pass1_spec` of the section's cells — a function of the
/// section alone.
pub fn pass1(section: &Section) -> (r: (Vec<GroupedBlock>, Vec<u32>))
    requires
        section.wf(),
    ensures
        r.0@ == pass1_spec(section.data@).groups,
        r.1@ == pass1_spec(section.data@).blocks,
        pass1_wf_upto(section.data@, 4096),
{
    let ghost sec = section.data@;
    let mut groups: Vec<GroupedBlock> = Vec::new();
    let mut blocks: Vec<u32> = Vec::new();
    let mut k: usize = 0;
    while k < 4096
        invariant
            section.wf(),
            sec == section.data@,
            k <= 4096,
            groups@ == pass1_upto(sec, k as int).groups,
            blocks@ == pass1_upto(sec, k as int).blocks,
        decreases 4096 - k,
    {
        proof {
            lemma_pass1_wf(sec, k as int);
            lemma_rev_find_props(blocks@, sec[k as int]);
        }
        let v: u32 = section.data[k];
        let found = rev_find_exec(&blocks, v);
        let bid: u16 = match found {
            Some(i) => i as u16,
            None => {
                blocks.push(v);
                (blocks.len() - 1) as u16
            },
        };
        let y: usize = k % 16;
        proof {
            assert(cell_y(k as int) == y as int);
            if y > 0 {
                assert(cell_y(k as int - 1) == y as int - 1);
            }
        }
        let mut group = GroupedBlock::new(bid);
        if y > 0 {
            let prev: GroupedBlock = groups[k - 1];
            let can_disable = blocks[prev.block_id()] != 0 && blocks[bid as usize] != 0;
            if prev.block == bid {
                let ext = prev.extent();
                group.extend_to(1, 1 + ext.1, 1);
                let mut p2 = prev;
                p2.toggle_group();
                groups[k - 1] = p2;
            } else if can_disable {
                let mut face1 = group.faces();
                let mut face2 = prev.faces();
                face1.disable(Face::only_bottom());
                face2.disable(Face::only_top());
                group.set_faces(face1);
                let mut p2 = prev;
                p2.set_faces(face2);
                groups[k - 1] = p2;
            }
        }
        groups.push(group);
        proof {
            assert(pass1_upto(sec, k as int + 1) == pass1_step(sec, pass1_upto(sec, k as int), k as int));
            assert(groups@ == pass1_upto(sec, k as int + 1).groups);
            assert(blocks@ == pass1_upto(sec, k as int + 1).blocks);
        }
        k = k + 1;
    }
    proof {
        lemma_pass1_wf(sec, 4096);
    }
    (groups, blocks)
}

/// Voxel-type table stability: the records and the local type table
/// pass 1 produces are a function of the section's cells alone, so two
/// independent runs over the same section assign identical type indices
/// in identical order.
pub proof fn lemma_pass1_deterministic(sec: Seq<u32>, r1: Pass1State, r2: Pass1State)
    requires
        r1 == pass1_spec(sec),
        r2 == pass1_spec(sec),
    ensures
        r1.blocks == r2.blocks,
        r1.groups == r2.groups,
{
}

} // verus!
