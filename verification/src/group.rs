//! The per-cell group record of the merge engine.
//!
//! One record describes either a single grid cell or a merged run of
//! cells: its extent along each axis (1..=16), an index into the
//! section-local table of distinct voxel types, the set of still-visible
//! faces, and a flag that marks the record as absorbed into another run.
//!
//! The record is kept as named fields so the merge logic stays legible;
//! `pack` / `unpack` give the compact 32-bit form at the boundary:
//!
//! - bits 0..4:   z extent (0 encodes 16)
//! - bits 4..8:   y extent (0 encodes 16)
//! - bits 8..12:  x extent (0 encodes 16)
//! - bits 12..24: voxel-type index
//! - bits 24..30: face mask (back, right, top, front, left, bottom)
//! - bit 30:      absorbed-into-a-group flag
//!
//! An extent can never legitimately be 0, so the encoding reuses 0 for
//! magnitude 16 and each extent still fits in 4 bits.

use vstd::prelude::*;
use crate::face::Face;

verus! {

/// A group record: one grid cell, or a merged run of identical cells.
#[derive(Clone, Copy, PartialEq, Eq, Structural, Debug)]
pub struct GroupedBlock {
    /// Extent of the run along x, in cells; always in 1..=16.
    pub extent_x: u8,
    /// Extent of the run along y, in cells; always in 1..=16.
    pub extent_y: u8,
    /// Extent of the run along z, in cells; always in 1..=16.
    pub extent_z: u8,
    /// Index into the section-local table of distinct voxel types.
    pub block: u16,
    /// Which faces of the run's box are still visible.
    pub face_mask: Face,
    /// True when this record was folded into another surviving record
    /// and must be skipped during emission.
    pub in_group: bool,
}

/// Encode one extent magnitude into its 4-bit form (16 becomes 0).
pub open spec fn enc_extent(e: u8) -> u32 {
    (e & 0xF) as u32
}

/// Decode one 4-bit extent field (0 means 16).
pub open spec fn dec_extent(bits: u32) -> u8 {
    if bits == 0 { 16 } else { bits as u8 }
}

impl GroupedBlock {
    /// Well-formed record: extents in range and a type index that fits
    /// the 12-bit field.
    pub open spec fn wf(self) -> bool {
        &&& 1 <= self.extent_x <= 16
        &&& 1 <= self.extent_y <= 16
        &&& 1 <= self.extent_z <= 16
        &&& self.block < 4096
    }

    /// The record a cell starts from: extent (1,1,1), all faces
    /// visible, not absorbed.
    pub open spec fn spec_new(block: u16) -> GroupedBlock {
        GroupedBlock {
            extent_x: 1,
            extent_y: 1,
            extent_z: 1,
            block: block,
            face_mask: Face::spec_all(),
            in_group: false,
        }
    }

    /// The 32-bit packed form of the record.
    pub open spec fn spec_pack(self) -> u32 {
        enc_extent(self.extent_z)
        | (enc_extent(self.extent_y) << 4)
        | (enc_extent(self.extent_x) << 8)
        | ((self.block as u32) << 12)
        | ((self.face_mask.spec_bits() as u32) << 24)
        | (if self.in_group { 1u32 << 30 } else { 0 })
    }

    /// The record encoded by a 32-bit word (bit 31 is ignored).
    pub open spec fn spec_unpack(bits: u32) -> GroupedBlock {
        GroupedBlock {
            extent_x: dec_extent((bits >> 8) & 0xF),
            extent_y: dec_extent((bits >> 4) & 0xF),
            extent_z: dec_extent(bits & 0xF),
            block: ((bits >> 12) & 0xFFF) as u16,
            face_mask: Face {
                back: ((bits >> 24) & 0x01) != 0,
                right: ((bits >> 24) & 0x02) != 0,
                top: ((bits >> 24) & 0x04) != 0,
                front: ((bits >> 24) & 0x08) != 0,
                left: ((bits >> 24) & 0x10) != 0,
                bottom: ((bits >> 24) & 0x20) != 0,
            },
            in_group: ((bits >> 30) & 1) == 1,
        }
    }

    pub fn new(block: u16) -> (g: GroupedBlock)
        requires
            block < 4096,
        ensures
            g == GroupedBlock::spec_new(block),
            g.wf(),
    {
        GroupedBlock {
            extent_x: 1,
            extent_y: 1,
            extent_z: 1,
            block: block,
            face_mask: Face::all(),
            in_group: false,
        }
    }

    /// The voxel-type index of this record.
    pub fn block_id(&self) -> (r: usize)
        ensures
            r == self.block as usize,
    {
        self.block as usize
    }

    /// The run's extent along (x, y, z), in cells.
    pub fn extent(&self) -> (ext: (u8, u8, u8))
        ensures
            ext.0 == self.extent_x,
            ext.1 == self.extent_y,
            ext.2 == self.extent_z,
    {
        (self.extent_x, self.extent_y, self.extent_z)
    }

    /// Whether the record was absorbed into another surviving record.
    pub fn is_in_group(&self) -> (r: bool)
        ensures
            r == self.in_group,
    {
        self.in_group
    }

    /// The still-visible faces of the run's box.
    pub fn faces(&self) -> (f: Face)
        ensures
            f == self.face_mask,
    {
        self.face_mask
    }

    /// Overwrite the extent; the other fields are left untouched.
    /// Extents above 16 would not fit the packed form; the caller must
    /// keep runs within the section's 16-per-axis bound.
    pub fn extend_to(&mut self, x: u8, y: u8, z: u8)
        requires
            1 <= x <= 16,
            1 <= y <= 16,
            1 <= z <= 16,
        ensures
            *final(self) == (GroupedBlock { extent_x: x, extent_y: y, extent_z: z, ..*old(self) }),
    {
        self.extent_x = x;
        self.extent_y = y;
        self.extent_z = z;
    }

    /// Flip the absorbed flag.
    pub fn toggle_group(&mut self)
        ensures
            *final(self) == (GroupedBlock { in_group: !old(self).in_group, ..*old(self) }),
    {
        self.in_group = !self.in_group;
    }

    /// Overwrite the face mask; the other fields are left untouched.
    pub fn set_faces(&mut self, face: Face)
        ensures
            *final(self) == (GroupedBlock { face_mask: face, ..*old(self) }),
    {
        self.face_mask = face;
    }

    /// Encode the record into its 32-bit packed form.
    pub fn pack(&self) -> (bits: u32)
        requires
            self.wf(),
        ensures
            bits == self.spec_pack(),
    {
        let ez: u32 = (self.extent_z & 0xF) as u32;
        let ey: u32 = (self.extent_y & 0xF) as u32;
        let ex: u32 = (self.extent_x & 0xF) as u32;
        ez
        | (ey << 4)
        | (ex << 8)
        | ((self.block as u32) << 12)
        | ((self.face_mask.into_bitfield() as u32) << 24)
        | (if self.in_group { 1u32 << 30 } else { 0 })
    }

    /// Decode a record from its 32-bit packed form.
    pub fn unpack(bits: u32) -> (g: GroupedBlock)
        ensures
            g == GroupedBlock::spec_unpack(bits),
    {
        let ez: u32 = bits & 0xF;
        let ey: u32 = (bits >> 4) & 0xF;
        let ex: u32 = (bits >> 8) & 0xF;
        proof {
            assert(ez < 16 && ey < 16 && ex < 16) by (bit_vector)
                requires
                    ez == bits & 0xF,
                    ey == (bits >> 4) & 0xF,
                    ex == (bits >> 8) & 0xF;
            assert((bits >> 12) & 0xFFF < 4096) by (bit_vector);
        }
        GroupedBlock {
            extent_x: if ex == 0 { 16 } else { ex as u8 },
            extent_y: if ey == 0 { 16 } else { ey as u8 },
            extent_z: if ez == 0 { 16 } else { ez as u8 },
            block: ((bits >> 12) & 0xFFF) as u16,
            face_mask: Face {
                back: ((bits >> 24) & 0x01) != 0,
                right: ((bits >> 24) & 0x02) != 0,
                top: ((bits >> 24) & 0x04) != 0,
                front: ((bits >> 24) & 0x08) != 0,
                left: ((bits >> 24) & 0x10) != 0,
                bottom: ((bits >> 24) & 0x20) != 0,
            },
            in_group: ((bits >> 30) & 1) == 1,
        }
    }
}

/// Extent round-trip: encoding a well-formed record and decoding the
/// word gives the record back exactly, for every extent in 1..=16 on
/// every axis — including the special case where magnitude 16 is
/// encoded as the 4-bit value 0.
pub proof fn lemma_pack_round_trip(g: GroupedBlock)
    requires
        g.wf(),
    ensures
        GroupedBlock::spec_unpack(g.spec_pack()) == g,
{
    let w = g.spec_pack();
    let ex = g.extent_x;
    let ey = g.extent_y;
    let ez = g.extent_z;
    let blk = g.block;
    let fb = g.face_mask.spec_bits();
    let grp = g.in_group;
    assert(fb < 64) by {
        crate::face::lemma_face_bits_round_trip(g.face_mask);
        let p0 = g.face_mask.back;
        let p1 = g.face_mask.right;
        let p2 = g.face_mask.top;
        let p3 = g.face_mask.front;
        let p4 = g.face_mask.left;
        let p5 = g.face_mask.bottom;
        assert(((if p0 { 0x01u8 } else { 0 })
            | (if p1 { 0x02u8 } else { 0 })
            | (if p2 { 0x04u8 } else { 0 })
            | (if p3 { 0x08u8 } else { 0 })
            | (if p4 { 0x10u8 } else { 0 })
            | (if p5 { 0x20u8 } else { 0 })) < 64) by (bit_vector);
    }
    assert((w >> 8) & 0xF == (ex & 0xF)
        && (w >> 4) & 0xF == (ey & 0xF)
        && w & 0xF == (ez & 0xF)
        && (w >> 12) & 0xFFF == blk as u32
        && (w >> 24) & 0x3F == fb as u32
        && ((w >> 24) & 0x01 == (fb as u32) & 0x01)
        && ((w >> 24) & 0x02 == (fb as u32) & 0x02)
        && ((w >> 24) & 0x04 == (fb as u32) & 0x04)
        && ((w >> 24) & 0x08 == (fb as u32) & 0x08)
        && ((w >> 24) & 0x10 == (fb as u32) & 0x10)
        && ((w >> 24) & 0x20 == (fb as u32) & 0x20)
        && ((w >> 30) & 1 == (if grp { 1u32 } else { 0 }))) by (bit_vector)
        requires
            w == ((ez & 0xF) as u32)
                | (((ey & 0xF) as u32) << 4)
                | (((ex & 0xF) as u32) << 8)
                | ((blk as u32) << 12)
                | ((fb as u32) << 24)
                | (if grp { 1u32 << 30 } else { 0 }),
            1 <= ex <= 16,
            1 <= ey <= 16,
            1 <= ez <= 16,
            blk < 4096,
            fb < 64;
    assert((ex & 0xF == 0 ==> ex == 16) && (ex & 0xF != 0 ==> ex & 0xF == ex)
        && (ey & 0xF == 0 ==> ey == 16) && (ey & 0xF != 0 ==> ey & 0xF == ey)
        && (ez & 0xF == 0 ==> ez == 16) && (ez & 0xF != 0 ==> ez & 0xF == ez)) by (bit_vector)
        requires
            1 <= ex <= 16,
            1 <= ey <= 16,
            1 <= ez <= 16;
    assert(dec_extent((ex & 0xF) as u32) == ex);
    assert(dec_extent((ey & 0xF) as u32) == ey);
    assert(dec_extent((ez & 0xF) as u32) == ez);
    assert(((fb as u32) & 0x01 != 0) == (fb & 0x01 != 0)
        && ((fb as u32) & 0x02 != 0) == (fb & 0x02 != 0)
        && ((fb as u32) & 0x04 != 0) == (fb & 0x04 != 0)
        && ((fb as u32) & 0x08 != 0) == (fb & 0x08 != 0)
        && ((fb as u32) & 0x10 != 0) == (fb & 0x10 != 0)
        && ((fb as u32) & 0x20 != 0) == (fb & 0x20 != 0)) by (bit_vector);
    crate::face::lemma_face_bits_round_trip(g.face_mask);
}

} // verus!
