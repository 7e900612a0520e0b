//! The set of cube faces that are still visible on a group record.
//!
//! A record starts with all six faces visible; the merge passes cull the
//! faces that sit between two opaque neighbours. The set is kept as six
//! named booleans; `from_bitfield` / `into_bitfield` give the packed
//! 6-bit form used by the 32-bit record encoding.

use vstd::prelude::*;

verus! {

/// Which faces of an axis-aligned box are visible.
///
/// The bit order of the packed form is, from least significant bit:
/// back, right, top, front, left, bottom.
#[derive(Clone, Copy, PartialEq, Eq, Structural, Debug)]
pub struct Face {
    pub back: bool,
    pub right: bool,
    pub top: bool,
    pub front: bool,
    pub left: bool,
    pub bottom: bool,
}

impl Face {
    /// No face visible.
    pub open spec fn spec_empty() -> Face {
        Face { back: false, right: false, top: false, front: false, left: false, bottom: false }
    }

    /// All six faces visible.
    pub open spec fn spec_all() -> Face {
        Face { back: true, right: true, top: true, front: true, left: true, bottom: true }
    }

    /// The faces of `self` that are not in `mask`.
    pub open spec fn spec_disable(self, mask: Face) -> Face {
        Face {
            back: self.back && !mask.back,
            right: self.right && !mask.right,
            top: self.top && !mask.top,
            front: self.front && !mask.front,
            left: self.left && !mask.left,
            bottom: self.bottom && !mask.bottom,
        }
    }

    /// Whether `self` and `other` share a visible face.
    pub open spec fn spec_intersects(self, other: Face) -> bool {
        ||| (self.back && other.back)
        ||| (self.right && other.right)
        ||| (self.top && other.top)
        ||| (self.front && other.front)
        ||| (self.left && other.left)
        ||| (self.bottom && other.bottom)
    }

    /// How many faces are visible.
    pub open spec fn count(self) -> int {
        (if self.back { 1int } else { 0 })
        + (if self.right { 1int } else { 0 })
        + (if self.top { 1int } else { 0 })
        + (if self.front { 1int } else { 0 })
        + (if self.left { 1int } else { 0 })
        + (if self.bottom { 1int } else { 0 })
    }

    /// The packed 6-bit form: back is bit 0, bottom is bit 5.
    pub open spec fn spec_bits(self) -> u8 {
        (if self.back { 0x01u8 } else { 0 })
        | (if self.right { 0x02u8 } else { 0 })
        | (if self.top { 0x04u8 } else { 0 })
        | (if self.front { 0x08u8 } else { 0 })
        | (if self.left { 0x10u8 } else { 0 })
        | (if self.bottom { 0x20u8 } else { 0 })
    }

    pub fn empty() -> (f: Face)
        ensures
            f == Face::spec_empty(),
    {
        Face { back: false, right: false, top: false, front: false, left: false, bottom: false }
    }

    pub fn all() -> (f: Face)
        ensures
            f == Face::spec_all(),
    {
        Face { back: true, right: true, top: true, front: true, left: true, bottom: true }
    }

    /// The face set whose only visible face is the given one, used as a
    /// mask for `disable`.
    pub fn only_back() -> (f: Face)
        ensures
            f == (Face { back: true, ..Face::spec_empty() }),
    {
        Face { back: true, ..Face::empty() }
    }

    pub fn only_right() -> (f: Face)
        ensures
            f == (Face { right: true, ..Face::spec_empty() }),
    {
        Face { right: true, ..Face::empty() }
    }

    pub fn only_top() -> (f: Face)
        ensures
            f == (Face { top: true, ..Face::spec_empty() }),
    {
        Face { top: true, ..Face::empty() }
    }

    pub fn only_front() -> (f: Face)
        ensures
            f == (Face { front: true, ..Face::spec_empty() }),
    {
        Face { front: true, ..Face::empty() }
    }

    pub fn only_left() -> (f: Face)
        ensures
            f == (Face { left: true, ..Face::spec_empty() }),
    {
        Face { left: true, ..Face::empty() }
    }

    pub fn only_bottom() -> (f: Face)
        ensures
            f == (Face { bottom: true, ..Face::spec_empty() }),
    {
        Face { bottom: true, ..Face::empty() }
    }

    /// Remove the faces of `mask` from the visible set.
    pub fn disable(&mut self, mask: Face)
        ensures
            *final(self) == old(self).spec_disable(mask),
    {
        self.back = self.back && !mask.back;
        self.right = self.right && !mask.right;
        self.top = self.top && !mask.top;
        self.front = self.front && !mask.front;
        self.left = self.left && !mask.left;
        self.bottom = self.bottom && !mask.bottom;
    }

    pub fn intersects(&self, other: Face) -> (r: bool)
        ensures
            r == self.spec_intersects(other),
    {
        (self.back && other.back)
        || (self.right && other.right)
        || (self.top && other.top)
        || (self.front && other.front)
        || (self.left && other.left)
        || (self.bottom && other.bottom)
    }

    /// Decode a face set from its packed 6-bit form; higher bits are ignored.
    pub fn from_bitfield(bits: u8) -> (f: Face)
        ensures
            f.back == ((bits & 0x01) != 0),
            f.right == ((bits & 0x02) != 0),
            f.top == ((bits & 0x04) != 0),
            f.front == ((bits & 0x08) != 0),
            f.left == ((bits & 0x10) != 0),
            f.bottom == ((bits & 0x20) != 0),
    {
        Face {
            back: (bits & 0x01) != 0,
            right: (bits & 0x02) != 0,
            top: (bits & 0x04) != 0,
            front: (bits & 0x08) != 0,
            left: (bits & 0x10) != 0,
            bottom: (bits & 0x20) != 0,
        }
    }

    /// Encode the face set into its packed 6-bit form.
    pub fn into_bitfield(&self) -> (bits: u8)
        ensures
            bits == self.spec_bits(),
    {
        (if self.back { 0x01u8 } else { 0 })
        | (if self.right { 0x02u8 } else { 0 })
        | (if self.top { 0x04u8 } else { 0 })
        | (if self.front { 0x08u8 } else { 0 })
        | (if self.left { 0x10u8 } else { 0 })
        | (if self.bottom { 0x20u8 } else { 0 })
    }
}

/// Decoding inverts encoding: the packed form of a face set gives the
/// set back exactly.
pub proof fn lemma_face_bits_round_trip(f: Face)
    ensures
        ((f.spec_bits() & 0x01) != 0) == f.back,
        ((f.spec_bits() & 0x02) != 0) == f.right,
        ((f.spec_bits() & 0x04) != 0) == f.top,
        ((f.spec_bits() & 0x08) != 0) == f.front,
        ((f.spec_bits() & 0x10) != 0) == f.left,
        ((f.spec_bits() & 0x20) != 0) == f.bottom,
{
    let b = f.spec_bits();
    let p0 = f.back;
    let p1 = f.right;
    let p2 = f.top;
    let p3 = f.front;
    let p4 = f.left;
    let p5 = f.bottom;
    assert(((b & 0x01) != 0) == p0
        && ((b & 0x02) != 0) == p1
        && ((b & 0x04) != 0) == p2
        && ((b & 0x08) != 0) == p3
        && ((b & 0x10) != 0) == p4
        && ((b & 0x20) != 0) == p5) by (bit_vector)
        requires b == (if p0 { 0x01u8 } else { 0 })
            | (if p1 { 0x02u8 } else { 0 })
            | (if p2 { 0x04u8 } else { 0 })
            | (if p3 { 0x08u8 } else { 0 })
            | (if p4 { 0x10u8 } else { 0 })
            | (if p5 { 0x20u8 } else { 0 });
}

} // verus!
