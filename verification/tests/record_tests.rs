use gekraftet::face::Face;
use gekraftet::group::GroupedBlock;

fn record_with_extent(e: u8) -> GroupedBlock {
    let mut g = GroupedBlock::new(5);
    g.extend_to(e, e, e);
    g
}

#[test]
fn extent_round_trip_all_magnitudes() {
    for e in 1..=16u8 {
        let g = record_with_extent(e);
        let word = g.pack();
        let back = GroupedBlock::unpack(word);
        assert_eq!(back.extent(), (e, e, e));
        assert_eq!(back.block_id(), 5);
        assert_eq!(back.faces(), Face::all());
        assert!(!back.is_in_group());
        assert_eq!(back, g);
    }
}

#[test]
fn extent_sixteen_encodes_as_zero_nibble() {
    let g = record_with_extent(16);
    let word = g.pack();
    assert_eq!(word & 0xFFF, 0, "magnitude 16 reuses the 4-bit value 0");
    assert_eq!(GroupedBlock::unpack(word).extent(), (16, 16, 16));
}

#[test]
fn fresh_record_packed_layout() {
    let g = GroupedBlock::new(3);
    // extent (1,1,1) in bits 0..12, type index 3 in bits 12..24,
    // all six faces in bits 24..30, absorbed flag clear.
    assert_eq!(g.pack(), 0x3F00_3111);
}

#[test]
fn mutators_touch_only_their_field() {
    let mut g = GroupedBlock::new(9);
    g.extend_to(2, 7, 16);
    assert_eq!(g.extent(), (2, 7, 16));
    assert_eq!(g.block_id(), 9);
    assert_eq!(g.faces(), Face::all());
    assert!(!g.is_in_group());

    g.toggle_group();
    assert!(g.is_in_group());
    assert_eq!(g.extent(), (2, 7, 16));
    assert_eq!(g.block_id(), 9);

    let mut f = g.faces();
    f.disable(Face::only_top());
    g.set_faces(f);
    assert!(!g.faces().top);
    assert!(g.faces().bottom && g.faces().back && g.faces().front);
    assert_eq!(g.extent(), (2, 7, 16));
    assert!(g.is_in_group());

    g.toggle_group();
    assert!(!g.is_in_group());
}

#[test]
fn face_bitfield_round_trip() {
    for bits in 0..64u8 {
        let f = Face::from_bitfield(bits);
        assert_eq!(f.into_bitfield(), bits);
    }
    // Higher bits are ignored on decode.
    assert_eq!(Face::from_bitfield(0xFF), Face::all());
}

#[test]
fn face_disable_and_intersects() {
    let mut f = Face::all();
    assert!(f.intersects(Face::only_left()));
    f.disable(Face::only_left());
    assert!(!f.intersects(Face::only_left()));
    assert!(f.intersects(Face::only_right()));
    f.disable(Face::all());
    assert_eq!(f, Face::empty());
    assert!(!f.intersects(Face::all()));
}
