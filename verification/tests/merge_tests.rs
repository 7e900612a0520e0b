use gekraftet::face::Face;
use gekraftet::group::GroupedBlock;
use gekraftet::lateral::{lateral_pass, Axis};
use gekraftet::mesh::Mesh;
use gekraftet::mesher::GreedyCubeMesher;
use gekraftet::pass1::pass1;
use gekraftet::section::{Chunk, Section};

fn idx(x: usize, z: usize, y: usize) -> usize {
    x * 256 + z * 16 + y
}

fn section_by(f: impl Fn(usize, usize, usize) -> u32) -> Section {
    let mut data = vec![0u32; 4096];
    for x in 0..16 {
        for z in 0..16 {
            for y in 0..16 {
                data[idx(x, z, y)] = f(x, z, y);
            }
        }
    }
    Section::new(data)
}

fn run_all_passes(section: &Section) -> (Vec<GroupedBlock>, Vec<u32>) {
    let (mut groups, blocks) = pass1(section);
    lateral_pass(&mut groups, &blocks, Axis::ZAxis);
    lateral_pass(&mut groups, &blocks, Axis::XAxis);
    (groups, blocks)
}

fn mesh_of_single_section(section: Section) -> Mesh {
    let chunk = Chunk::new(0, 0, 0, vec![section]);
    let mesher = GreedyCubeMesher::from_chunk(&chunk);
    mesher.generate_mesh()
}

#[test]
fn uniform_section_merges_into_one_group() {
    let section = section_by(|_, _, _| 7);
    let (groups, blocks) = run_all_passes(&section);
    let survivors: Vec<usize> =
        (0..4096).filter(|&k| !groups[k].is_in_group()).collect();
    assert_eq!(survivors, vec![4095]);
    let g = groups[4095];
    assert_eq!(g.extent(), (16, 16, 16));
    assert_eq!(blocks[g.block_id()], 7);
    // Isolated section: no neighbour context, so nothing culled.
    assert_eq!(g.faces(), Face::all());
}

#[test]
fn uniform_section_emits_one_full_box() {
    let m = mesh_of_single_section(section_by(|_, _, _| 7));
    assert_eq!(m.vertex_count(), 8);
    assert_eq!(m.index_count(), 36);
    for v in m.vertices.iter() {
        assert!(v.x == -1 || v.x == 15);
        assert!(v.y == -1 || v.y == 15);
        assert!(v.z == -1 || v.z == 15);
    }
}

#[test]
fn alternating_section_never_merges_or_culls() {
    let section = section_by(|x, z, y| if (x + z + y) % 2 == 0 { 3 } else { 0 });
    let (groups, blocks) = run_all_passes(&section);
    for k in 0..4096 {
        let g = groups[k];
        assert!(!g.is_in_group(), "no merge may happen at {}", k);
        assert_eq!(g.extent(), (1, 1, 1));
        assert_eq!(g.faces(), Face::all(), "no face may be culled at {}", k);
    }
    // Every opaque cell becomes a full box; no empty cell is emitted.
    let opaque = 2048;
    let m = mesh_of_single_section(section_by(|x, z, y| if (x + z + y) % 2 == 0 { 3 } else { 0 }));
    assert_eq!(m.vertex_count(), opaque * 8);
    assert_eq!(m.index_count(), opaque * 36);
    let _ = blocks;
}

#[test]
fn type_table_is_stable_across_runs() {
    let section = section_by(|x, z, y| ((x / 4) * 100 + (z / 8) * 10 + y / 8) as u32);
    let (groups1, blocks1) = pass1(&section);
    let (groups2, blocks2) = pass1(&section);
    assert_eq!(blocks1, blocks2);
    assert_eq!(groups1, groups2);
    // First occurrence wins the index: the scan starts at (0,0,0).
    assert_eq!(blocks1[0], 0);
}

#[test]
fn two_cell_run_survives_at_upper_cell() {
    let t = 9;
    let section = section_by(|x, z, y| if x == 0 && z == 0 && y <= 1 { t } else { 0 });
    let (mut groups, blocks) = pass1(&section);
    // After pass 1: the record above absorbed the one below it.
    assert!(groups[idx(0, 0, 0)].is_in_group());
    let survivor = groups[idx(0, 0, 1)];
    assert!(!survivor.is_in_group());
    assert_eq!(survivor.extent(), (1, 2, 1));
    assert_eq!(survivor.faces(), Face::all());
    assert_eq!(blocks[survivor.block_id()], t);
    // No lateral neighbours: passes 2 and 3 leave the record unchanged.
    lateral_pass(&mut groups, &blocks, Axis::ZAxis);
    lateral_pass(&mut groups, &blocks, Axis::XAxis);
    let after = groups[idx(0, 0, 1)];
    assert!(!after.is_in_group());
    assert_eq!(after.extent(), (1, 2, 1));
    assert_eq!(after.faces(), Face::all());
}

#[test]
fn two_cell_run_emits_one_full_box() {
    let section = section_by(|x, z, y| if x == 0 && z == 0 && y <= 1 { 9 } else { 0 });
    let m = mesh_of_single_section(section);
    assert_eq!(m.vertex_count(), 8);
    assert_eq!(m.index_count(), 36);
}

#[test]
fn stacked_distinct_opaque_types_cull_touching_faces() {
    let section = section_by(|x, z, y| {
        if x == 0 && z == 0 && y == 0 {
            1
        } else if x == 0 && z == 0 && y == 1 {
            2
        } else {
            0
        }
    });
    let (groups, _blocks) = run_all_passes(&section);
    let below = groups[idx(0, 0, 0)];
    let above = groups[idx(0, 0, 1)];
    assert!(!below.is_in_group() && !above.is_in_group());
    assert!(!below.faces().top, "face against the upper block is culled");
    assert!(below.faces().bottom && below.faces().back && below.faces().front);
    assert!(!above.faces().bottom, "face against the lower block is culled");
    assert!(above.faces().top && above.faces().left && above.faces().right);
}

#[test]
fn air_breaks_vertical_runs() {
    // Opaque at y = 0 and y = 2 of one column, air between them.
    let section = section_by(|x, z, y| if x == 0 && z == 0 && (y == 0 || y == 2) { 4 } else { 0 });
    let (groups, _) = run_all_passes(&section);
    let lower = groups[idx(0, 0, 0)];
    let upper = groups[idx(0, 0, 2)];
    assert!(!lower.is_in_group() && !upper.is_in_group());
    assert_eq!(lower.extent(), (1, 1, 1));
    assert_eq!(upper.extent(), (1, 1, 1));
    assert_eq!(lower.faces(), Face::all());
    assert_eq!(upper.faces(), Face::all());
}

#[test]
fn slab_merges_laterally() {
    // One full 16x16 slab at y = 0, air above it.
    let section = section_by(|_, _, y| if y == 0 { 6 } else { 0 });
    let (groups, blocks) = run_all_passes(&section);
    let survivors: Vec<usize> =
        (0..4096).filter(|&k| !groups[k].is_in_group()).collect();
    // The slab and the air above it each merge into one run; the air
    // run survives the passes but is skipped at emission.
    assert_eq!(survivors, vec![idx(15, 15, 0), idx(15, 15, 15)]);
    assert_eq!(groups[idx(15, 15, 0)].extent(), (16, 1, 16));
    assert_eq!(blocks[groups[idx(15, 15, 0)].block_id()], 6);
    assert_eq!(groups[idx(15, 15, 15)].extent(), (16, 15, 16));
    assert_eq!(blocks[groups[idx(15, 15, 15)].block_id()], 0);
    let m = mesh_of_single_section(section_by(|_, _, y| if y == 0 { 6 } else { 0 }));
    assert_eq!(m.vertex_count(), 8);
    assert_eq!(m.index_count(), 36);
}

#[test]
fn chunk_concatenates_sections_bottom_up() {
    let uniform = |v: u32| section_by(move |_, _, _| v);
    let chunk = Chunk::new(2, -1, 3, vec![uniform(1), uniform(2)]);
    let mesher = GreedyCubeMesher::from_chunk(&chunk);
    let m = mesher.generate_mesh();
    // Two isolated uniform sections: one full box each.
    assert_eq!(m.vertex_count(), 16);
    assert_eq!(m.index_count(), 72);
    // Indices of the second box are re-indexed past the first.
    for &i in m.indices[36..].iter() {
        assert!(i >= 8 && i < 16);
    }
    // The second section sits 16 blocks higher.
    let ys1: Vec<i32> = m.vertices[..8].iter().map(|v| v.y).collect();
    let ys2: Vec<i32> = m.vertices[8..].iter().map(|v| v.y).collect();
    assert!(ys1.iter().all(|&y| y == -16 - 1 || y == -16 + 15));
    assert!(ys2.iter().all(|&y| y == -1 || y == 15));
}

#[test]
fn section_indexing_follows_flat_layout() {
    let section = section_by(|x, z, y| (x * 256 + z * 16 + y) as u32);
    assert_eq!(section.at(0, 0, 0), 0);
    assert_eq!(section.at(3, 5, 7), 3 * 256 + 5 * 16 + 7);
    assert_eq!(section.at(15, 15, 15), 4095);
    let chunk = Chunk::new(0, 0, 0, vec![section]);
    assert_eq!(chunk.section_count(), 1);
}
