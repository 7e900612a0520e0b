use gekraftet::face::Face;
use gekraftet::mesh::{MeshBuilder, Texture, Vertex};

fn v(x: i32, y: i32, z: i32) -> Vertex {
    Vertex { x, y, z, light: 0 }
}

#[test]
fn build_empty_has_no_textures() {
    let m = MeshBuilder::new().build();
    assert_eq!(m.vertex_count(), 0);
    assert_eq!(m.index_count(), 0);
    assert!(m.textures.is_none());
}

#[test]
fn add_and_extend_primitives() {
    let m = MeshBuilder::new()
        .add_vertex(v(1, 2, 3))
        .add_index(0)
        .extend_vertex(vec![v(4, 5, 6), v(7, 8, 9)])
        .extend_index(vec![1, 2])
        .build();
    assert_eq!(m.vertices, vec![v(1, 2, 3), v(4, 5, 6), v(7, 8, 9)]);
    assert_eq!(m.indices, vec![0, 1, 2]);
    assert!(m.textures.is_none());
}

#[test]
fn textures_survive_build_when_present() {
    let m = MeshBuilder::new()
        .add_texture(Texture { id: 11 })
        .extend_texture(vec![Texture { id: 12 }])
        .build();
    assert_eq!(m.textures, Some(vec![Texture { id: 11 }, Texture { id: 12 }]));
}

#[test]
fn add_mesh_reindexes_past_existing_vertices() {
    let first = MeshBuilder::new()
        .add_vertex(v(0, 0, 0))
        .add_vertex(v(1, 0, 0))
        .add_index(0)
        .add_index(1)
        .build();
    let second = MeshBuilder::new()
        .add_vertex(v(9, 9, 9))
        .add_index(0)
        .build();
    let joined = MeshBuilder::new().add_mesh(first).add_mesh(second).build();
    assert_eq!(joined.vertices, vec![v(0, 0, 0), v(1, 0, 0), v(9, 9, 9)]);
    assert_eq!(joined.indices, vec![0, 1, 2]);
}

#[test]
fn extend_mesh_matches_add_mesh() {
    let frag = MeshBuilder::new()
        .add_vertex(v(5, 5, 5))
        .add_index(0)
        .add_index(0)
        .build();
    let a = MeshBuilder::new().add_vertex(v(0, 0, 0)).extend_mesh(&frag).build();
    assert_eq!(a.vertices, vec![v(0, 0, 0), v(5, 5, 5)]);
    assert_eq!(a.indices, vec![1, 1]);
}

#[test]
fn cuboid_full_box_has_eight_vertices_and_36_indices() {
    let m = MeshBuilder::create_cuboid((1, 1, 1), (0, 0, 0), Face::all());
    assert_eq!(m.vertex_count(), 8);
    assert_eq!(m.index_count(), 36);
    for &i in m.indices.iter() {
        assert!((i as usize) < m.vertex_count());
    }
}

#[test]
fn cuboid_no_faces_is_empty() {
    let m = MeshBuilder::create_cuboid((4, 4, 4), (10, 10, 10), Face::empty());
    assert_eq!(m.vertex_count(), 0);
    assert_eq!(m.index_count(), 0);
}

#[test]
fn cuboid_single_face_shares_four_corners() {
    let m = MeshBuilder::create_cuboid((2, 3, 4), (0, 0, 0), Face::only_top());
    assert_eq!(m.vertex_count(), 4);
    assert_eq!(m.index_count(), 6);
}

#[test]
fn cuboid_spans_origin_to_extent() {
    let m = MeshBuilder::create_cuboid((2, 1, 1), (10, 20, 30), Face::all());
    for vert in m.vertices.iter() {
        assert!(vert.x == 10 || vert.x == 12);
        assert!(vert.y == 20 || vert.y == 21);
        assert!(vert.z == 30 || vert.z == 31);
        assert!(vert.light <= 5);
    }
}

#[test]
fn emission_is_idempotent() {
    let a = MeshBuilder::create_cuboid((3, 2, 5), (-4, 7, 1), Face::from_bitfield(0b101_101));
    let b = MeshBuilder::create_cuboid((3, 2, 5), (-4, 7, 1), Face::from_bitfield(0b101_101));
    assert_eq!(a.vertices, b.vertices);
    assert_eq!(a.indices, b.indices);
    assert_eq!(a.textures.is_none(), b.textures.is_none());
}

#[test]
fn cube_matches_cuboid_of_equal_extents() {
    let a = MeshBuilder::create_cube(3, (1, 2, 3), Face::all());
    let b = MeshBuilder::create_cuboid((3, 3, 3), (1, 2, 3), Face::all());
    assert_eq!(a.vertices, b.vertices);
    assert_eq!(a.indices, b.indices);
}
