use gekraftet::mesh::Mesh;
use gekraftet::mesher::GreedyCubeMesher;
use gekraftet::section::{Chunk, Section};
use std::sync::mpsc;

fn uniform_section(v: u32) -> Section {
    Section::new(vec![v; 4096])
}

#[test]
fn consumer_receives_every_dispatched_chunk_exactly_once() {
    let (tx, rx) = mpsc::channel::<(i32, i32, i32, Mesh)>();
    let coords: Vec<(i32, i32)> = (-2..2).flat_map(|x| (-2..2).map(move |y| (x, y))).collect();
    let n = coords.len();
    for &(x, y) in coords.iter() {
        let tx = tx.clone();
        let chunk = Chunk::new(x, 0, y, vec![uniform_section(1)]);
        let mesher = GreedyCubeMesher::from_chunk(&chunk);
        let mesh = mesher.generate_mesh();
        tx.send((x, 0, y, mesh)).expect("consumer is alive");
    }
    drop(tx);
    let mut seen: Vec<(i32, i32, i32)> = Vec::new();
    while let Ok((x, y, z, mesh)) = rx.recv() {
        assert_eq!(mesh.vertex_count(), 8);
        assert_eq!(mesh.index_count(), 36);
        assert!(!seen.contains(&(x, y, z)), "no duplicate delivery");
        seen.push((x, y, z));
    }
    assert_eq!(seen.len(), n, "exactly one tuple per dispatched job");
    for &(x, y) in coords.iter() {
        assert!(seen.contains(&(x, 0, y)), "no chunk may be dropped");
    }
}

#[test]
fn send_to_dropped_consumer_fails_softly() {
    let (tx, rx) = mpsc::channel::<(i32, i32, i32, Mesh)>();
    drop(rx);
    let chunk = Chunk::new(0, 0, 0, vec![uniform_section(1)]);
    let mesher = GreedyCubeMesher::from_chunk(&chunk);
    let mesh = mesher.generate_mesh();
    // A closed channel only discards the result; it must not panic.
    assert!(tx.send((0, 0, 0, mesh)).is_err());
}
