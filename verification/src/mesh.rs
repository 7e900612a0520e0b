//! Mesh data and the accumulating mesh builder.
//!
//! A mesh is a vertex list, a triangle-index list and an optional
//! texture list. Vertex positions are in integer block units; a
//! vertex's shading value is the index into the renderer's fixed
//! lighting lookup, so the whole mesh is plain integer data. The
//! builder is append-only: fragments are concatenated (re-indexing
//! their triangle indices past the vertices already present) and the
//! terminal `build` freezes the result, turning an empty texture list
//! into "no textures".

use vstd::prelude::*;

verus! {

/// One mesh vertex: a position in integer block units and the index of
/// its shading value in the renderer's lighting lookup table.
#[derive(Clone, Copy, PartialEq, Eq, Structural, Debug)]
pub struct Vertex {
    pub x: i32,
    pub y: i32,
    pub z: i32,
    /// Index into the fixed per-corner lighting table, in 0..=5.
    pub light: u8,
}

/// A handle to a texture used by a mesh.
#[derive(Clone, Copy, PartialEq, Eq, Structural, Debug)]
pub struct Texture {
    pub id: u32,
}

/// An immutable triangulated mesh: the terminal product of a builder.
#[derive(Debug)]
pub struct Mesh {
    pub vertices: Vec<Vertex>,
    pub indices: Vec<u32>,
    /// `None` when the mesh uses no textures; a frozen builder never
    /// produces `Some` of an empty list.
    pub textures: Option<Vec<Texture>>,
}

impl Mesh {
    /// The texture list as a sequence; `None` and the empty list are
    /// equivalent to every consumer.
    pub open spec fn tex_seq(&self) -> Seq<Texture> {
        match self.textures {
            Some(t) => t@,
            None => Seq::<Texture>::empty(),
        }
    }

    /// Every triangle index points into the vertex list.
    pub open spec fn indices_in_range(&self) -> bool {
        forall|i: int| 0 <= i < self.indices@.len() ==> (#[trigger] self.indices@[i]) < self.vertices@.len()
    }

    pub fn vertex_count(&self) -> (n: usize)
        ensures
            n == self.vertices@.len(),
    {
        self.vertices.len()
    }

    pub fn index_count(&self) -> (n: usize)
        ensures
            n == self.indices@.len(),
    {
        self.indices.len()
    }
}

/// The sequence `s` with `off` added to every entry.
pub open spec fn shift_indices(s: Seq<u32>, off: int) -> Seq<u32> {
    s.map_values(|v: u32| (v + off) as u32)
}

/// Append-only accumulator for mesh data.
pub struct MeshBuilder {
    pub vertices: Vec<Vertex>,
    pub indices: Vec<u32>,
    pub textures: Vec<Texture>,
}

impl MeshBuilder {
    pub fn new() -> (b: MeshBuilder)
        ensures
            b.vertices@ == Seq::<Vertex>::empty(),
            b.indices@ == Seq::<u32>::empty(),
            b.textures@ == Seq::<Texture>::empty(),
    {
        MeshBuilder { vertices: Vec::new(), indices: Vec::new(), textures: Vec::new() }
    }

    pub fn add_vertex(self, vert: Vertex) -> (b: MeshBuilder)
        ensures
            b.vertices@ == self.vertices@.push(vert),
            b.indices@ == self.indices@,
            b.textures@ == self.textures@,
    {
        let mut b = self;
        b.vertices.push(vert);
        b
    }

    pub fn add_index(self, index: u32) -> (b: MeshBuilder)
        ensures
            b.vertices@ == self.vertices@,
            b.indices@ == self.indices@.push(index),
            b.textures@ == self.textures@,
    {
        let mut b = self;
        b.indices.push(index);
        b
    }

    pub fn add_texture(self, texture: Texture) -> (b: MeshBuilder)
        ensures
            b.vertices@ == self.vertices@,
            b.indices@ == self.indices@,
            b.textures@ == self.textures@.push(texture),
    {
        let mut b = self;
        b.textures.push(texture);
        b
    }

    /// Concatenate a whole mesh fragment, re-indexing its triangle
    /// indices past the vertices already present.
    pub fn add_mesh(self, mesh: Mesh) -> (b: MeshBuilder)
        requires
            self.vertices@.len() + mesh.vertices@.len() <= u32::MAX,
            forall|i: int| 0 <= i < mesh.indices@.len()
                ==> (#[trigger] mesh.indices@[i]) + self.vertices@.len() <= u32::MAX,
        ensures
            b.vertices@ == self.vertices@ + mesh.vertices@,
            b.indices@ == self.indices@ + shift_indices(mesh.indices@, self.vertices@.len() as int),
            b.textures@ == self.textures@ + mesh.tex_seq(),
    {
        self.extend_mesh(&mesh)
    }

    pub fn extend_vertex(self, verts: Vec<Vertex>) -> (b: MeshBuilder)
        ensures
            b.vertices@ == self.vertices@ + verts@,
            b.indices@ == self.indices@,
            b.textures@ == self.textures@,
    {
        let mut b = self;
        let mut verts = verts;
        b.vertices.append(&mut verts);
        b
    }

    pub fn extend_index(self, indices: Vec<u32>) -> (b: MeshBuilder)
        ensures
            b.vertices@ == self.vertices@,
            b.indices@ == self.indices@ + indices@,
            b.textures@ == self.textures@,
    {
        let mut b = self;
        let mut indices = indices;
        b.indices.append(&mut indices);
        b
    }

    pub fn extend_texture(self, textures: Vec<Texture>) -> (b: MeshBuilder)
        ensures
            b.vertices@ == self.vertices@,
            b.indices@ == self.indices@,
            b.textures@ == self.textures@ + textures@,
    {
        let mut b = self;
        let mut textures = textures;
        b.textures.append(&mut textures);
        b
    }

    /// As `add_mesh`, but the fragment is only borrowed.
    pub fn extend_mesh(self, mesh: &Mesh) -> (b: MeshBuilder)
        requires
            self.vertices@.len() + mesh.vertices@.len() <= u32::MAX,
            forall|i: int| 0 <= i < mesh.indices@.len()
                ==> (#[trigger] mesh.indices@[i]) + self.vertices@.len() <= u32::MAX,
        ensures
            b.vertices@ == self.vertices@ + mesh.vertices@,
            b.indices@ == self.indices@ + shift_indices(mesh.indices@, self.vertices@.len() as int),
            b.textures@ == self.textures@ + mesh.tex_seq(),
    {
        let ghost base_vertices = self.vertices@;
        let ghost base_indices = self.indices@;
        let ghost base_textures = self.textures@;
        let mut b = self;
        let index_start: usize = b.vertices.len();
        let mut j: usize = 0;
        while j < mesh.vertices.len()
            invariant
                j <= mesh.vertices@.len(),
                b.vertices@ == base_vertices + mesh.vertices@.take(j as int),
                b.indices@ == base_indices,
                b.textures@ == base_textures,
            decreases mesh.vertices@.len() - j,
        {
            let v: Vertex = mesh.vertices[j];
            b.vertices.push(v);
            proof {
                assert(mesh.vertices@.take(j as int + 1)
                    == mesh.vertices@.take(j as int).push(mesh.vertices@[j as int]));
            }
            j = j + 1;
        }
        proof {
            assert(mesh.vertices@.take(mesh.vertices@.len() as int) == mesh.vertices@);
        }
        let ghost shifted = shift_indices(mesh.indices@, index_start as int);
        let mut j: usize = 0;
        while j < mesh.indices.len()
            invariant
                j <= mesh.indices@.len(),
                forall|i: int| 0 <= i < mesh.indices@.len()
                    ==> (#[trigger] mesh.indices@[i]) + index_start <= u32::MAX,
                b.vertices@ == base_vertices + mesh.vertices@,
                b.indices@ == base_indices + shifted.take(j as int),
                b.textures@ == base_textures,
                shifted == shift_indices(mesh.indices@, index_start as int),
            decreases mesh.indices@.len() - j,
        {
            let v: u32 = mesh.indices[j];
            b.indices.push(v + index_start as u32);
            proof {
                assert(shifted.take(j as int + 1) == shifted.take(j as int).push(shifted[j as int]));
            }
            j = j + 1;
        }
        proof {
            assert(shifted.take(mesh.indices@.len() as int) == shifted);
        }
        match &mesh.textures {
            Some(t) => {
                let mut j: usize = 0;
                while j < t.len()
                    invariant
                        j <= t@.len(),
                        b.vertices@ == base_vertices + mesh.vertices@,
                        b.indices@ == base_indices
                            + shift_indices(mesh.indices@, index_start as int),
                        b.textures@ == base_textures + t@.take(j as int),
                    decreases t@.len() - j,
                {
                    let v: Texture = t[j];
                    b.textures.push(v);
                    proof {
                        assert(t@.take(j as int + 1) == t@.take(j as int).push(t@[j as int]));
                    }
                    j = j + 1;
                }
                proof {
                    assert(t@.take(t@.len() as int) == t@);
                }
            },
            None => {},
        }
        proof {
            assert(b.textures@ =~= base_textures + mesh.tex_seq());
        }
        b
    }

    /// Freeze the accumulated data into an immutable mesh. An empty
    /// texture list becomes "no textures".
    pub fn build(self) -> (m: Mesh)
        ensures
            m.vertices@ == self.vertices@,
            m.indices@ == self.indices@,
            m.tex_seq() == self.textures@,
            m.textures is None <==> self.textures@.len() == 0,
    {
        let MeshBuilder { vertices, indices, textures } = self;
        let textures = if textures.len() == 0 { None } else { Some(textures) };
        Mesh { vertices, indices, textures }
    }
}

} // verus!
