//! The triangulated surface: vertices, faces, and the checks made when one is built.

use vstd::prelude::*;
use crate::vector::Point3;

verus! {

/// The largest number of faces a mesh may have. With it, the sums that this
/// crate takes over the faces of a mesh fit 128 bits.
pub const MAX_FACES: usize = 0x4000_0000;

/// A face: the positions of its three corners in the vertex list, in winding order.
#[derive(Clone, Copy, Debug, PartialEq, Eq, Structural)]
pub struct Face {
    pub a: usize,
    pub b: usize,
    pub c: usize,
}

/// The three corners of one face, in winding order.
#[derive(Clone, Copy, Debug, PartialEq, Eq, Structural)]
pub struct Triangle {
    pub a: Point3,
    pub b: Point3,
    pub c: Point3,
}

/// One face of a decoded mesh file.
#[derive(Clone, Copy, Debug)]
pub struct IndexedTriangle {
    pub vertices: [usize; 3],
}

/// A decoded mesh file: its vertices, and its faces as index triples.
#[derive(Debug)]
pub struct IndexedMesh {
    pub vertices: Vec<Point3>,
    pub faces: Vec<IndexedTriangle>,
}

/// Why a mesh could not be built.
#[derive(Clone, Copy, Debug, PartialEq, Eq, Structural)]
pub enum MeshError {
    /// There is no vertex.
    EmptyVertices,
    /// There is no face.
    EmptyIndices,
    /// A flat list's length is no multiple of three.
    Ragged,
    /// There are more than `MAX_FACES` faces.
    TooManyFaces,
    /// The face at this position names a vertex that does not exist.
    IndexOutOfRange { face: usize },
    /// Two corners of the face at this position are the same point.
    RepeatedVertex { face: usize },
}

/// The mathematical content of a mesh.
pub struct Mesh {
    pub vertices: Seq<Point3>,
    pub faces: Seq<Face>,
}

/// All three corners of `f` exist among `n` vertices.
pub open spec fn index_in_range(n: nat, f: Face) -> bool {
    f.a < n && f.b < n && f.c < n
}

/// The three corners of `f` are three different points.
pub open spec fn corners_distinct(vertices: Seq<Point3>, f: Face) -> bool {
    &&& vertices[f.a as int] != vertices[f.b as int]
    &&& vertices[f.b as int] != vertices[f.c as int]
    &&& vertices[f.a as int] != vertices[f.c as int]
}

/// `f` is a face that a mesh over `vertices` may hold.
pub open spec fn face_ok(vertices: Seq<Point3>, f: Face) -> bool {
    index_in_range(vertices.len(), f) && corners_distinct(vertices, f)
}

/// The first `k` faces are all acceptable.
pub open spec fn faces_ok_before(vertices: Seq<Point3>, faces: Seq<Face>, k: int) -> bool {
    forall|i: int| 0 <= i < k ==> face_ok(vertices, #[trigger] faces[i])
}

impl Mesh {
    /// What every mesh satisfies: it has a vertex and a face, not too many
    /// faces, and each face joins three different existing points.
    pub open spec fn wf(self) -> bool {
        &&& self.vertices.len() > 0
        &&& 0 < self.faces.len() <= MAX_FACES
        &&& faces_ok_before(self.vertices, self.faces, self.faces.len() as int)
    }

    /// The corners of face `i`.
    pub open spec fn triangle(self, i: int) -> Triangle {
        Triangle {
            a: self.vertices[self.faces[i].a as int],
            b: self.vertices[self.faces[i].b as int],
            c: self.vertices[self.faces[i].c as int],
        }
    }
}

/// The points that a flat list of coordinates spells out, three numbers each.
pub open spec fn points_of(coords: Seq<i32>) -> Seq<Point3> {
    Seq::new(
        (coords.len() / 3) as nat,
        |i: int| Point3 { x: coords[3 * i], y: coords[3 * i + 1], z: coords[3 * i + 2] },
    )
}

/// The faces that a flat list of indices spells out, three numbers each.
pub open spec fn faces_of(indices: Seq<u32>) -> Seq<Face> {
    Seq::new(
        (indices.len() / 3) as nat,
        |i: int|
            Face {
                a: indices[3 * i] as usize,
                b: indices[3 * i + 1] as usize,
                c: indices[3 * i + 2] as usize,
            },
    )
}

/// The faces of a decoded mesh file.
pub open spec fn faces_of_indexed(faces: Seq<IndexedTriangle>) -> Seq<Face> {
    Seq::new(
        faces.len(),
        |i: int|
            Face { a: faces[i].vertices[0], b: faces[i].vertices[1], c: faces[i].vertices[2] },
    )
}

/// What building a mesh from `vertices` and `faces` yields: the mesh when
/// everything is in order, else the first fault in the order of the clauses,
/// and among faulty faces the first one.
pub open spec fn build_outcome(
    vertices: Seq<Point3>,
    faces: Seq<Face>,
    r: Result<StlMesh, MeshError>,
) -> bool {
    match r {
        Ok(m) => m@.vertices == vertices && m@.faces == faces && m@.wf(),
        Err(MeshError::EmptyVertices) => vertices.len() == 0,
        Err(MeshError::EmptyIndices) => vertices.len() > 0 && faces.len() == 0,
        Err(MeshError::Ragged) => false,
        Err(MeshError::TooManyFaces) => vertices.len() > 0 && faces.len() > MAX_FACES,
        Err(MeshError::IndexOutOfRange { face }) => {
            &&& vertices.len() > 0
            &&& face < faces.len() <= MAX_FACES
            &&& faces_ok_before(vertices, faces, face as int)
            &&& !index_in_range(vertices.len(), faces[face as int])
        },
        Err(MeshError::RepeatedVertex { face }) => {
            &&& vertices.len() > 0
            &&& face < faces.len() <= MAX_FACES
            &&& faces_ok_before(vertices, faces, face as int)
            &&& index_in_range(vertices.len(), faces[face as int])
            &&& !corners_distinct(vertices, faces[face as int])
        },
    }
}

/// What building a mesh from flat lists yields: the faults of the lists
/// themselves come first, then those of the mesh they spell out.
pub open spec fn flat_build_outcome(
    coords: Seq<i32>,
    indices: Seq<u32>,
    r: Result<StlMesh, MeshError>,
) -> bool {
    if coords.len() == 0 {
        r == Err::<StlMesh, MeshError>(MeshError::EmptyVertices)
    } else if indices.len() == 0 {
        r == Err::<StlMesh, MeshError>(MeshError::EmptyIndices)
    } else if coords.len() % 3 != 0 || indices.len() % 3 != 0 {
        r == Err::<StlMesh, MeshError>(MeshError::Ragged)
    } else {
        build_outcome(points_of(coords), faces_of(indices), r)
    }
}

/// A triangulated surface. Once built it never changes.
pub struct StlMesh {
    vertices: Vec<Point3>,
    faces: Vec<Face>,
}

impl View for StlMesh {
    type V = Mesh;

    closed spec fn view(&self) -> Mesh {
        Mesh { vertices: self.vertices@, faces: self.faces@ }
    }
}

impl StlMesh {
    #[verifier::type_invariant]
    closed spec fn inv(&self) -> bool {
        self@.wf()
    }

    /// Builds a mesh from its vertices and its faces.
    pub fn from_parts(vertices: Vec<Point3>, faces: Vec<Face>) -> (r: Result<StlMesh, MeshError>)
        ensures
            build_outcome(vertices@, faces@, r),
    {
        if vertices.len() == 0 {
            return Err(MeshError::EmptyVertices);
        }
        if faces.len() == 0 {
            return Err(MeshError::EmptyIndices);
        }
        if faces.len() > MAX_FACES {
            return Err(MeshError::TooManyFaces);
        }
        let n = vertices.len();
        let mut i: usize = 0;
        while i < faces.len()
            invariant
                i <= faces.len() <= MAX_FACES,
                n == vertices.len(),
                n > 0,
                faces_ok_before(vertices@, faces@, i as int),
            decreases faces.len() - i,
        {
            let f = faces[i];
            if f.a >= n || f.b >= n || f.c >= n {
                return Err(MeshError::IndexOutOfRange { face: i });
            }
            let pa = vertices[f.a];
            let pb = vertices[f.b];
            let pc = vertices[f.c];
            if pa == pb || pb == pc || pa == pc {
                return Err(MeshError::RepeatedVertex { face: i });
            }
            i += 1;
        }
        Ok(StlMesh { vertices, faces })
    }

    /// Builds a mesh from a flat list of coordinates, three to a vertex, and
    /// a flat list of vertex positions, three to a face.
    pub fn new(vertices: &[i32], indices: &[u32]) -> (r: Result<StlMesh, MeshError>)
        ensures
            flat_build_outcome(vertices@, indices@, r),
    {
        if vertices.len() == 0 {
            return Err(MeshError::EmptyVertices);
        }
        if indices.len() == 0 {
            return Err(MeshError::EmptyIndices);
        }
        if vertices.len() % 3 != 0 || indices.len() % 3 != 0 {
            return Err(MeshError::Ragged);
        }
        let nv = vertices.len() / 3;
        let mut points: Vec<Point3> = Vec::new();
        let mut i: usize = 0;
        while i < nv
            invariant
                i <= nv,
                nv == vertices@.len() / 3,
                vertices@.len() <= usize::MAX,
                points@.len() == i,
                forall|j: int|
                    0 <= j < i ==> points@[j] == (Point3 {
                        x: vertices@[3 * j],
                        y: vertices@[3 * j + 1],
                        z: vertices@[3 * j + 2],
                    }),
            decreases nv - i,
        {
            points.push(Point3 { x: vertices[3 * i], y: vertices[3 * i + 1], z: vertices[3 * i + 2] });
            i += 1;
        }
        let nf = indices.len() / 3;
        let mut faces: Vec<Face> = Vec::new();
        let mut k: usize = 0;
        while k < nf
            invariant
                k <= nf,
                nf == indices@.len() / 3,
                indices@.len() <= usize::MAX,
                faces@.len() == k,
                forall|j: int|
                    0 <= j < k ==> faces@[j] == (Face {
                        a: indices@[3 * j] as usize,
                        b: indices@[3 * j + 1] as usize,
                        c: indices@[3 * j + 2] as usize,
                    }),
            decreases nf - k,
        {
            faces.push(
                Face {
                    a: indices[3 * k] as usize,
                    b: indices[3 * k + 1] as usize,
                    c: indices[3 * k + 2] as usize,
                },
            );
            k += 1;
        }
        assert(points@ =~= points_of(vertices@));
        assert(faces@ =~= faces_of(indices@));
        StlMesh::from_parts(points, faces)
    }

    /// Builds a mesh from a decoded mesh file.
    pub fn new_from_indexed_mesh(mesh: &IndexedMesh) -> (r: Result<StlMesh, MeshError>)
        ensures
            build_outcome(mesh.vertices@, faces_of_indexed(mesh.faces@), r),
    {
        let mut points: Vec<Point3> = Vec::new();
        let mut i: usize = 0;
        while i < mesh.vertices.len()
            invariant
                i <= mesh.vertices@.len(),
                points@.len() == i,
                forall|j: int| 0 <= j < i ==> points@[j] == mesh.vertices@[j],
            decreases mesh.vertices@.len() - i,
        {
            points.push(mesh.vertices[i]);
            i += 1;
        }
        let mut faces: Vec<Face> = Vec::new();
        let mut k: usize = 0;
        while k < mesh.faces.len()
            invariant
                k <= mesh.faces@.len(),
                faces@.len() == k,
                forall|j: int|
                    0 <= j < k ==> faces@[j] == (Face {
                        a: mesh.faces@[j].vertices[0],
                        b: mesh.faces@[j].vertices[1],
                        c: mesh.faces@[j].vertices[2],
                    }),
            decreases mesh.faces@.len() - k,
        {
            let t = mesh.faces[k];
            faces.push(Face { a: t.vertices[0], b: t.vertices[1], c: t.vertices[2] });
            k += 1;
        }
        assert(points@ =~= mesh.vertices@);
        assert(faces@ =~= faces_of_indexed(mesh.faces@));
        StlMesh::from_parts(points, faces)
    }

    /// The vertices, in the order given when the mesh was built.
    pub fn vertices(&self) -> (r: &Vec<Point3>)
        ensures
            r@ == self@.vertices,
            self@.wf(),
    {
        proof {
            use_type_invariant(self);
        }
        &self.vertices
    }

    /// The faces, in the order given when the mesh was built.
    pub fn faces(&self) -> (r: &Vec<Face>)
        ensures
            r@ == self@.faces,
            self@.wf(),
    {
        proof {
            use_type_invariant(self);
        }
        &self.faces
    }

    /// The number of vertices.
    pub fn vertex_count(&self) -> (n: usize)
        ensures
            n == self@.vertices.len(),
            n > 0,
    {
        proof {
            use_type_invariant(self);
        }
        self.vertices.len()
    }

    /// The number of faces.
    pub fn face_count(&self) -> (n: usize)
        ensures
            n == self@.faces.len(),
            0 < n <= MAX_FACES,
    {
        proof {
            use_type_invariant(self);
        }
        self.faces.len()
    }

    /// The corners of face `i`, or nothing when there is no such face.
    pub fn triangle(&self, i: usize) -> (t: Option<Triangle>)
        ensures
            t == if i < self@.faces.len() {
                Some(self@.triangle(i as int))
            } else {
                None
            },
    {
        proof {
            use_type_invariant(self);
        }
        if i < self.faces.len() {
            let f = self.faces[i];
            assert(face_ok(self.vertices@, self.faces@[i as int]));
            Some(Triangle { a: self.vertices[f.a], b: self.vertices[f.b], c: self.vertices[f.c] })
        } else {
            None
        }
    }

    /// The corners of every face, in face order.
    pub fn triangles(&self) -> (ts: Vec<Triangle>)
        ensures
            ts@.len() == self@.faces.len(),
            forall|i: int| 0 <= i < ts@.len() ==> ts@[i] == self@.triangle(i),
    {
        proof {
            use_type_invariant(self);
        }
        let mut ts: Vec<Triangle> = Vec::new();
        let mut i: usize = 0;
        while i < self.faces.len()
            invariant
                i <= self.faces@.len(),
                self@.wf(),
                ts@.len() == i,
                forall|j: int| 0 <= j < i ==> ts@[j] == self@.triangle(j),
            decreases self.faces@.len() - i,
        {
            let f = self.faces[i];
            assert(face_ok(self.vertices@, self.faces@[i as int]));
            ts.push(Triangle { a: self.vertices[f.a], b: self.vertices[f.b], c: self.vertices[f.c] });
            i += 1;
        }
        ts
    }
}

} // verus!
