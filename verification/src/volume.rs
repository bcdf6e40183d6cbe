//! The enclosed volume of a mesh, by the divergence theorem.
//!
//! Each face spans a tetrahedron with the origin. Six times its signed volume
//! is the triple product of the face's corners; the sum over all faces, taken
//! in face order, is six times the volume that a closed surface with outward
//! winding encloses.

use vstd::prelude::*;
use crate::mesh::{face_ok, Face, Mesh, StlMesh, MAX_FACES};
use crate::vector::{diff, orient, triple, vol_triangle_sgn, Point3, V3};

verus! {

/// Six times the signed volume of the tetrahedron that face `f` spans with the origin.
pub open spec fn face_volume6(vertices: Seq<Point3>, f: Face) -> int {
    triple(vertices[f.a as int]@, vertices[f.b as int]@, vertices[f.c as int]@)
}

/// The sum of `face_volume6` over `faces`.
pub open spec fn volume6(vertices: Seq<Point3>, faces: Seq<Face>) -> int
    decreases faces.len(),
{
    if faces.len() == 0 {
        0
    } else {
        volume6(vertices, faces.drop_last()) + face_volume6(vertices, faces.last())
    }
}

/// The face with the opposite winding.
pub open spec fn flipped(f: Face) -> Face {
    Face { a: f.a, b: f.c, c: f.b }
}

/// The faces with every winding reversed.
pub open spec fn reversed(faces: Seq<Face>) -> Seq<Face> {
    Seq::new(faces.len(), |i: int| flipped(faces[i]))
}

impl Mesh {
    /// Six times the signed volume that the mesh encloses.
    pub open spec fn signed_volume6(self) -> int {
        volume6(self.vertices, self.faces)
    }
}

/// Products of three factors may be regrouped and reordered.
pub proof fn lemma_three_factors(x: int, y: int, z: int)
    by (nonlinear_arith)
    ensures
        x * (y * z) == y * (x * z),
        x * (y * z) == x * (z * y),
        x * (y * z) == z * (x * y),
{
}

/// Multiplication distributes over a difference.
pub proof fn lemma_times_difference(x: int, p: int, q: int)
    by (nonlinear_arith)
    ensures
        x * (p - q) == x * p - x * q,
{
}

/// The triple product written out as its six terms.
proof fn lemma_triple_terms(a: V3, b: V3, c: V3)
    ensures
        triple(a, b, c) == a.x * (b.y * c.z) - a.x * (b.z * c.y) + a.y * (b.z * c.x) - a.y * (b.x
            * c.z) + a.z * (b.x * c.y) - a.z * (b.y * c.x),
{
    lemma_times_difference(a.x, b.y * c.z, b.z * c.y);
    lemma_times_difference(a.y, b.z * c.x, b.x * c.z);
    lemma_times_difference(a.z, b.x * c.y, b.y * c.x);
}

/// Exchanging two arguments of the triple product changes its sign.
pub proof fn lemma_triple_swap(a: V3, b: V3, c: V3)
    ensures
        triple(a, c, b) == -triple(a, b, c),
        triple(b, a, c) == -triple(a, b, c),
{
    lemma_triple_terms(a, b, c);
    lemma_triple_terms(a, c, b);
    lemma_triple_terms(b, a, c);
    lemma_three_factors(a.x, c.y, b.z);
    lemma_three_factors(a.x, c.z, b.y);
    lemma_three_factors(a.y, c.z, b.x);
    lemma_three_factors(a.y, c.x, b.z);
    lemma_three_factors(a.z, c.x, b.y);
    lemma_three_factors(a.z, c.y, b.x);
    lemma_three_factors(b.x, a.y, c.z);
    lemma_three_factors(b.x, a.z, c.y);
    lemma_three_factors(b.y, a.z, c.x);
    lemma_three_factors(b.y, a.x, c.z);
    lemma_three_factors(b.z, a.x, c.y);
    lemma_three_factors(b.z, a.y, c.x);
}

/// Rotating the arguments of the triple product leaves it unchanged.
pub proof fn lemma_triple_cyclic(a: V3, b: V3, c: V3)
    ensures
        triple(b, c, a) == triple(a, b, c),
        triple(c, a, b) == triple(a, b, c),
{
    lemma_triple_swap(a, b, c);
    lemma_triple_swap(b, a, c);
    lemma_triple_swap(a, c, b);
    lemma_triple_swap(c, a, b);
}

/// The triple product vanishes when two of its arguments are equal.
pub proof fn lemma_triple_repeated(a: V3, b: V3)
    ensures
        triple(a, a, b) == 0,
        triple(a, b, a) == 0,
        triple(b, a, a) == 0,
{
    lemma_triple_swap(a, a, b);
    lemma_triple_swap(a, b, a);
    lemma_triple_swap(b, a, a);
    lemma_triple_cyclic(a, a, b);
}

/// The triple product is additive in its first argument.
pub proof fn lemma_triple_diff_first(p: V3, q: V3, b: V3, c: V3)
    ensures
        triple(diff(p, q), b, c) == triple(p, b, c) - triple(q, b, c),
{
    let w = crate::vector::cross(b, c);
    assert((p.x - q.x) * w.x == p.x * w.x - q.x * w.x) by (nonlinear_arith);
    assert((p.y - q.y) * w.y == p.y * w.y - q.y * w.y) by (nonlinear_arith);
    assert((p.z - q.z) * w.z == p.z * w.z - q.z * w.z) by (nonlinear_arith);
}

/// The triple product is additive in each of its arguments.
pub proof fn lemma_triple_diff(p: V3, q: V3, b: V3, c: V3)
    ensures
        triple(diff(p, q), b, c) == triple(p, b, c) - triple(q, b, c),
        triple(b, diff(p, q), c) == triple(b, p, c) - triple(b, q, c),
        triple(b, c, diff(p, q)) == triple(b, c, p) - triple(b, c, q),
{
    lemma_triple_diff_first(p, q, b, c);
    lemma_triple_diff_first(p, q, c, b);
    lemma_triple_cyclic(diff(p, q), c, b);
    lemma_triple_cyclic(p, c, b);
    lemma_triple_cyclic(q, c, b);
    lemma_triple_cyclic(diff(p, q), b, c);
    lemma_triple_cyclic(p, b, c);
    lemma_triple_cyclic(q, b, c);
}

/// The volume of a tetrahedron is the alternating sum of the volumes that
/// its four faces span with the origin.
pub proof fn lemma_orient_expand(a: V3, b: V3, c: V3, d: V3)
    ensures
        orient(a, b, c, d) == triple(b, c, d) - triple(a, c, d) + triple(a, b, d) - triple(
            a,
            b,
            c,
        ),
{
    let u = diff(c, a);
    let v = diff(d, a);
    lemma_triple_diff(b, a, u, v);
    lemma_triple_diff(c, a, b, v);
    lemma_triple_diff(c, a, a, v);
    lemma_triple_diff(d, a, b, c);
    lemma_triple_diff(d, a, b, a);
    lemma_triple_diff(d, a, a, c);
    lemma_triple_diff(d, a, a, a);
    lemma_triple_repeated(a, b);
    lemma_triple_repeated(a, c);
    lemma_triple_repeated(a, d);
    lemma_triple_repeated(a, a);
    lemma_triple_cyclic(a, b, c);
    lemma_triple_swap(a, b, d);
}

/// A flat quadrilateral `a b c d` contributes the same volume whichever of
/// its two diagonals splits it into triangles.
pub proof fn lemma_diagonal_choice(a: Point3, b: Point3, c: Point3, d: Point3)
    requires
        orient(a@, b@, c@, d@) == 0,
    ensures
        triple(a@, b@, c@) + triple(a@, c@, d@) == triple(a@, b@, d@) + triple(b@, c@, d@),
{
    lemma_orient_expand(a@, b@, c@, d@);
}

/// Volume sums split where the face list is split.
pub proof fn lemma_volume6_push(vertices: Seq<Point3>, faces: Seq<Face>, f: Face)
    ensures
        volume6(vertices, faces.push(f)) == volume6(vertices, faces) + face_volume6(vertices, f),
{
    assert(faces.push(f).drop_last() =~= faces);
}

/// Reversing the winding of every face negates the signed volume.
pub proof fn lemma_reversed_winding_negates(vertices: Seq<Point3>, faces: Seq<Face>)
    ensures
        volume6(vertices, reversed(faces)) == -volume6(vertices, faces),
    decreases faces.len(),
{
    if faces.len() > 0 {
        let f = faces.last();
        lemma_reversed_winding_negates(vertices, faces.drop_last());
        assert(reversed(faces).drop_last() =~= reversed(faces.drop_last()));
        assert(reversed(faces).last() == flipped(f));
        lemma_triple_swap(vertices[f.a as int]@, vertices[f.b as int]@, vertices[f.c as int]@);
    }
}

/// Starting a face at another of its corners, in the same winding, leaves
/// its contribution to the volume unchanged.
pub proof fn lemma_face_rotation(vertices: Seq<Point3>, f: Face)
    ensures
        face_volume6(vertices, Face { a: f.b, b: f.c, c: f.a }) == face_volume6(vertices, f),
{
    lemma_triple_cyclic(vertices[f.a as int]@, vertices[f.b as int]@, vertices[f.c as int]@);
}

impl StlMesh {
    /// Six times the signed volume that the mesh encloses: positive for a
    /// closed surface wound counter-clockwise seen from outside. On an open
    /// surface the number has no geometric meaning.
    pub fn mesh_volume(&self) -> (v: i128)
        ensures
            v == self@.signed_volume6(),
            -0x3000_0000_0000_0000_0000_0000_0000_0000 <= v
                <= 0x3000_0000_0000_0000_0000_0000_0000_0000,
    {
        let vertices = self.vertices();
        let faces = self.faces();
        let mut sum: i128 = 0;
        let mut i: usize = 0;
        while i < faces.len()
            invariant
                i <= faces@.len() <= MAX_FACES,
                vertices@ == self@.vertices,
                faces@ == self@.faces,
                self@.wf(),
                sum == volume6(vertices@, faces@.take(i as int)),
                -(i * 0xC000_0000_0000_0000_0000_0000) <= sum <= i * 0xC000_0000_0000_0000_0000_0000,
            decreases faces@.len() - i,
        {
            let f = faces[i];
            assert(face_ok(vertices@, faces@[i as int]));
            let t = vol_triangle_sgn(&vertices[f.a], &vertices[f.b], &vertices[f.c]);
            proof {
                lemma_volume6_push(vertices@, faces@.take(i as int), f);
                assert(faces@.take(i as int).push(f) =~= faces@.take(i + 1));
            }
            sum = sum + t;
            i += 1;
        }
        assert(faces@.take(i as int) =~= faces@);
        sum
    }

    /// Six times the volume that the mesh encloses: the signed volume
    /// without its sign, so that the winding does not matter.
    pub fn volume6(&self) -> (v: u128)
        ensures
            v == vstd::math::abs(self@.signed_volume6()),
    {
        let s = self.mesh_volume();
        if s < 0 {
            (-s) as u128
        } else {
            s as u128
        }
    }
}

} // verus!
