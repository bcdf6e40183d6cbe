//! The area that a mesh shows to a direction.
//!
//! Projected onto the plane perpendicular to a direction `n`, a triangle
//! with normal `m` (of twice the triangle's area in length) covers the area
//! `|n . m| / (2 |n|)`. The length of `n` is taken to sixteen binary places,
//! rounded down, and the quotient is rounded down to a whole number.

use vstd::prelude::*;
use vstd::arithmetic::div_mod::{
    lemma_div_is_ordered_by_denominator, lemma_div_multiples_vanish_quotient,
    lemma_hoist_over_denominator,
};
use vstd::math::abs;
use crate::mesh::{face_ok, Face, StlMesh, MAX_FACES};
use crate::stats::{is_root, isqrt_wide, lemma_root_unique};
use crate::vector::{cross, diff, dot, lemma_product_bound, triangle_normal, Point3, V3};

verus! {

/// The normal of face `f`, of twice the face's area in length.
pub open spec fn face_normal(vertices: Seq<Point3>, f: Face) -> V3 {
    cross(
        diff(vertices[f.b as int]@, vertices[f.a as int]@),
        diff(vertices[f.c as int]@, vertices[f.a as int]@),
    )
}

/// The sum over `faces` of the magnitude of `n . m`, where `m` is the face's normal.
pub open spec fn facing(vertices: Seq<Point3>, faces: Seq<Face>, n: V3) -> nat
    decreases faces.len(),
{
    if faces.len() == 0 {
        0
    } else {
        facing(vertices, faces.drop_last(), n) + abs(dot(n, face_normal(vertices, faces.last())))
    }
}

/// The integer part of the square root of `x`.
pub open spec fn int_root(x: int) -> int {
    choose|r: int| is_root(r, x)
}

/// The length of `n` times 65536, rounded down.
pub open spec fn scaled_length(n: V3) -> int {
    int_root(dot(n, n) * 0x1_0000_0000)
}

/// The area that `faces` cover when projected onto the plane with the
/// normal `n`, every face counted, rounded down; zero for no direction.
pub open spec fn projected_area(vertices: Seq<Point3>, faces: Seq<Face>, n: V3) -> int {
    if dot(n, n) == 0 {
        0
    } else {
        (facing(vertices, faces, n) as int * 0x8000) / scaled_length(n)
    }
}

/// The direction opposite to `n`.
pub open spec fn opposite(n: V3) -> V3 {
    V3 { x: -n.x, y: -n.y, z: -n.z }
}

/// The number with the properties of a root is the root.
pub proof fn lemma_int_root(r: int, x: int)
    requires
        is_root(r, x),
    ensures
        int_root(x) == r,
{
    lemma_root_unique(int_root(x), r, x);
}

/// A mesh shows the same area to a direction and to its opposite.
pub proof fn lemma_facing_opposite(vertices: Seq<Point3>, faces: Seq<Face>, n: V3)
    ensures
        facing(vertices, faces, opposite(n)) == facing(vertices, faces, n),
        dot(opposite(n), opposite(n)) == dot(n, n),
        projected_area(vertices, faces, opposite(n)) == projected_area(vertices, faces, n),
    decreases faces.len(),
{
    assert((-n.x) * (-n.x) == n.x * n.x) by (nonlinear_arith);
    assert((-n.y) * (-n.y) == n.y * n.y) by (nonlinear_arith);
    assert((-n.z) * (-n.z) == n.z * n.z) by (nonlinear_arith);
    if faces.len() > 0 {
        lemma_facing_opposite(vertices, faces.drop_last(), n);
        let m = face_normal(vertices, faces.last());
        assert((-n.x) * m.x == -(n.x * m.x)) by (nonlinear_arith);
        assert((-n.y) * m.y == -(n.y * m.y)) by (nonlinear_arith);
        assert((-n.z) * m.z == -(n.z * m.z)) by (nonlinear_arith);
    }
}

/// The direction `n` made `k` times as long.
pub open spec fn times(k: int, n: V3) -> V3 {
    V3 { x: k * n.x, y: k * n.y, z: k * n.z }
}

/// The sum that the area is taken from grows with the length of the normal.
pub proof fn lemma_facing_times(vertices: Seq<Point3>, faces: Seq<Face>, n: V3, k: int)
    requires
        k >= 0,
    ensures
        facing(vertices, faces, times(k, n)) == k * facing(vertices, faces, n),
    decreases faces.len(),
{
    if faces.len() > 0 {
        lemma_facing_times(vertices, faces.drop_last(), n, k);
        let m = face_normal(vertices, faces.last());
        let d = dot(n, m);
        let head = facing(vertices, faces.drop_last(), n) as int;
        assert((k * n.x) * m.x == k * (n.x * m.x)) by (nonlinear_arith);
        assert((k * n.y) * m.y == k * (n.y * m.y)) by (nonlinear_arith);
        assert((k * n.z) * m.z == k * (n.z * m.z)) by (nonlinear_arith);
        assert(k * (n.x * m.x) + k * (n.y * m.y) + k * (n.z * m.z) == k * d) by (nonlinear_arith)
            requires
                d == n.x * m.x + n.y * m.y + n.z * m.z,
        ;
        assert(dot(times(k, n), m) == k * d);
        if d >= 0 {
            assert(k * d >= 0) by (nonlinear_arith)
                requires
                    k >= 0,
                    d >= 0,
            ;
            assert(k * (head + d) == k * head + k * d) by (nonlinear_arith);
            assert(facing(vertices, faces, n) == head + d);
            assert(facing(vertices, faces, times(k, n)) == k * head + k * d);
        } else {
            assert(k * d <= 0 && k * (-d) == -(k * d)) by (nonlinear_arith)
                requires
                    k >= 0,
                    d < 0,
            ;
            assert(k * (head + (-d)) == k * head + k * (-d)) by (nonlinear_arith);
            assert(facing(vertices, faces, n) == head + (-d));
            assert(facing(vertices, faces, times(k, n)) == k * head + k * (-d));
        }
    } else {
        assert(k * 0 == 0);
    }
}

/// Only the direction of the normal matters. Where the length of `n` has
/// no more than sixteen binary places, so that nothing of it is rounded
/// away, every longer normal of the same direction gives the same area.
pub proof fn lemma_longer_normal(
    vertices: Seq<Point3>,
    faces: Seq<Face>,
    n: V3,
    k: int,
    length: int,
)
    requires
        k > 0,
        length >= 0,
        length * length == dot(n, n) * 0x1_0000_0000,
    ensures
        projected_area(vertices, faces, times(k, n)) == projected_area(vertices, faces, n),
{
    let q = dot(n, n);
    let f = facing(vertices, faces, n) as int;
    lemma_facing_times(vertices, faces, n, k);
    assert((k * n.x) * (k * n.x) == (k * k) * (n.x * n.x)) by (nonlinear_arith);
    assert((k * n.y) * (k * n.y) == (k * k) * (n.y * n.y)) by (nonlinear_arith);
    assert((k * n.z) * (k * n.z) == (k * k) * (n.z * n.z)) by (nonlinear_arith);
    assert((k * k) * (n.x * n.x) + (k * k) * (n.y * n.y) + (k * k) * (n.z * n.z) == (k * k) * q)
        by (nonlinear_arith)
        requires
            q == n.x * n.x + n.y * n.y + n.z * n.z,
    ;
    assert(dot(times(k, n), times(k, n)) == (k * k) * q);
    assert(q >= 0 && (q != 0 ==> (k * k) * q != 0) && (q == 0 ==> (k * k) * q == 0))
        by (nonlinear_arith)
        requires
            q == n.x * n.x + n.y * n.y + n.z * n.z,
            k > 0,
    ;
    if q != 0 {
        assert(length > 0) by (nonlinear_arith)
            requires
                length >= 0,
                length * length == q * 0x1_0000_0000,
                q > 0,
        ;
        assert(is_root(length, q * 0x1_0000_0000)) by (nonlinear_arith)
            requires
                length >= 0,
                length * length == q * 0x1_0000_0000,
        ;
        lemma_int_root(length, q * 0x1_0000_0000);
        assert(is_root(k * length, ((k * k) * q) * 0x1_0000_0000)) by (nonlinear_arith)
            requires
                k > 0,
                length >= 0,
                length * length == q * 0x1_0000_0000,
        ;
        lemma_int_root(k * length, ((k * k) * q) * 0x1_0000_0000);
        lemma_div_multiples_vanish_quotient(k, f * 0x8000, length);
        assert((k * f) * 0x8000 == k * (f * 0x8000)) by (nonlinear_arith);
    }
}

impl StlMesh {
    /// The area that the faces cover when projected onto the plane with the
    /// normal `plane_normal`. Every face counts, the hidden ones too. Only
    /// the direction of the normal matters; a longer normal of the same
    /// direction gives the same area up to rounding.
    pub fn facing_area(&self, plane_normal: &[i32]) -> (r: u128)
        requires
            plane_normal@.len() == 3,
        ensures
            r == projected_area(
                self@.vertices,
                self@.faces,
                V3 {
                    x: plane_normal@[0] as int,
                    y: plane_normal@[1] as int,
                    z: plane_normal@[2] as int,
                },
            ),
    {
        let nx: i128 = plane_normal[0] as i128;
        let ny: i128 = plane_normal[1] as i128;
        let nz: i128 = plane_normal[2] as i128;
        let ghost n = V3 { x: nx as int, y: ny as int, z: nz as int };
        proof {
            lemma_product_bound(nx as int, nx as int, 0x8000_0000, 0x8000_0000);
            lemma_product_bound(ny as int, ny as int, 0x8000_0000, 0x8000_0000);
            lemma_product_bound(nz as int, nz as int, 0x8000_0000, 0x8000_0000);
            assert(nx * nx >= 0 && ny * ny >= 0 && nz * nz >= 0) by (nonlinear_arith);
        }
        let q: i128 = nx * nx + ny * ny + nz * nz;
        if q == 0 {
            return 0;
        }
        let vertices = self.vertices();
        let faces = self.faces();
        let mut total: u128 = 0;
        let mut i: usize = 0;
        while i < faces.len()
            invariant
                i <= faces@.len() <= MAX_FACES,
                vertices@ == self@.vertices,
                faces@ == self@.faces,
                self@.wf(),
                n == (V3 { x: nx as int, y: ny as int, z: nz as int }),
                -0x8000_0000 <= nx <= 0x8000_0000,
                -0x8000_0000 <= ny <= 0x8000_0000,
                -0x8000_0000 <= nz <= 0x8000_0000,
                total == facing(vertices@, faces@.take(i as int), n),
                total <= i * 0x3_0000_0000_0000_0000_0000_0000,
            decreases faces@.len() - i,
        {
            let f = faces[i];
            assert(face_ok(vertices@, faces@[i as int]));
            let m = triangle_normal(&vertices[f.a], &vertices[f.b], &vertices[f.c]);
            proof {
                assert(faces@.take(i + 1).drop_last() =~= faces@.take(i as int));
                lemma_product_bound(nx as int, m.x as int, 0x8000_0000, 0x2_0000_0000_0000_0000);
                lemma_product_bound(ny as int, m.y as int, 0x8000_0000, 0x2_0000_0000_0000_0000);
                lemma_product_bound(nz as int, m.z as int, 0x8000_0000, 0x2_0000_0000_0000_0000);
            }
            let d: i128 = nx * m.x + ny * m.y + nz * m.z;
            let a: u128 = if d < 0 {
                (-d) as u128
            } else {
                d as u128
            };
            total = total + a;
            i += 1;
        }
        assert(faces@.take(i as int) =~= faces@);
        let wide: u128 = (q as u128) * 0x1_0000_0000;
        let length: u128 = isqrt_wide(wide) as u128;
        proof {
            lemma_int_root(length as int, wide as int);
            assert(length >= 0x1_0000) by (nonlinear_arith)
                requires
                    wide >= 0x1_0000_0000,
                    wide < (length + 1) * (length + 1),
                    length >= 0,
            ;
            lemma_div_is_ordered_by_denominator(total as int, 0x1_0000, length as int);
            lemma_hoist_over_denominator(
                (total % length) * 0x8000,
                (total / length) * 0x8000,
                length as nat,
            );
            assert(total == length * (total / length) + total % length) by (nonlinear_arith)
                requires
                    length > 0,
            ;
            assert(((total / length) * 0x8000) * length + (total % length) * 0x8000 == total
                * 0x8000) by (nonlinear_arith)
                requires
                    total == length * (total / length) + total % length,
            ;
        }
        let whole: u128 = total / length;
        let rest: u128 = total % length;
        whole * 0x8000 + (rest * 0x8000) / length
    }
}

} // verus!
