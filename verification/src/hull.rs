//! Whether a point cloud spans a solid, and the hull of four points.
//!
//! A convex hull exists as a closed surface only where four of the points
//! do not lie in one plane. The search for four such points is the first
//! step of building a hull, and its failure is the degenerate case.

use vstd::prelude::*;
use vstd::math::abs;
use crate::mesh::{build_outcome, Face, MeshError, StlMesh};
use crate::vector::{cross, diff, dot, orient, orient3d, triangle_normal, triple, Point3, V3};
use crate::volume::{
    lemma_orient_expand, lemma_three_factors, lemma_times_difference, lemma_triple_cyclic,
    lemma_triple_repeated, lemma_triple_swap, lemma_volume6_push, volume6,
};

verus! {

/// Why no hull could be built.
#[derive(Clone, Copy, Debug, PartialEq, Eq, Structural)]
pub enum HullError {
    /// All points lie in one plane, or there are fewer than four.
    Degenerate,
}

/// Four points of a cloud, by their positions in it, that span a solid.
#[derive(Clone, Copy, Debug, PartialEq, Eq, Structural)]
pub struct Simplex {
    pub a: usize,
    pub b: usize,
    pub c: usize,
    pub d: usize,
}

/// The vector of no length.
pub open spec fn zero() -> V3 {
    V3 { x: 0, y: 0, z: 0 }
}

/// The three points lie on one line.
pub open spec fn collinear(p: V3, q: V3, r: V3) -> bool {
    cross(diff(q, p), diff(r, p)) == zero()
}

/// Any four of the points lie in one plane.
pub open spec fn flat(points: Seq<Point3>) -> bool {
    forall|i: int, j: int, k: int, l: int|
        0 <= i < points.len() && 0 <= j < points.len() && 0 <= k < points.len() && 0 <= l
            < points.len() ==> (#[trigger] orient(points[i]@, points[j]@, points[k]@, points[l]@))
            == 0
}

/// `s` is the first simplex of the cloud: the first point, the first point
/// that differs from it, the first point off the line through these two,
/// and the first point off the plane through these three.
pub open spec fn is_seed(points: Seq<Point3>, s: Simplex) -> bool {
    &&& s.a == 0
    &&& s.b < points.len() && s.c < points.len() && s.d < points.len()
    &&& points[s.b as int] != points[0]
    &&& forall|m: int| 0 <= m < s.b ==> #[trigger] points[m] == points[0]
    &&& !collinear(points[0]@, points[s.b as int]@, points[s.c as int]@)
    &&& forall|m: int| 0 <= m < s.c ==> collinear(points[0]@, points[s.b as int]@, #[trigger] points[m]@)
    &&& orient(points[0]@, points[s.b as int]@, points[s.c as int]@, points[s.d as int]@) != 0
    &&& forall|m: int|
        0 <= m < s.d ==> orient(
            points[0]@,
            points[s.b as int]@,
            points[s.c as int]@,
            #[trigger] points[m]@,
        ) == 0
}

/// The faces of the tetrahedron on the points 0, 1, 2, 3, wound so that it
/// encloses a positive volume. `positive` tells the sign of the points' orientation.
pub open spec fn tetrahedron_faces(positive: bool) -> Seq<Face> {
    if positive {
        seq![
            Face { a: 1, b: 2, c: 3 },
            Face { a: 0, b: 3, c: 2 },
            Face { a: 0, b: 1, c: 3 },
            Face { a: 0, b: 2, c: 1 },
        ]
    } else {
        seq![
            Face { a: 1, b: 3, c: 2 },
            Face { a: 0, b: 2, c: 3 },
            Face { a: 0, b: 3, c: 1 },
            Face { a: 0, b: 1, c: 2 },
        ]
    }
}

/// The vector product distributes over a difference in its second argument.
proof fn lemma_cross_diff(d: V3, x: V3, y: V3)
    ensures
        cross(d, diff(x, y)) == diff(cross(d, x), cross(d, y)),
{
    lemma_times_difference(d.y, x.z, y.z);
    lemma_times_difference(d.z, x.y, y.y);
    lemma_times_difference(d.z, x.x, y.x);
    lemma_times_difference(d.x, x.z, y.z);
    lemma_times_difference(d.x, x.y, y.y);
    lemma_times_difference(d.y, x.x, y.x);
}

/// The scalar product distributes over a difference in its first argument.
proof fn lemma_dot_diff(x: V3, y: V3, n: V3)
    ensures
        dot(diff(x, y), n) == dot(x, n) - dot(y, n),
{
    assert((x.x - y.x) * n.x == x.x * n.x - y.x * n.x) by (nonlinear_arith);
    assert((x.y - y.y) * n.y == x.y * n.y - y.y * n.y) by (nonlinear_arith);
    assert((x.z - y.z) * n.z == x.z * n.z - y.z * n.z) by (nonlinear_arith);
}

/// A product is zero only if a factor is.
proof fn lemma_zero_product(x: int, y: int)
    by (nonlinear_arith)
    requires
        x * y == 0,
        x != 0,
    ensures
        y == 0,
{
}

/// Multiplication distributes over a sum of three.
proof fn lemma_times_sum(x: int, p: int, q: int, r: int)
    by (nonlinear_arith)
    ensures
        x * (p + q + r) == x * p + x * q + x * r,
{
}

/// The outer factors of a product of three may change places.
proof fn lemma_outer_factors(n: int, a: int, x: int)
    by (nonlinear_arith)
    ensures
        n * (a * x) == x * (a * n),
{
}

/// Anything times nothing is nothing.
proof fn lemma_times_nothing(x: int, y: int)
    by (nonlinear_arith)
    requires
        y == 0,
    ensures
        x * y == 0,
{
}

/// Two vectors parallel to a third, whose first component is not zero, are
/// parallel to each other.
proof fn lemma_parallel_axis(
    dx: int,
    dy: int,
    dz: int,
    ux: int,
    uy: int,
    uz: int,
    vx: int,
    vy: int,
    vz: int,
)
    requires
        dx != 0,
        dy * uz == dz * uy,
        dz * ux == dx * uz,
        dx * uy == dy * ux,
        dy * vz == dz * vy,
        dz * vx == dx * vz,
        dx * vy == dy * vx,
    ensures
        uy * vz - uz * vy == 0,
        uz * vx - ux * vz == 0,
        ux * vy - uy * vx == 0,
{
    lemma_times_difference(dx, uy * vz, uz * vy);
    lemma_times_difference(dx, uz * vx, ux * vz);
    lemma_times_difference(dx, ux * vy, uy * vx);
    assert(dx * (uy * vz) == ux * (dy * vz)) by (nonlinear_arith)
        requires
            dx * uy == dy * ux,
    ;
    assert(dx * (uz * vy) == ux * (dz * vy)) by (nonlinear_arith)
        requires
            dz * ux == dx * uz,
    ;
    assert(dx * (uz * vx) == ux * (dz * vx)) by (nonlinear_arith)
        requires
            dz * ux == dx * uz,
    ;
    assert(dx * (ux * vz) == ux * (dz * vx)) by (nonlinear_arith)
        requires
            dz * vx == dx * vz,
    ;
    assert(dx * (ux * vy) == ux * (dy * vx)) by (nonlinear_arith)
        requires
            dx * vy == dy * vx,
    ;
    assert(dx * (uy * vx) == ux * (dy * vx)) by (nonlinear_arith)
        requires
            dx * uy == dy * ux,
    ;
    lemma_zero_product(dx, uy * vz - uz * vy);
    lemma_zero_product(dx, uz * vx - ux * vz);
    lemma_zero_product(dx, ux * vy - uy * vx);
}

/// Two vectors parallel to a third that is not zero are parallel to each other.
proof fn lemma_parallel(d: V3, u: V3, v: V3)
    requires
        d != zero(),
        cross(d, u) == zero(),
        cross(d, v) == zero(),
    ensures
        cross(u, v) == zero(),
{
    if d.x != 0 {
        lemma_parallel_axis(d.x, d.y, d.z, u.x, u.y, u.z, v.x, v.y, v.z);
    } else if d.y != 0 {
        lemma_parallel_axis(d.y, d.z, d.x, u.y, u.z, u.x, v.y, v.z, v.x);
    } else {
        lemma_parallel_axis(d.z, d.x, d.y, u.z, u.x, u.y, v.z, v.x, v.y);
    }
}

/// A determinant whose rows are all perpendicular to `n` vanishes when
/// multiplied by the first component of `n`.
proof fn lemma_kernel_axis(n: V3, a: V3, b: V3, c: V3)
    requires
        dot(a, n) == 0,
        dot(b, n) == 0,
        dot(c, n) == 0,
    ensures
        n.x * triple(a, b, c) == 0,
{
    let x = b.y * c.z - b.z * c.y;
    let y = c.y * a.z - c.z * a.y;
    let z = a.y * b.z - a.z * b.y;
    lemma_times_difference(a.x, b.y * c.z, b.z * c.y);
    lemma_times_difference(a.y, b.y * c.z, b.z * c.y);
    lemma_times_difference(a.z, b.y * c.z, b.z * c.y);
    lemma_times_difference(b.x, c.y * a.z, c.z * a.y);
    lemma_times_difference(b.y, c.y * a.z, c.z * a.y);
    lemma_times_difference(b.z, c.y * a.z, c.z * a.y);
    lemma_times_difference(c.x, a.y * b.z, a.z * b.y);
    lemma_times_difference(c.y, a.y * b.z, a.z * b.y);
    lemma_times_difference(c.z, a.y * b.z, a.z * b.y);
    lemma_times_difference(a.y, b.z * c.x, b.x * c.z);
    lemma_times_difference(a.z, b.x * c.y, b.y * c.x);
    // the first column against its own cofactors is the determinant
    lemma_three_factors(b.x, c.y, a.z);
    lemma_three_factors(b.x, c.z, a.y);
    lemma_three_factors(c.x, a.y, b.z);
    lemma_three_factors(c.x, a.z, b.y);
    lemma_three_factors(a.y, b.z, c.x);
    lemma_three_factors(a.y, b.x, c.z);
    lemma_three_factors(a.z, b.x, c.y);
    lemma_three_factors(a.z, b.y, c.x);
    assert(a.x * x + b.x * y + c.x * z == triple(a, b, c));
    // another column against them is nothing
    lemma_three_factors(a.y, b.y, c.z);
    lemma_three_factors(a.y, b.z, c.y);
    lemma_three_factors(b.y, c.y, a.z);
    lemma_three_factors(b.y, c.z, a.y);
    lemma_three_factors(c.y, a.y, b.z);
    lemma_three_factors(c.y, a.z, b.y);
    assert(a.y * x + b.y * y + c.y * z == 0);
    lemma_three_factors(a.z, b.y, c.z);
    lemma_three_factors(a.z, b.z, c.y);
    lemma_three_factors(b.z, c.y, a.z);
    lemma_three_factors(b.z, c.z, a.y);
    lemma_three_factors(c.z, a.y, b.z);
    lemma_three_factors(c.z, a.z, b.y);
    assert(a.z * x + b.z * y + c.z * z == 0);
    let p = a.x * x + b.x * y + c.x * z;
    let q = a.y * x + b.y * y + c.y * z;
    let r = a.z * x + b.z * y + c.z * z;
    lemma_times_sum(n.x, a.x * x, b.x * y, c.x * z);
    lemma_times_sum(n.y, a.y * x, b.y * y, c.y * z);
    lemma_times_sum(n.z, a.z * x, b.z * y, c.z * z);
    lemma_times_sum(x, a.x * n.x, a.y * n.y, a.z * n.z);
    lemma_times_sum(y, b.x * n.x, b.y * n.y, b.z * n.z);
    lemma_times_sum(z, c.x * n.x, c.y * n.y, c.z * n.z);
    lemma_outer_factors(n.x, a.x, x);
    lemma_outer_factors(n.x, b.x, y);
    lemma_outer_factors(n.x, c.x, z);
    lemma_outer_factors(n.y, a.y, x);
    lemma_outer_factors(n.y, b.y, y);
    lemma_outer_factors(n.y, c.y, z);
    lemma_outer_factors(n.z, a.z, x);
    lemma_outer_factors(n.z, b.z, y);
    lemma_outer_factors(n.z, c.z, z);
    lemma_times_nothing(x, dot(a, n));
    lemma_times_nothing(y, dot(b, n));
    lemma_times_nothing(z, dot(c, n));
    lemma_times_nothing(n.y, q);
    lemma_times_nothing(n.z, r);
    assert(n.x * p + n.y * q + n.z * r == x * dot(a, n) + y * dot(b, n) + z * dot(c, n));
}

/// The coordinates of `v` moved on by one place.
spec fn turned(v: V3) -> V3 {
    V3 { x: v.y, y: v.z, z: v.x }
}

/// Three vectors perpendicular to a vector that is not zero have no volume.
proof fn lemma_kernel(n: V3, a: V3, b: V3, c: V3)
    requires
        n != zero(),
        dot(a, n) == 0,
        dot(b, n) == 0,
        dot(c, n) == 0,
    ensures
        triple(a, b, c) == 0,
{
    if n.x != 0 {
        lemma_kernel_axis(n, a, b, c);
        lemma_zero_product(n.x, triple(a, b, c));
    } else if n.y != 0 {
        lemma_kernel_axis(turned(n), turned(a), turned(b), turned(c));
        assert(triple(turned(a), turned(b), turned(c)) == triple(a, b, c));
        lemma_zero_product(n.y, triple(a, b, c));
    } else {
        let n2 = turned(turned(n));
        lemma_kernel_axis(n2, turned(turned(a)), turned(turned(b)), turned(turned(c)));
        assert(triple(turned(turned(a)), turned(turned(b)), turned(turned(c))) == triple(a, b, c));
        lemma_zero_product(n.z, triple(a, b, c));
    }
}

/// Four equal points span no volume.
proof fn lemma_point_flat(p: V3)
    ensures
        orient(p, p, p, p) == 0,
{
    lemma_triple_repeated(diff(p, p), diff(p, p));
}

/// Points on one line span no volume.
proof fn lemma_line_flat(o: V3, e: V3, pi: V3, pj: V3, pk: V3, pl: V3)
    requires
        e != o,
        collinear(o, e, pi),
        collinear(o, e, pk),
        collinear(o, e, pl),
    ensures
        orient(pi, pj, pk, pl) == 0,
{
    let d = diff(e, o);
    let u = diff(pk, pi);
    let v = diff(pl, pi);
    lemma_cross_diff(d, diff(pk, o), diff(pi, o));
    lemma_cross_diff(d, diff(pl, o), diff(pi, o));
    assert(u == diff(diff(pk, o), diff(pi, o)));
    assert(v == diff(diff(pl, o), diff(pi, o)));
    lemma_parallel(d, u, v);
}

/// Points in one plane span no volume.
proof fn lemma_plane_flat(o: V3, e: V3, f: V3, pi: V3, pj: V3, pk: V3, pl: V3)
    requires
        !collinear(o, e, f),
        orient(o, e, f, pi) == 0,
        orient(o, e, f, pj) == 0,
        orient(o, e, f, pk) == 0,
        orient(o, e, f, pl) == 0,
    ensures
        orient(pi, pj, pk, pl) == 0,
{
    let d1 = diff(e, o);
    let d2 = diff(f, o);
    let n = cross(d1, d2);
    lemma_triple_cyclic(d1, d2, diff(pi, o));
    lemma_triple_cyclic(d1, d2, diff(pj, o));
    lemma_triple_cyclic(d1, d2, diff(pk, o));
    lemma_triple_cyclic(d1, d2, diff(pl, o));
    assert(dot(diff(pi, o), n) == 0);
    assert(dot(diff(pj, o), n) == 0);
    assert(dot(diff(pk, o), n) == 0);
    assert(dot(diff(pl, o), n) == 0);
    lemma_dot_diff(diff(pj, o), diff(pi, o), n);
    lemma_dot_diff(diff(pk, o), diff(pi, o), n);
    lemma_dot_diff(diff(pl, o), diff(pi, o), n);
    assert(diff(pj, pi) == diff(diff(pj, o), diff(pi, o)));
    assert(diff(pk, pi) == diff(diff(pk, o), diff(pi, o)));
    assert(diff(pl, pi) == diff(diff(pl, o), diff(pi, o)));
    lemma_kernel(n, diff(pj, pi), diff(pk, pi), diff(pl, pi));
}

/// A cloud with a seed is not flat.
pub proof fn lemma_seed_spans(points: Seq<Point3>, s: Simplex)
    requires
        is_seed(points, s),
    ensures
        !flat(points),
{
    if flat(points) {
        assert(orient(points[0]@, points[s.b as int]@, points[s.c as int]@, points[s.d as int]@)
            == 0);
    }
}

/// Four points that span a solid are four different points.
pub proof fn lemma_solid_distinct(a: Point3, b: Point3, c: Point3, d: Point3)
    requires
        orient(a@, b@, c@, d@) != 0,
    ensures
        a != b && a != c && a != d && b != c && b != d && c != d,
{
    let u = diff(b@, a@);
    let v = diff(c@, a@);
    let w = diff(d@, a@);
    lemma_triple_repeated(u, v);
    lemma_triple_repeated(v, u);
    lemma_triple_repeated(u, w);
    lemma_triple_repeated(w, u);
    lemma_triple_repeated(v, w);
    lemma_triple_repeated(w, v);
    lemma_triple_repeated(zero(), v);
    lemma_triple_repeated(zero(), w);
    lemma_triple_repeated(zero(), u);
    lemma_triple_swap(u, v, w);
    lemma_triple_swap(u, w, v);
    lemma_triple_swap(v, u, w);
    lemma_triple_cyclic(u, v, w);
    if a == b {
        assert(u == zero());
        assert(triple(zero(), v, w) == 0);
    }
    if a == c {
        assert(v == zero());
        assert(triple(u, zero(), w) == 0);
    }
    if a == d {
        assert(w == zero());
        assert(triple(u, v, zero()) == 0);
    }
    if b == c {
        assert(u == v);
    }
    if b == d {
        assert(u == w);
    }
    if c == d {
        assert(v == w);
    }
}

/// The tetrahedron wound outward encloses the volume of its four corners.
pub proof fn lemma_tetrahedron_volume(a: Point3, b: Point3, c: Point3, d: Point3)
    ensures
        volume6(seq![a, b, c, d], tetrahedron_faces(orient(a@, b@, c@, d@) > 0)) == abs(
            orient(a@, b@, c@, d@),
        ),
{
    let vertices = seq![a, b, c, d];
    let faces = tetrahedron_faces(orient(a@, b@, c@, d@) > 0);
    let none = Seq::<Face>::empty();
    assert(faces =~= none.push(faces[0]).push(faces[1]).push(faces[2]).push(faces[3]));
    lemma_volume6_push(vertices, none, faces[0]);
    lemma_volume6_push(vertices, none.push(faces[0]), faces[1]);
    lemma_volume6_push(vertices, none.push(faces[0]).push(faces[1]), faces[2]);
    lemma_volume6_push(vertices, none.push(faces[0]).push(faces[1]).push(faces[2]), faces[3]);
    assert(volume6(vertices, none) == 0);
    lemma_orient_expand(a@, b@, c@, d@);
    lemma_triple_swap(b@, c@, d@);
    lemma_triple_swap(a@, c@, d@);
    lemma_triple_swap(a@, b@, d@);
    lemma_triple_swap(a@, b@, c@);
}

/// Finds the first simplex of a point cloud, with which a hull starts, or
/// finds that the cloud is flat and has no hull.
pub fn hull_seed(points: &Vec<Point3>) -> (r: Result<Simplex, HullError>)
    ensures
        r is Err <==> flat(points@),
        r matches Ok(s) ==> is_seed(points@, s),
{
    let n = points.len();
    if n == 0 {
        return Err(HullError::Degenerate);
    }
    let p0 = points[0];
    let mut b: usize = 0;
    while b < n && points[b] == p0
        invariant
            b <= n,
            n == points@.len(),
            p0 == points@[0],
            forall|m: int| 0 <= m < b ==> #[trigger] points@[m] == p0,
        decreases n - b,
    {
        b += 1;
    }
    if b == n {
        proof {
            assert forall|i: int, j: int, k: int, l: int|
                0 <= i < n && 0 <= j < n && 0 <= k < n && 0 <= l < n implies (#[trigger] orient(
                points@[i]@,
                points@[j]@,
                points@[k]@,
                points@[l]@,
            )) == 0 by {
                lemma_point_flat(p0@);
            }
        }
        return Err(HullError::Degenerate);
    }
    let pb = points[b];
    let mut c: usize = 0;
    while c < n && is_zero(triangle_normal(&p0, &pb, &points[c]))
        invariant
            c <= n,
            n == points@.len(),
            forall|m: int| 0 <= m < c ==> collinear(p0@, pb@, #[trigger] points@[m]@),
        decreases n - c,
    {
        c += 1;
    }
    if c == n {
        proof {
            assert forall|i: int, j: int, k: int, l: int|
                0 <= i < n && 0 <= j < n && 0 <= k < n && 0 <= l < n implies (#[trigger] orient(
                points@[i]@,
                points@[j]@,
                points@[k]@,
                points@[l]@,
            )) == 0 by {
                assert(collinear(p0@, pb@, points@[i]@));
                assert(collinear(p0@, pb@, points@[k]@));
                assert(collinear(p0@, pb@, points@[l]@));
                lemma_line_flat(p0@, pb@, points@[i]@, points@[j]@, points@[k]@, points@[l]@);
            }
        }
        return Err(HullError::Degenerate);
    }
    let pc = points[c];
    let mut d: usize = 0;
    while d < n && orient3d(&p0, &pb, &pc, &points[d]) == 0
        invariant
            d <= n,
            n == points@.len(),
            forall|m: int| 0 <= m < d ==> orient(p0@, pb@, pc@, #[trigger] points@[m]@) == 0,
        decreases n - d,
    {
        d += 1;
    }
    if d == n {
        proof {
            assert forall|i: int, j: int, k: int, l: int|
                0 <= i < n && 0 <= j < n && 0 <= k < n && 0 <= l < n implies (#[trigger] orient(
                points@[i]@,
                points@[j]@,
                points@[k]@,
                points@[l]@,
            )) == 0 by {
                assert(orient(p0@, pb@, pc@, points@[i]@) == 0);
                assert(orient(p0@, pb@, pc@, points@[j]@) == 0);
                assert(orient(p0@, pb@, pc@, points@[k]@) == 0);
                assert(orient(p0@, pb@, pc@, points@[l]@) == 0);
                lemma_plane_flat(
                    p0@,
                    pb@,
                    pc@,
                    points@[i]@,
                    points@[j]@,
                    points@[k]@,
                    points@[l]@,
                );
            }
        }
        return Err(HullError::Degenerate);
    }
    let s = Simplex { a: 0, b, c, d };
    proof {
        lemma_seed_spans(points@, s);
    }
    Ok(s)
}

/// Whether a vector has no length.
fn is_zero(v: crate::vector::Vector3) -> (r: bool)
    ensures
        r == (v@ == zero()),
{
    v.x == 0 && v.y == 0 && v.z == 0
}

impl StlMesh {
    /// The convex hull of four points: the tetrahedron on them, wound so
    /// that its faces look outward. Four points in one plane have no hull.
    pub fn tetrahedron(a: Point3, b: Point3, c: Point3, d: Point3) -> (r: Result<
        StlMesh,
        HullError,
    >)
        ensures
            r is Err <==> orient(a@, b@, c@, d@) == 0,
            r matches Ok(m) ==> {
                &&& m@.vertices == seq![a, b, c, d]
                &&& m@.faces == tetrahedron_faces(orient(a@, b@, c@, d@) > 0)
                &&& m@.signed_volume6() == abs(orient(a@, b@, c@, d@))
            },
    {
        let o = orient3d(&a, &b, &c, &d);
        if o == 0 {
            return Err(HullError::Degenerate);
        }
        let vertices = vec![a, b, c, d];
        let faces = if o > 0 {
            vec![
                Face { a: 1, b: 2, c: 3 },
                Face { a: 0, b: 3, c: 2 },
                Face { a: 0, b: 1, c: 3 },
                Face { a: 0, b: 2, c: 1 },
            ]
        } else {
            vec![
                Face { a: 1, b: 3, c: 2 },
                Face { a: 0, b: 2, c: 3 },
                Face { a: 0, b: 3, c: 1 },
                Face { a: 0, b: 1, c: 2 },
            ]
        };
        proof {
            lemma_solid_distinct(a, b, c, d);
            lemma_tetrahedron_volume(a, b, c, d);
            assert(vertices@ =~= seq![a, b, c, d]);
            assert(faces@ =~= tetrahedron_faces(o > 0));
        }
        match StlMesh::from_parts(vertices, faces) {
            Ok(m) => Ok(m),
            Err(e) => {
                proof {
                    let vs = seq![a, b, c, d];
                    let fs = tetrahedron_faces(o > 0);
                    assert(build_outcome(vs, fs, Err::<StlMesh, MeshError>(e)));
                    assert(fs.len() == 4);
                    assert(vs.len() == 4);
                    assert(false);
                }
                Err(HullError::Degenerate)
            },
        }
    }
}

} // verus!
