//! Lattice points, the vectors between them, and the products of vector algebra.

use vstd::prelude::*;

verus! {

/// A vector of three mathematical integers: the model in which contracts are stated.
pub struct V3 {
    pub x: int,
    pub y: int,
    pub z: int,
}

/// A point of the integer lattice.
#[derive(Clone, Copy, Debug, PartialEq, Eq, Structural)]
pub struct Point3 {
    pub x: i32,
    pub y: i32,
    pub z: i32,
}

/// A vector with wide components, as products of lattice points need them.
#[derive(Clone, Copy, Debug, PartialEq, Eq, Structural)]
pub struct Vector3 {
    pub x: i128,
    pub y: i128,
    pub z: i128,
}

impl View for Point3 {
    type V = V3;

    open spec fn view(&self) -> V3 {
        V3 { x: self.x as int, y: self.y as int, z: self.z as int }
    }
}

impl View for Vector3 {
    type V = V3;

    open spec fn view(&self) -> V3 {
        V3 { x: self.x as int, y: self.y as int, z: self.z as int }
    }
}

/// The scalar product.
pub open spec fn dot(a: V3, b: V3) -> int {
    a.x * b.x + a.y * b.y + a.z * b.z
}

/// The vector product.
pub open spec fn cross(a: V3, b: V3) -> V3 {
    V3 { x: a.y * b.z - a.z * b.y, y: a.z * b.x - a.x * b.z, z: a.x * b.y - a.y * b.x }
}

/// The vector that leads from `b` to `a`.
pub open spec fn diff(a: V3, b: V3) -> V3 {
    V3 { x: a.x - b.x, y: a.y - b.y, z: a.z - b.z }
}

/// The scalar triple product: the determinant with rows `a`, `b`, `c`.
pub open spec fn triple(a: V3, b: V3, c: V3) -> int {
    dot(a, cross(b, c))
}

/// Six times the signed volume of the tetrahedron `a b c d`. It is zero
/// exactly when the four points lie in one plane.
pub open spec fn orient(a: V3, b: V3, c: V3, d: V3) -> int {
    triple(diff(b, a), diff(c, a), diff(d, a))
}

/// No component of `v` exceeds `m` in magnitude.
pub open spec fn within(v: V3, m: int) -> bool {
    &&& -m <= v.x <= m
    &&& -m <= v.y <= m
    &&& -m <= v.z <= m
}

/// A product is bounded by the product of the bounds of its factors.
pub proof fn lemma_product_bound(x: int, y: int, bx: int, by: int)
    by (nonlinear_arith)
    requires
        -bx <= x <= bx,
        -by <= y <= by,
    ensures
        -(bx * by) <= x * y <= bx * by,
{
}

/// The components of a vector product of bounded vectors are bounded.
pub proof fn lemma_cross_bound(a: V3, b: V3, ma: int, mb: int)
    requires
        within(a, ma),
        within(b, mb),
    ensures
        within(cross(a, b), 2 * (ma * mb)),
{
    lemma_product_bound(a.y, b.z, ma, mb);
    lemma_product_bound(a.z, b.y, ma, mb);
    lemma_product_bound(a.z, b.x, ma, mb);
    lemma_product_bound(a.x, b.z, ma, mb);
    lemma_product_bound(a.x, b.y, ma, mb);
    lemma_product_bound(a.y, b.x, ma, mb);
}

/// The scalar product of bounded vectors is bounded.
pub proof fn lemma_dot_bound(a: V3, b: V3, ma: int, mb: int)
    requires
        within(a, ma),
        within(b, mb),
    ensures
        -(3 * (ma * mb)) <= dot(a, b) <= 3 * (ma * mb),
{
    lemma_product_bound(a.x, b.x, ma, mb);
    lemma_product_bound(a.y, b.y, ma, mb);
    lemma_product_bound(a.z, b.z, ma, mb);
}

impl Point3 {
    pub fn new(x: i32, y: i32, z: i32) -> (p: Point3)
        ensures
            p.x == x,
            p.y == y,
            p.z == z,
    {
        Point3 { x, y, z }
    }
}

/// The scalar product of two lattice points.
pub fn vector_dot(a: &Point3, b: &Point3) -> (r: i128)
    ensures
        r == dot(a@, b@),
{
    proof {
        lemma_product_bound(a.x as int, b.x as int, 0x8000_0000, 0x8000_0000);
        lemma_product_bound(a.y as int, b.y as int, 0x8000_0000, 0x8000_0000);
        lemma_product_bound(a.z as int, b.z as int, 0x8000_0000, 0x8000_0000);
    }
    let xx: i128 = (a.x as i128) * (b.x as i128);
    let yy: i128 = (a.y as i128) * (b.y as i128);
    let zz: i128 = (a.z as i128) * (b.z as i128);
    xx + yy + zz
}

/// The vector product of two lattice points.
pub fn vector_cross(a: &Point3, b: &Point3) -> (r: Vector3)
    ensures
        r@ == cross(a@, b@),
{
    proof {
        lemma_product_bound(a.y as int, b.z as int, 0x8000_0000, 0x8000_0000);
        lemma_product_bound(a.z as int, b.y as int, 0x8000_0000, 0x8000_0000);
        lemma_product_bound(a.z as int, b.x as int, 0x8000_0000, 0x8000_0000);
        lemma_product_bound(a.x as int, b.z as int, 0x8000_0000, 0x8000_0000);
        lemma_product_bound(a.x as int, b.y as int, 0x8000_0000, 0x8000_0000);
        lemma_product_bound(a.y as int, b.x as int, 0x8000_0000, 0x8000_0000);
    }
    let ax: i128 = a.x as i128;
    let ay: i128 = a.y as i128;
    let az: i128 = a.z as i128;
    let bx: i128 = b.x as i128;
    let by: i128 = b.y as i128;
    let bz: i128 = b.z as i128;
    Vector3 { x: ay * bz - az * by, y: az * bx - ax * bz, z: ax * by - ay * bx }
}

/// Six times the signed volume of the tetrahedron that the triangle
/// `p1 p2 p3` spans with the origin.
pub fn vol_triangle_sgn(p1: &Point3, p2: &Point3, p3: &Point3) -> (r: i128)
    ensures
        r == triple(p1@, p2@, p3@),
        -0xC000_0000_0000_0000_0000_0000 <= r <= 0xC000_0000_0000_0000_0000_0000,
{
    let c = vector_cross(p2, p3);
    proof {
        lemma_cross_bound(p2@, p3@, 0x8000_0000, 0x8000_0000);
        lemma_dot_bound(p1@, c@, 0x8000_0000, 0x8000_0000_0000_0000);
        lemma_product_bound(p1.x as int, c.x as int, 0x8000_0000, 0x8000_0000_0000_0000);
        lemma_product_bound(p1.y as int, c.y as int, 0x8000_0000, 0x8000_0000_0000_0000);
        lemma_product_bound(p1.z as int, c.z as int, 0x8000_0000, 0x8000_0000_0000_0000);
    }
    let xx: i128 = (p1.x as i128) * c.x;
    let yy: i128 = (p1.y as i128) * c.y;
    let zz: i128 = (p1.z as i128) * c.z;
    xx + yy + zz
}

/// The vector product of the edges `a b` and `a c`: a normal of the
/// triangle's plane whose length is twice the triangle's area.
pub fn triangle_normal(a: &Point3, b: &Point3, c: &Point3) -> (n: Vector3)
    ensures
        n@ == cross(diff(b@, a@), diff(c@, a@)),
        within(n@, 0x2_0000_0000_0000_0000),
{
    let ux: i128 = (b.x as i128) - (a.x as i128);
    let uy: i128 = (b.y as i128) - (a.y as i128);
    let uz: i128 = (b.z as i128) - (a.z as i128);
    let vx: i128 = (c.x as i128) - (a.x as i128);
    let vy: i128 = (c.y as i128) - (a.y as i128);
    let vz: i128 = (c.z as i128) - (a.z as i128);
    proof {
        lemma_cross_bound(diff(b@, a@), diff(c@, a@), 0x1_0000_0000, 0x1_0000_0000);
        lemma_product_bound(uy as int, vz as int, 0x1_0000_0000, 0x1_0000_0000);
        lemma_product_bound(uz as int, vy as int, 0x1_0000_0000, 0x1_0000_0000);
        lemma_product_bound(uz as int, vx as int, 0x1_0000_0000, 0x1_0000_0000);
        lemma_product_bound(ux as int, vz as int, 0x1_0000_0000, 0x1_0000_0000);
        lemma_product_bound(ux as int, vy as int, 0x1_0000_0000, 0x1_0000_0000);
        lemma_product_bound(uy as int, vx as int, 0x1_0000_0000, 0x1_0000_0000);
    }
    Vector3 { x: uy * vz - uz * vy, y: uz * vx - ux * vz, z: ux * vy - uy * vx }
}

/// Six times the signed volume of the tetrahedron `a b c d`.
pub fn orient3d(a: &Point3, b: &Point3, c: &Point3, d: &Point3) -> (r: i128)
    ensures
        r == orient(a@, b@, c@, d@),
{
    let n = triangle_normal(a, c, d);
    let ux: i128 = (b.x as i128) - (a.x as i128);
    let uy: i128 = (b.y as i128) - (a.y as i128);
    let uz: i128 = (b.z as i128) - (a.z as i128);
    proof {
        lemma_product_bound(ux as int, n.x as int, 0x1_0000_0000, 0x2_0000_0000_0000_0000);
        lemma_product_bound(uy as int, n.y as int, 0x1_0000_0000, 0x2_0000_0000_0000_0000);
        lemma_product_bound(uz as int, n.z as int, 0x1_0000_0000, 0x2_0000_0000_0000_0000);
    }
    ux * n.x + uy * n.y + uz * n.z
}

} // verus!
