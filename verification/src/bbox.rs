//! The axis-aligned bounding box of a set of points.

use vstd::prelude::*;
use vstd::math::{abs, max, min};
use crate::mesh::StlMesh;
use crate::vector::{lemma_product_bound, Point3};

verus! {

/// The coordinate of `p` on an axis: 0 for x, 1 for y, anything else for z.
pub open spec fn coord(p: Point3, axis: int) -> int {
    if axis == 0 {
        p.x as int
    } else if axis == 1 {
        p.y as int
    } else {
        p.z as int
    }
}

/// The least coordinate of `points` on an axis; of no points, the largest
/// number a coordinate can be.
pub open spec fn lowest(points: Seq<Point3>, axis: int) -> int
    decreases points.len(),
{
    if points.len() == 0 {
        i32::MAX as int
    } else {
        min(lowest(points.drop_last(), axis), coord(points.last(), axis))
    }
}

/// The greatest coordinate of `points` on an axis; of no points, the
/// smallest number a coordinate can be.
pub open spec fn highest(points: Seq<Point3>, axis: int) -> int
    decreases points.len(),
{
    if points.len() == 0 {
        i32::MIN as int
    } else {
        max(highest(points.drop_last(), axis), coord(points.last(), axis))
    }
}

/// The least coordinate is a lower bound that one of the points attains.
pub proof fn lemma_lowest_is_minimum(points: Seq<Point3>, axis: int)
    requires
        points.len() > 0,
    ensures
        forall|i: int| 0 <= i < points.len() ==> lowest(points, axis) <= coord(#[trigger] points[i], axis),
        exists|i: int| 0 <= i < points.len() && lowest(points, axis) == coord(#[trigger] points[i], axis),
    decreases points.len(),
{
    let head = points.drop_last();
    let k = points.len() - 1;
    if head.len() > 0 {
        lemma_lowest_is_minimum(head, axis);
        let j = choose|i: int| 0 <= i < head.len() && lowest(head, axis) == coord(#[trigger] head[i], axis);
        assert(points[j] == head[j]);
        assert forall|i: int| 0 <= i < points.len() implies lowest(points, axis) <= coord(
            #[trigger] points[i],
            axis,
        ) by {
            if i < k {
                assert(points[i] == head[i]);
            }
        }
        assert(lowest(points, axis) == coord(points[k], axis) || lowest(points, axis) == coord(
            points[j],
            axis,
        ));
    } else {
        assert(lowest(head, axis) == i32::MAX);
        assert(lowest(points, axis) == coord(points[k], axis));
    }
}

/// The greatest coordinate is an upper bound that one of the points attains.
pub proof fn lemma_highest_is_maximum(points: Seq<Point3>, axis: int)
    requires
        points.len() > 0,
    ensures
        forall|i: int| 0 <= i < points.len() ==> highest(points, axis) >= coord(#[trigger] points[i], axis),
        exists|i: int| 0 <= i < points.len() && highest(points, axis) == coord(#[trigger] points[i], axis),
    decreases points.len(),
{
    let head = points.drop_last();
    let k = points.len() - 1;
    if head.len() > 0 {
        lemma_highest_is_maximum(head, axis);
        let j = choose|i: int| 0 <= i < head.len() && highest(head, axis) == coord(#[trigger] head[i], axis);
        assert(points[j] == head[j]);
        assert forall|i: int| 0 <= i < points.len() implies highest(points, axis) >= coord(
            #[trigger] points[i],
            axis,
        ) by {
            if i < k {
                assert(points[i] == head[i]);
            }
        }
        assert(highest(points, axis) == coord(points[k], axis) || highest(points, axis) == coord(
            points[j],
            axis,
        ));
    } else {
        assert(highest(head, axis) == i32::MIN);
        assert(highest(points, axis) == coord(points[k], axis));
    }
}

/// An axis-aligned box, by its least and greatest coordinate on each axis.
#[derive(Clone, Copy, Debug, PartialEq, Eq, Structural)]
pub struct BoundingBox {
    pub xmin: i32,
    pub xmax: i32,
    pub ymin: i32,
    pub ymax: i32,
    pub zmin: i32,
    pub zmax: i32,
}

/// The box that bounds `points`.
pub open spec fn bounds_of(points: Seq<Point3>) -> BoundingBox {
    BoundingBox {
        xmin: lowest(points, 0) as i32,
        xmax: highest(points, 0) as i32,
        ymin: lowest(points, 1) as i32,
        ymax: highest(points, 1) as i32,
        zmin: lowest(points, 2) as i32,
        zmax: highest(points, 2) as i32,
    }
}

impl BoundingBox {
    /// The product of the box's three edge lengths.
    pub open spec fn spec_volume(self) -> nat {
        abs(self.xmax - self.xmin) * abs(self.ymax - self.ymin) * abs(self.zmax - self.zmin)
    }

    /// The box that bounds nothing: on each axis its least coordinate is the
    /// largest number and its greatest the smallest.
    pub fn empty() -> (b: BoundingBox)
        ensures
            b == bounds_of(Seq::<Point3>::empty()),
    {
        BoundingBox {
            xmin: i32::MAX,
            xmax: i32::MIN,
            ymin: i32::MAX,
            ymax: i32::MIN,
            zmin: i32::MAX,
            zmax: i32::MIN,
        }
    }

    /// The box that bounds `points`, found in one pass over them.
    pub fn from_points(points: &Vec<Point3>) -> (b: BoundingBox)
        ensures
            b == bounds_of(points@),
    {
        let mut b = BoundingBox::empty();
        let mut i: usize = 0;
        while i < points.len()
            invariant
                i <= points@.len(),
                b.xmin == lowest(points@.take(i as int), 0),
                b.xmax == highest(points@.take(i as int), 0),
                b.ymin == lowest(points@.take(i as int), 1),
                b.ymax == highest(points@.take(i as int), 1),
                b.zmin == lowest(points@.take(i as int), 2),
                b.zmax == highest(points@.take(i as int), 2),
            decreases points@.len() - i,
        {
            let p = points[i];
            proof {
                assert(points@.take(i + 1).drop_last() =~= points@.take(i as int));
                assert(points@.take(i + 1).last() == p);
            }
            if p.x < b.xmin {
                b.xmin = p.x;
            }
            if p.x > b.xmax {
                b.xmax = p.x;
            }
            if p.y < b.ymin {
                b.ymin = p.y;
            }
            if p.y > b.ymax {
                b.ymax = p.y;
            }
            if p.z < b.zmin {
                b.zmin = p.z;
            }
            if p.z > b.zmax {
                b.zmax = p.z;
            }
            i += 1;
        }
        assert(points@.take(i as int) =~= points@);
        b
    }

    /// The box that bounds the vertices of `mesh`.
    pub fn from_mesh(mesh: &StlMesh) -> (b: BoundingBox)
        ensures
            b == bounds_of(mesh@.vertices),
    {
        BoundingBox::from_points(mesh.vertices())
    }

    /// The volume of the box.
    pub fn volume(&self) -> (v: u128)
        ensures
            v == self.spec_volume(),
    {
        let dx: i64 = self.xmax as i64 - self.xmin as i64;
        let dy: i64 = self.ymax as i64 - self.ymin as i64;
        let dz: i64 = self.zmax as i64 - self.zmin as i64;
        let ex: u128 = if dx < 0 {
            (-dx) as u128
        } else {
            dx as u128
        };
        let ey: u128 = if dy < 0 {
            (-dy) as u128
        } else {
            dy as u128
        };
        let ez: u128 = if dz < 0 {
            (-dz) as u128
        } else {
            dz as u128
        };
        proof {
            lemma_product_bound(ex as int, ey as int, 0x1_0000_0000, 0x1_0000_0000);
            lemma_product_bound((ex * ey) as int, ez as int, 0x1_0000_0000_0000_0000, 0x1_0000_0000);
        }
        ex * ey * ez
    }
}

} // verus!
