//! Wall thickness from pairs of opposed rays.
//!
//! From the centroid of each face two rays leave along the face's normal,
//! one forward and one backward. Casting them against the surface is the
//! caller's work; this module starts from what each ray hit. Where both rays
//! hit, the greater of the two distances is the face's thickness sample; a
//! face with a ray that hit nothing gives none. Samples outside a band of
//! plausible values are dropped, and what remains is summarised.

use vstd::prelude::*;
use crate::mesh::{Mesh, StlMesh, Triangle};
use crate::stats::{summary_of, Statistics, ThicknessSample};
use crate::vector::{cross, diff, dot, triangle_normal, Vector3, V3};
use crate::volume::lemma_triple_repeated;

verus! {

/// The band of plausible thicknesses: both ends are excluded.
#[derive(Clone, Copy, Debug, PartialEq, Eq, Structural)]
pub struct OutlierLimits {
    pub min: u32,
    pub max: u32,
}

/// What the two rays of one face hit: the distance to the nearest surface
/// along the normal and against it, where there is one, and the face's area.
#[derive(Clone, Copy, Debug, PartialEq, Eq, Structural)]
pub struct RayCast {
    pub front: Option<u32>,
    pub back: Option<u32>,
    pub area: u32,
}

/// The band used when none is given: every thickness but zero and the
/// largest number.
pub open spec fn widest_limits() -> OutlierLimits {
    OutlierLimits { min: 0, max: u32::MAX }
}

/// The band that a request stands for.
pub open spec fn limits_or_widest(outlier_range: Option<OutlierLimits>) -> OutlierLimits {
    match outlier_range {
        Some(r) => r,
        None => widest_limits(),
    }
}

/// The sample that one face gives, if any.
pub open spec fn sample_of(cast: RayCast, limits: OutlierLimits) -> Option<ThicknessSample> {
    match (cast.front, cast.back) {
        (Some(da), Some(db)) => {
            let thickness = if da > db {
                da
            } else {
                db
            };
            if limits.min < thickness && thickness < limits.max {
                Some(ThicknessSample { thickness, area: cast.area })
            } else {
                None
            }
        },
        _ => None,
    }
}

/// The samples that `casts` give, in the order of the faces.
pub open spec fn retained(casts: Seq<RayCast>, limits: OutlierLimits) -> Seq<ThicknessSample>
    decreases casts.len(),
{
    if casts.len() == 0 {
        Seq::empty()
    } else {
        let head = retained(casts.drop_last(), limits);
        match sample_of(casts.last(), limits) {
            Some(s) => head.push(s),
            None => head,
        }
    }
}

/// The samples that the faces of `mesh` give, in the order of the faces,
/// when `casts` holds what the rays of the first faces hit. A face whose
/// corners lie on one line has no normal and gives no sample, whatever its
/// record says.
pub open spec fn face_samples(mesh: Mesh, casts: Seq<RayCast>, limits: OutlierLimits) -> Seq<
    ThicknessSample,
>
    decreases casts.len(),
{
    if casts.len() == 0 {
        Seq::empty()
    } else {
        let head = face_samples(mesh, casts.drop_last(), limits);
        if mesh.triangle(casts.len() - 1).spec_degenerate() {
            head
        } else {
            match sample_of(casts.last(), limits) {
                Some(s) => head.push(s),
                None => head,
            }
        }
    }
}

impl Triangle {
    /// Three times the centroid.
    pub open spec fn spec_centroid3(self) -> V3 {
        V3 {
            x: self.a.x + self.b.x + self.c.x,
            y: self.a.y + self.b.y + self.c.y,
            z: self.a.z + self.b.z + self.c.z,
        }
    }

    /// The normal whose length is twice the triangle's area.
    pub open spec fn spec_normal(self) -> V3 {
        cross(diff(self.b@, self.a@), diff(self.c@, self.a@))
    }

    /// The corners lie on one line, so the triangle has no area and no normal.
    pub open spec fn spec_degenerate(self) -> bool {
        self.spec_normal() == (V3 { x: 0, y: 0, z: 0 })
    }

    /// Three times the centroid, from which the rays of this face start.
    pub fn centroid3(&self) -> (c: Vector3)
        ensures
            c@ == self.spec_centroid3(),
    {
        Vector3 {
            x: self.a.x as i128 + self.b.x as i128 + self.c.x as i128,
            y: self.a.y as i128 + self.b.y as i128 + self.c.y as i128,
            z: self.a.z as i128 + self.b.z as i128 + self.c.z as i128,
        }
    }

    /// The normal along which the rays of this face leave. Its length is
    /// twice the triangle's area; it points to the side from which the
    /// corners are seen counter-clockwise.
    pub fn normal(&self) -> (n: Vector3)
        ensures
            n@ == self.spec_normal(),
    {
        triangle_normal(&self.a, &self.b, &self.c)
    }

    /// Whether the triangle has no normal. Such a face casts no rays.
    pub fn is_degenerate(&self) -> (r: bool)
        ensures
            r == self.spec_degenerate(),
    {
        let n = self.normal();
        n.x == 0 && n.y == 0 && n.z == 0
    }
}

/// The normal of a triangle is perpendicular to its edges.
pub proof fn lemma_normal_perpendicular(t: Triangle)
    ensures
        dot(diff(t.b@, t.a@), t.spec_normal()) == 0,
        dot(diff(t.c@, t.a@), t.spec_normal()) == 0,
{
    lemma_triple_repeated(diff(t.b@, t.a@), diff(t.c@, t.a@));
    lemma_triple_repeated(diff(t.c@, t.a@), diff(t.b@, t.a@));
}

impl OutlierLimits {
    /// The band used when none is given.
    pub fn widest() -> (r: OutlierLimits)
        ensures
            r == widest_limits(),
    {
        OutlierLimits { min: 0, max: u32::MAX }
    }
}

/// The sample that one face gives: the greater of the two distances when both
/// rays hit and that distance lies strictly inside the band.
pub fn thickness_sample(cast: &RayCast, limits: &OutlierLimits) -> (s: Option<ThicknessSample>)
    ensures
        s == sample_of(*cast, *limits),
{
    match (cast.front, cast.back) {
        (Some(da), Some(db)) => {
            let thickness = if da > db {
                da
            } else {
                db
            };
            if thickness > limits.min && thickness < limits.max {
                Some(ThicknessSample { thickness, area: cast.area })
            } else {
                None
            }
        },
        _ => None,
    }
}

/// The samples that `casts` give, in the order of the faces.
pub fn collect_samples(casts: &Vec<RayCast>, limits: &OutlierLimits) -> (samples: Vec<
    ThicknessSample,
>)
    ensures
        samples@ == retained(casts@, *limits),
{
    let mut samples: Vec<ThicknessSample> = Vec::new();
    let mut i: usize = 0;
    while i < casts.len()
        invariant
            i <= casts@.len(),
            samples@ == retained(casts@.take(i as int), *limits),
        decreases casts@.len() - i,
    {
        proof {
            assert(casts@.take(i + 1).drop_last() =~= casts@.take(i as int));
        }
        match thickness_sample(&casts[i], limits) {
            Some(s) => {
                samples.push(s);
            },
            None => {},
        }
        i += 1;
    }
    assert(casts@.take(i as int) =~= casts@);
    samples
}

impl StlMesh {
    /// Summarises the wall thickness of the mesh. `casts` holds, for each
    /// face in face order, what its two rays hit. A face whose corners lie
    /// on one line is passed over. Without a band, every thickness but zero
    /// and the largest number counts.
    pub fn calculate_thickness(
        &self,
        casts: &Vec<RayCast>,
        outlier_range: Option<OutlierLimits>,
    ) -> (stats: Statistics)
        requires
            casts@.len() == self@.faces.len(),
        ensures
            summary_of(face_samples(self@, casts@, limits_or_widest(outlier_range)), stats),
    {
        let bounds = match outlier_range {
            Some(r) => r,
            None => OutlierLimits::widest(),
        };
        let mut samples: Vec<ThicknessSample> = Vec::new();
        let mut i: usize = 0;
        while i < casts.len()
            invariant
                i <= casts@.len(),
                casts@.len() == self@.faces.len(),
                samples@ == face_samples(self@, casts@.take(i as int), bounds),
            decreases casts@.len() - i,
        {
            proof {
                assert(casts@.take(i + 1).drop_last() =~= casts@.take(i as int));
            }
            match self.triangle(i) {
                Some(t) => {
                    if !t.is_degenerate() {
                        match thickness_sample(&casts[i], &bounds) {
                            Some(s) => {
                                samples.push(s);
                            },
                            None => {},
                        }
                    }
                },
                None => {},
            }
            i += 1;
        }
        assert(casts@.take(i as int) =~= casts@);
        Statistics::from_samples(&samples)
    }
}

} // verus!
