//! The record of everything measured on one mesh.

use vstd::prelude::*;
use vstd::math::abs;
use crate::bbox::{bounds_of, BoundingBox};
use crate::hull::{flat, hull_seed, HullError};
use crate::mesh::StlMesh;
use crate::stats::{summary_of, Statistics};
use crate::thickness::{face_samples, limits_or_widest, OutlierLimits, RayCast};

verus! {

/// What was measured on one mesh. Volumes are in cubes of the unit of length.
#[derive(Debug)]
pub struct VolumeInfo {
    /// Six times the volume that the mesh encloses, without sign.
    pub mesh: u128,
    /// The volume of the bounding box.
    pub bounding_box: u128,
    /// The summary of the thickness samples.
    pub thickness: Statistics,
    /// Six times the volume that the convex hull encloses, without sign.
    pub convex_volume: u128,
}

/// What the record of a mesh holds.
pub open spec fn record_of(
    mesh: &StlMesh,
    hull: &StlMesh,
    casts: Seq<RayCast>,
    outlier_range: Option<OutlierLimits>,
    info: VolumeInfo,
) -> bool {
    &&& info.mesh == abs(mesh@.signed_volume6())
    &&& info.bounding_box == bounds_of(mesh@.vertices).spec_volume()
    &&& info.convex_volume == abs(hull@.signed_volume6())
    &&& summary_of(face_samples(mesh@, casts, limits_or_widest(outlier_range)), info.thickness)
}

impl VolumeInfo {
    /// Measures `mesh`. `hull` is the convex hull of its vertices, and
    /// `casts` holds, for each face in face order, what its two rays hit.
    /// A mesh whose vertices all lie in one plane has no hull, and so no
    /// record.
    pub fn measure(
        mesh: &StlMesh,
        hull: &StlMesh,
        casts: &Vec<RayCast>,
        outlier_range: Option<OutlierLimits>,
    ) -> (r: Result<VolumeInfo, HullError>)
        requires
            casts@.len() == mesh@.faces.len(),
        ensures
            r is Err <==> flat(mesh@.vertices),
            r matches Ok(info) ==> record_of(mesh, hull, casts@, outlier_range, info),
    {
        match hull_seed(mesh.vertices()) {
            Err(e) => Err(e),
            Ok(_) => Ok(
                VolumeInfo {
                    bounding_box: BoundingBox::from_mesh(mesh).volume(),
                    thickness: mesh.calculate_thickness(casts, outlier_range),
                    convex_volume: hull.volume6(),
                    mesh: mesh.volume6(),
                },
            ),
        }
    }
}

} // verus!
