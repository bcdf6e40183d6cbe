//! Exact metrics of triangulated surface meshes on the integer lattice.
//!
//! Vertices have 32-bit integer coordinates, so every quantity this crate
//! reports is an integer computed from integers: six times the enclosed
//! volume, the axis-aligned bounding box, the decision whether a
//! point cloud spans a solid, and the summary of wall-thickness samples.
//! A caller that starts from real-valued geometry picks a unit of length,
//! rounds coordinates to it and scales the results back.

pub mod bbox;
pub mod hull;
pub mod mesh;
pub mod projection;
pub mod report;
pub mod stats;
pub mod thickness;
pub mod vector;
pub mod volume;

pub use bbox::BoundingBox;
pub use hull::{hull_seed, HullError, Simplex};
pub use mesh::{Face, IndexedMesh, IndexedTriangle, MeshError, StlMesh, Triangle, MAX_FACES};
pub use report::VolumeInfo;
pub use stats::{average, isqrt, isqrt_wide, mad, median, std_dev, Statistics, ThicknessSample};
pub use thickness::{collect_samples, thickness_sample, OutlierLimits, RayCast};
pub use vector::{orient3d, triangle_normal, vector_cross, vector_dot, vol_triangle_sgn};
pub use vector::{Point3, Vector3};
