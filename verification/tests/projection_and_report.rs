use rusty_stl::{BoundingBox, HullError, OutlierLimits, RayCast, StlMesh, VolumeInfo};

fn cube_indices() -> Vec<u32> {
    vec![
        0, 3, 2, 0, 2, 1, 4, 5, 6, 4, 6, 7, 0, 1, 5, 0, 5, 4, 3, 7, 6, 3, 6, 2, 0, 4, 7, 0, 7, 3,
        1, 2, 6, 1, 6, 5,
    ]
}

fn cube(side: i32) -> StlMesh {
    let unit = [
        0, 0, 0, 1, 0, 0, 1, 1, 0, 0, 1, 0, 0, 0, 1, 1, 0, 1, 1, 1, 1, 0, 1, 1,
    ];
    let coords: Vec<i32> = unit.iter().map(|c| c * side).collect();
    StlMesh::new(&coords, &cube_indices()).unwrap()
}

// A sphere of latitude rings: `stacks` bands from pole to pole, `slices` around.
fn sphere(radius: f64, stacks: usize, slices: usize) -> (Vec<i32>, Vec<u32>) {
    let mut coords: Vec<i32> = Vec::new();
    let mut push = |x: f64, y: f64, z: f64| {
        coords.push(x.round() as i32);
        coords.push(y.round() as i32);
        coords.push(z.round() as i32);
    };
    push(0.0, 0.0, radius);
    for i in 1..stacks {
        let theta = std::f64::consts::PI * (i as f64) / (stacks as f64);
        for j in 0..slices {
            let phi = 2.0 * std::f64::consts::PI * (j as f64) / (slices as f64);
            push(
                radius * theta.sin() * phi.cos(),
                radius * theta.sin() * phi.sin(),
                radius * theta.cos(),
            );
        }
    }
    push(0.0, 0.0, -radius);
    let ring = |i: usize, j: usize| (1 + (i - 1) * slices + (j % slices)) as u32;
    let south = (1 + (stacks - 1) * slices) as u32;
    let mut indices: Vec<u32> = Vec::new();
    for j in 0..slices {
        indices.extend_from_slice(&[0, ring(1, j), ring(1, j + 1)]);
    }
    for i in 1..stacks - 1 {
        for j in 0..slices {
            indices.extend_from_slice(&[ring(i, j), ring(i + 1, j), ring(i, j + 1)]);
            indices.extend_from_slice(&[ring(i + 1, j), ring(i + 1, j + 1), ring(i, j + 1)]);
        }
    }
    for j in 0..slices {
        indices.extend_from_slice(&[ring(stacks - 1, j), south, ring(stacks - 1, j + 1)]);
    }
    (coords, indices)
}

// The integer part of a square root, by Newton's steps.
fn root(x: u128) -> u128 {
    if x < 2 {
        return x;
    }
    let mut r = x;
    let mut next = (r + 1) / 2;
    while next < r {
        r = next;
        next = (r + x / r) / 2;
    }
    r
}

#[test]
fn cube_shows_two_faces_to_an_axis() {
    let mesh = cube(1);
    assert_eq!(mesh.facing_area(&[0, 0, 1]), 2);
    assert_eq!(mesh.facing_area(&[0, 0, -1]), 2);
    assert_eq!(mesh.facing_area(&[3, 0, 0]), 2);
    assert_eq!(mesh.facing_area(&[0, -7, 0]), 2);
    assert_eq!(cube(10).facing_area(&[0, 1, 0]), 200);
}

#[test]
fn facing_area_does_not_depend_on_the_length_of_the_normal() {
    let mesh = cube(1);
    assert_eq!(mesh.facing_area(&[0, 0, 5]), mesh.facing_area(&[0, 0, 1]));
    assert_eq!(mesh.facing_area(&[0, 0, i32::MAX]), 2);
    assert_eq!(mesh.facing_area(&[0, 0, i32::MIN]), 2);
    let big = cube(1000);
    let a = big.facing_area(&[1, 2, 3]);
    for k in [2, 10, 1000, 100_000] {
        let b = big.facing_area(&[k, 2 * k, 3 * k]);
        assert!(a.abs_diff(b) <= 1 + a / 65536);
    }
    assert_eq!(big.facing_area(&[3, 4, 0]), big.facing_area(&[300, 400, 0]));
}

#[test]
fn facing_area_of_no_direction_is_zero() {
    assert_eq!(cube(1).facing_area(&[0, 0, 0]), 0);
    assert_eq!(cube(1000).facing_area(&[0, 0, 0]), 0);
}

#[test]
fn cube_shows_all_faces_to_its_diagonal() {
    // twelve triangles, each showing half of 1/sqrt(3): 2 sqrt(3) = 3.46
    assert_eq!(cube(1).facing_area(&[1, 1, 1]), 3);
    assert_eq!(cube(10).facing_area(&[1, 1, 1]), 346);
    // four faces, each showing 100/sqrt(2): 282.8
    assert_eq!(cube(10).facing_area(&[1, -1, 0]), 282);
}

#[test]
fn facing_area_never_exceeds_the_surface_here() {
    let mesh = cube(10);
    for n in [[1, 0, 0], [1, 1, 0], [1, 1, 1], [2, -3, 5], [-7, 1, 1]] {
        assert!(mesh.facing_area(&n) <= 600);
    }
}

#[test]
fn facing_area_of_the_largest_cube() {
    let unit = [
        0, 0, 0, 1, 0, 0, 1, 1, 0, 0, 1, 0, 0, 0, 1, 1, 0, 1, 1, 1, 1, 0, 1, 1,
    ];
    let coords: Vec<i32> = unit.iter().map(|c| if *c == 0 { i32::MIN } else { i32::MAX }).collect();
    let mesh = StlMesh::new(&coords, &cube_indices()).unwrap();
    let side: u128 = (1u128 << 32) - 1;
    let n: u128 = 1u128 << 31;
    let total = 12 * side * side * n;
    let length = root((3 * n * n) << 32);
    assert_eq!(
        mesh.facing_area(&[i32::MIN, i32::MIN, i32::MIN]),
        (total / length) * 32768 + (total % length) * 32768 / length
    );
    assert_eq!(mesh.facing_area(&[i32::MIN, 0, 0]), 2 * side * side);
}

#[test]
fn record_of_the_unit_cube() {
    let mesh = cube(1);
    let hull = cube(1);
    let casts = vec![RayCast { front: None, back: Some(1), area: 1 }; 12];
    let info = VolumeInfo::measure(&mesh, &hull, &casts, None).unwrap();
    assert_eq!(info.mesh, 6);
    assert_eq!(info.bounding_box, 1);
    assert_eq!(info.convex_volume, 6);
    assert_eq!(info.thickness.representative(), 0);
    assert!(info.thickness.thicknesses.is_empty());
}

#[test]
fn record_reports_volumes_without_sign() {
    let unit = [
        0, 0, 0, 1, 0, 0, 1, 1, 0, 0, 1, 0, 0, 0, 1, 1, 0, 1, 1, 1, 1, 0, 1, 1,
    ];
    let mut inward = Vec::new();
    for f in cube_indices().chunks(3) {
        inward.extend_from_slice(&[f[0], f[2], f[1]]);
    }
    let mesh = StlMesh::new(&unit, &inward).unwrap();
    let hull = StlMesh::new(&unit, &inward).unwrap();
    assert_eq!(mesh.mesh_volume(), -6);
    assert_eq!(mesh.volume6(), 6);
    let casts = vec![RayCast { front: None, back: None, area: 1 }; 12];
    let info = VolumeInfo::measure(&mesh, &hull, &casts, None).unwrap();
    assert_eq!(info.mesh, 6);
    assert_eq!(info.convex_volume, 6);
    assert_eq!(info.bounding_box, 1);
}

#[test]
fn flat_mesh_has_no_record() {
    let coords = [0, 0, 0, 1, 0, 0, 1, 1, 0, 0, 1, 0];
    let indices = [0, 1, 2, 0, 2, 3];
    let mesh = StlMesh::new(&coords, &indices).unwrap();
    let hull = StlMesh::new(&coords, &indices).unwrap();
    let casts = vec![RayCast { front: Some(1), back: Some(1), area: 1 }; 2];
    let r = VolumeInfo::measure(&mesh, &hull, &casts, None);
    assert_eq!(r.err(), Some(HullError::Degenerate));
}

#[test]
fn record_keeps_the_band_it_was_given() {
    let mesh = cube(100);
    let hull = cube(100);
    let mut casts = Vec::new();
    for i in 0..12u32 {
        casts.push(RayCast { front: Some(0), back: Some(90 + i), area: 5000 });
    }
    let band = OutlierLimits { min: 92, max: 99 };
    let info = VolumeInfo::measure(&mesh, &hull, &casts, Some(band)).unwrap();
    assert_eq!(info.mesh, 6_000_000);
    assert_eq!(info.bounding_box, 1_000_000);
    assert_eq!(info.convex_volume, 6_000_000);
    assert_eq!(info.thickness.thicknesses, vec![93, 94, 95, 96, 97, 98]);
    assert_eq!(info.thickness.median, 96);
    assert_eq!(info.thickness.avg, 95);
    assert_eq!(info.thickness.std_dev, 1);
}

// A sphere of radius 1000 as a shell of 64 by 128 facets. The facets lie
// inside the sphere, so the volume comes out a little under that of the ball.
// The rays are taken to start a little off their face: in front of a face of
// a convex shell they find nothing, so the shell has no thickness samples.
#[test]
fn sphere_from_end_to_end() {
    let radius = 1000.0f64;
    let (coords, indices) = sphere(radius, 64, 128);
    let mesh = StlMesh::new(&coords, &indices).unwrap();
    let ball = 4.0 / 3.0 * std::f64::consts::PI * radius * radius * radius;
    let volume = mesh.mesh_volume() as f64 / 6.0;
    assert!(volume > 0.0);
    assert!((volume - ball).abs() / ball < 0.005);
    let bbox = BoundingBox::from_mesh(&mesh);
    assert_eq!(bbox.volume(), 2000 * 2000 * 2000);
    let mut casts = Vec::new();
    for t in mesh.triangles() {
        assert!(!t.is_degenerate());
        casts.push(RayCast { front: None, back: Some(1990), area: 1 });
    }
    let stats = mesh.calculate_thickness(&casts, None);
    assert!(stats.thicknesses.is_empty());
    assert_eq!(stats.representative(), 0);
}

#[test]
fn sphere_with_reversed_faces_has_the_opposite_volume() {
    let (coords, indices) = sphere(500.0, 16, 32);
    let mut flipped = Vec::new();
    for f in indices.chunks(3) {
        flipped.extend_from_slice(&[f[0], f[2], f[1]]);
    }
    let outward = StlMesh::new(&coords, &indices).unwrap();
    let inward = StlMesh::new(&coords, &flipped).unwrap();
    assert!(outward.mesh_volume() > 0);
    assert_eq!(inward.mesh_volume(), -outward.mesh_volume());
}
