use rusty_stl::{
    collect_samples, thickness_sample, OutlierLimits, Point3, RayCast, StlMesh, ThicknessSample,
    Triangle, Vector3,
};

fn cast(front: Option<u32>, back: Option<u32>, area: u32) -> RayCast {
    RayCast { front, back, area }
}

fn box_mesh(dx: i32, dy: i32, dz: i32) -> StlMesh {
    let unit = [
        0, 0, 0, 1, 0, 0, 1, 1, 0, 0, 1, 0, 0, 0, 1, 1, 0, 1, 1, 1, 1, 0, 1, 1,
    ];
    let mut coords = Vec::new();
    for v in unit.chunks(3) {
        coords.push(v[0] * dx);
        coords.push(v[1] * dy);
        coords.push(v[2] * dz);
    }
    let indices = [
        0, 3, 2, 0, 2, 1, 4, 5, 6, 4, 6, 7, 0, 1, 5, 0, 5, 4, 3, 7, 6, 3, 6, 2, 0, 4, 7, 0, 7, 3,
        1, 2, 6, 1, 6, 5,
    ];
    StlMesh::new(&coords, &indices).unwrap()
}

#[test]
fn sample_is_the_greater_of_the_two_distances() {
    let limits = OutlierLimits { min: 0, max: 1000 };
    assert_eq!(
        thickness_sample(&cast(Some(3), Some(8), 5), &limits),
        Some(ThicknessSample { thickness: 8, area: 5 })
    );
    assert_eq!(
        thickness_sample(&cast(Some(8), Some(3), 5), &limits),
        Some(ThicknessSample { thickness: 8, area: 5 })
    );
    assert_eq!(
        thickness_sample(&cast(Some(4), Some(4), 0), &limits),
        Some(ThicknessSample { thickness: 4, area: 0 })
    );
}

#[test]
fn a_ray_that_misses_gives_no_sample() {
    let limits = OutlierLimits { min: 0, max: 1000 };
    assert_eq!(thickness_sample(&cast(None, Some(8), 5), &limits), None);
    assert_eq!(thickness_sample(&cast(Some(8), None, 5), &limits), None);
    assert_eq!(thickness_sample(&cast(None, None, 5), &limits), None);
}

#[test]
fn both_ends_of_the_band_are_excluded() {
    let limits = OutlierLimits { min: 5, max: 10 };
    assert_eq!(thickness_sample(&cast(Some(1), Some(5), 1), &limits), None);
    assert_eq!(thickness_sample(&cast(Some(1), Some(10), 1), &limits), None);
    assert_eq!(thickness_sample(&cast(Some(1), Some(4), 1), &limits), None);
    assert_eq!(thickness_sample(&cast(Some(1), Some(11), 1), &limits), None);
    assert!(thickness_sample(&cast(Some(1), Some(6), 1), &limits).is_some());
    assert!(thickness_sample(&cast(Some(1), Some(9), 1), &limits).is_some());
}

#[test]
fn an_empty_band_keeps_nothing() {
    let limits = OutlierLimits { min: 10, max: 10 };
    assert_eq!(thickness_sample(&cast(Some(10), Some(10), 1), &limits), None);
    let crossed = OutlierLimits { min: 10, max: 5 };
    assert_eq!(thickness_sample(&cast(Some(7), Some(7), 1), &crossed), None);
}

#[test]
fn the_widest_band_excludes_zero_and_the_largest_number() {
    let widest = OutlierLimits::widest();
    assert_eq!(widest, OutlierLimits { min: 0, max: u32::MAX });
    assert_eq!(thickness_sample(&cast(Some(0), Some(0), 1), &widest), None);
    assert_eq!(thickness_sample(&cast(Some(0), Some(u32::MAX), 1), &widest), None);
    assert!(thickness_sample(&cast(Some(0), Some(1), 1), &widest).is_some());
    assert!(thickness_sample(&cast(Some(0), Some(u32::MAX - 1), 1), &widest).is_some());
}

#[test]
fn samples_keep_the_order_of_the_faces() {
    let limits = OutlierLimits { min: 0, max: 100 };
    let casts = vec![
        cast(Some(1), Some(30), 3),
        cast(None, Some(5), 4),
        cast(Some(200), Some(2), 5),
        cast(Some(10), Some(7), 6),
    ];
    let samples = collect_samples(&casts, &limits);
    assert_eq!(
        samples,
        vec![
            ThicknessSample { thickness: 30, area: 3 },
            ThicknessSample { thickness: 10, area: 6 },
        ]
    );
    assert!(collect_samples(&Vec::new(), &limits).is_empty());
}

// A slab of thickness 2000 between two large parallel walls, as a thin box.
// The caster here counts the touch of a ray with the face it starts from as a
// hit at distance zero, so each face has a hit on both sides: zero in front,
// and behind it the distance through the material to the opposite wall.
#[test]
fn thin_box_reports_the_thickness_of_the_slab() {
    let mesh = box_mesh(60_000, 60_000, 2_000);
    let wall = 1_800_000_000;
    let rim = 60_000_000;
    let mut casts = Vec::new();
    for i in 0..12 {
        if i < 4 {
            casts.push(cast(Some(0), Some(2_000), wall));
        } else {
            casts.push(cast(Some(0), Some(60_000), rim));
        }
    }
    let band = OutlierLimits { min: 500, max: 4_000 };
    let stats = mesh.calculate_thickness(&casts, Some(band));
    assert_eq!(stats.thicknesses, vec![2_000, 2_000, 2_000, 2_000]);
    assert_eq!(stats.representative(), 2_000);
    assert_eq!(stats.median, 2_000);
    assert_eq!(stats.avg, 2_000);
    assert_eq!(stats.std_dev, 0);
}

#[test]
fn without_a_band_the_rim_counts_too() {
    let mesh = box_mesh(60_000, 60_000, 2_000);
    let mut casts = Vec::new();
    for i in 0..12 {
        if i < 4 {
            casts.push(cast(Some(0), Some(2_000), 1_800_000_000));
        } else {
            casts.push(cast(Some(0), Some(60_000), 60_000_000));
        }
    }
    let stats = mesh.calculate_thickness(&casts, None);
    assert_eq!(stats.thicknesses.len(), 12);
    assert_eq!(stats.median, 60_000);
    let weighted: u128 = 4 * 2_000 * 1_800_000_000 + 8 * 60_000 * 60_000_000;
    let area: u128 = 4 * 1_800_000_000 + 8 * 60_000_000;
    assert_eq!(stats.avg as u128, weighted / area);
    let mean: i64 = (4 * 2_000 + 8 * 60_000) / 12;
    let spread = (4 * (2_000 - mean) * (2_000 - mean) + 8 * (60_000 - mean) * (60_000 - mean)) / 12;
    let root = (spread as f64).sqrt().floor() as u32;
    assert_eq!(stats.std_dev, root);
}

// A caster that starts its rays a little off the face finds nothing in front
// of any face of a convex shell, so no face gives a sample.
#[test]
fn convex_shell_without_self_hits_has_no_thickness() {
    let mesh = box_mesh(10, 10, 10);
    let mut casts = Vec::new();
    for _ in 0..12 {
        casts.push(cast(None, Some(10), 50));
    }
    let stats = mesh.calculate_thickness(&casts, None);
    assert!(stats.thicknesses.is_empty());
    assert_eq!(stats.representative(), 0);
    assert_eq!(stats.avg, 0);
    assert_eq!(stats.std_dev, 0);
}

#[test]
fn normal_and_centroid_of_a_face() {
    let t = Triangle {
        a: Point3::new(0, 0, 0),
        b: Point3::new(4, 0, 0),
        c: Point3::new(0, 2, 0),
    };
    assert_eq!(t.normal(), Vector3 { x: 0, y: 0, z: 8 });
    assert_eq!(t.centroid3(), Vector3 { x: 4, y: 2, z: 0 });
    assert!(!t.is_degenerate());
    let top = Point3::new(i32::MAX, i32::MAX, i32::MAX);
    let all = Triangle { a: top, b: top, c: top };
    let m = 3 * (i32::MAX as i128);
    assert_eq!(all.centroid3(), Vector3 { x: m, y: m, z: m });
}

#[test]
fn a_face_on_one_line_is_degenerate() {
    let t = Triangle {
        a: Point3::new(1, 1, 1),
        b: Point3::new(2, 3, 4),
        c: Point3::new(3, 5, 7),
    };
    assert!(t.is_degenerate());
    assert_eq!(t.normal(), Vector3 { x: 0, y: 0, z: 0 });
    let p = Point3::new(1, 1, 1);
    assert!(Triangle { a: p, b: p, c: Point3::new(0, 0, 0) }.is_degenerate());
}

#[test]
fn a_face_without_a_normal_gives_no_sample() {
    let coords = [0, 0, 0, 4, 0, 0, 0, 4, 0, 1, 1, 1, 2, 2, 2, 3, 3, 3];
    let mesh = StlMesh::new(&coords, &[0, 1, 2, 3, 4, 5, 0, 2, 1]).unwrap();
    assert!(mesh.triangle(1).unwrap().is_degenerate());
    let casts = vec![
        cast(Some(3), Some(7), 8),
        cast(Some(5), Some(9), 1),
        cast(Some(2), Some(4), 8),
    ];
    let stats = mesh.calculate_thickness(&casts, None);
    assert_eq!(stats.thicknesses, vec![4, 7]);
    assert_eq!(stats.median, 7);
    assert_eq!(stats.avg, 5);
    let only = StlMesh::new(&coords, &[3, 4, 5]).unwrap();
    let none = only.calculate_thickness(&vec![cast(Some(5), Some(9), 1)], None);
    assert!(none.thicknesses.is_empty());
    assert_eq!(none.representative(), 0);
}
