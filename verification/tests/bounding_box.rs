use rusty_stl::{BoundingBox, Point3, StlMesh};

fn cube() -> StlMesh {
    let coords = [
        0, 0, 0, 1, 0, 0, 1, 1, 0, 0, 1, 0, 0, 0, 1, 1, 0, 1, 1, 1, 1, 0, 1, 1,
    ];
    let indices = [
        0, 3, 2, 0, 2, 1, 4, 5, 6, 4, 6, 7, 0, 1, 5, 0, 5, 4, 3, 7, 6, 3, 6, 2, 0, 4, 7, 0, 7, 3,
        1, 2, 6, 1, 6, 5,
    ];
    StlMesh::new(&coords, &indices).unwrap()
}

#[test]
fn box_of_the_unit_cube() {
    let b = BoundingBox::from_mesh(&cube());
    assert_eq!(
        b,
        BoundingBox { xmin: 0, xmax: 1, ymin: 0, ymax: 1, zmin: 0, zmax: 1 }
    );
    assert_eq!((b.xmax - b.xmin, b.ymax - b.ymin, b.zmax - b.zmin), (1, 1, 1));
    assert_eq!(b.volume(), 1);
}

#[test]
fn box_of_one_point_has_no_volume() {
    let b = BoundingBox::from_points(&vec![Point3::new(3, -4, 5)]);
    assert_eq!(
        b,
        BoundingBox { xmin: 3, xmax: 3, ymin: -4, ymax: -4, zmin: 5, zmax: 5 }
    );
    assert_eq!(b.volume(), 0);
}

#[test]
fn box_of_coincident_points_has_no_volume() {
    let p = Point3::new(-9, 9, 0);
    let b = BoundingBox::from_points(&vec![p, p, p]);
    assert_eq!(b.volume(), 0);
}

#[test]
fn box_of_scattered_points() {
    let points = vec![
        Point3::new(5, -1, 7),
        Point3::new(-2, 8, 7),
        Point3::new(0, 0, -3),
        Point3::new(4, 4, 12),
    ];
    let b = BoundingBox::from_points(&points);
    assert_eq!(
        b,
        BoundingBox { xmin: -2, xmax: 5, ymin: -1, ymax: 8, zmin: -3, zmax: 12 }
    );
    assert_eq!(b.volume(), 7 * 9 * 15);
}

#[test]
fn box_of_flat_points_has_no_volume() {
    let points = vec![Point3::new(0, 0, 2), Point3::new(10, 0, 2), Point3::new(0, 10, 2)];
    assert_eq!(BoundingBox::from_points(&points).volume(), 0);
}

#[test]
fn box_of_nothing_is_the_starting_value() {
    let b = BoundingBox::from_points(&Vec::new());
    assert_eq!(b, BoundingBox::empty());
    assert_eq!(b.xmin, i32::MAX);
    assert_eq!(b.xmax, i32::MIN);
    assert_eq!(b.zmin, i32::MAX);
    assert_eq!(b.zmax, i32::MIN);
}

#[test]
fn volume_of_the_largest_box() {
    let b = BoundingBox {
        xmin: i32::MIN,
        xmax: i32::MAX,
        ymin: i32::MIN,
        ymax: i32::MAX,
        zmin: i32::MIN,
        zmax: i32::MAX,
    };
    let side: u128 = (1u128 << 32) - 1;
    assert_eq!(b.volume(), side * side * side);
}

#[test]
fn volume_takes_edge_lengths_without_sign() {
    let b = BoundingBox { xmin: 4, xmax: 1, ymin: 0, ymax: 2, zmin: 0, zmax: 5 };
    assert_eq!(b.volume(), 30);
}
