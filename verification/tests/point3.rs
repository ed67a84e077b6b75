use points::Point;
use points::Point3;
use points::Vec3;

#[test]
fn point_test_to_str() {
    assert_eq!(Point3::new(1, 2, 3).to_str(), "[1, 2, 3]");
}

#[test]
fn point3_new_components() {
    let p = Point3::new(7, -3, 42);
    assert_eq!(p.x(), 7);
    assert_eq!(p.y(), -3);
    assert_eq!(p.z(), 42);
}

#[test]
fn point3_translate() {
    let p = Point3::new(1, 2, 3);
    let q = p.translate(&Vec3::new(10, 20, 30));
    assert_eq!(q, Point3::new(11, 22, 33));
    assert_eq!(p, Point3::new(1, 2, 3));
}

#[test]
fn point3_translate_zero_identity() {
    let p = Point3::new(-4, 9, 16);
    let z = Vec3::new(0, 0, 0);
    assert_eq!(p.translate(&z), p);
}

#[test]
fn point3_translate_composition() {
    let p = Point3::new(3, -1, 8);
    let a = Vec3::new(5, 7, -9);
    let b = Vec3::new(-2, 11, 4);
    let ab = a.add_v(&b);
    assert_eq!(p.translate(&a).translate(&b), p.translate(&ab));
}

#[test]
fn point3_distance_exact() {
    // 1^2 + 2^2 + 2^2 = 9
    let p = Point3::new(0, 0, 0);
    let q = Point3::new(1, 2, 2);
    assert_eq!(p.distance(&q), 3);
}

#[test]
fn point3_distance_rounds_down() {
    // sqrt(3) rounds down to 1
    let p = Point3::new(0, 0, 0);
    let q = Point3::new(1, 1, 1);
    assert_eq!(p.distance(&q), 1);
}

#[test]
fn point3_distance_symmetry() {
    let p = Point3::new(-7, 2, 30);
    let q = Point3::new(12, -5, -18);
    assert_eq!(p.distance(&q), q.distance(&p));
}

#[test]
fn point3_distance_identity() {
    let p = Point3::new(123, -456, 789);
    assert_eq!(p.distance(&p), 0);
}

#[test]
fn point3_equality() {
    let p = Point3::new(1, 2, 3);
    assert_eq!(p, p);
    assert_eq!(p, Point3::new(1, 2, 3));
    assert_ne!(p, Point3::new(1, 2, 4));
}
