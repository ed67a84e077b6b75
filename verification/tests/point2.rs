use points::Point;
use points::Point2;
use points::Vec2;

#[test]
fn test_to_str() {
    assert_eq!(Point2::new(1, 2).to_str(), "[1, 2]");
}

#[test]
fn point2_new_components() {
    let p = Point2::new(7, -3);
    assert_eq!(p.x(), 7);
    assert_eq!(p.y(), -3);
}

#[test]
fn point2_translate() {
    let p = Point2::new(1, 2);
    let q = p.translate(&Vec2::new(10, 20));
    assert_eq!(q, Point2::new(11, 22));
    // the receiver is unchanged
    assert_eq!(p, Point2::new(1, 2));
}

#[test]
fn point2_translate_zero_identity() {
    let p = Point2::new(-4, 9);
    let z = Vec2::new(0, 0);
    assert_eq!(p.translate(&z), p);
}

#[test]
fn point2_translate_composition() {
    let p = Point2::new(3, -1);
    let a = Vec2::new(5, 7);
    let b = Vec2::new(-2, 11);
    let ab = a.add_v(&b);
    assert_eq!(p.translate(&a).translate(&b), p.translate(&ab));
}

#[test]
fn point2_distance_exact() {
    let p = Point2::new(0, 0);
    let q = Point2::new(3, 4);
    assert_eq!(p.distance(&q), 5);
}

#[test]
fn point2_distance_rounds_down() {
    // sqrt(2) rounds down to 1
    let p = Point2::new(0, 0);
    let q = Point2::new(1, 1);
    assert_eq!(p.distance(&q), 1);
}

#[test]
fn point2_distance_symmetry() {
    let p = Point2::new(-7, 2);
    let q = Point2::new(12, -5);
    assert_eq!(p.distance(&q), q.distance(&p));
}

#[test]
fn point2_distance_identity() {
    let p = Point2::new(123, -456);
    assert_eq!(p.distance(&p), 0);
}

#[test]
fn point2_equality() {
    let p = Point2::new(1, 2);
    assert_eq!(p, p);
    assert_eq!(p, Point2::new(1, 2));
    assert_ne!(p, Point2::new(1, 3));
}
