use points::Dimensional;
use points::Point2;
use points::Point3;
use points::Vec2;
use points::Vec3;

#[test]
fn format_negative_components() {
    assert_eq!(Point2::new(-1, 0).to_str(), "[-1, 0]");
    assert_eq!(Point3::new(-1, 0, -22).to_str(), "[-1, 0, -22]");
}

#[test]
fn format_extreme_components() {
    assert_eq!(
        Point2::new(i64::MIN, i64::MAX).to_str(),
        "[-9223372036854775808, 9223372036854775807]"
    );
}

#[test]
fn format_multi_digit_components() {
    assert_eq!(Point2::new(120, 1007).to_str(), "[120, 1007]");
}

#[test]
fn component_access() {
    let p = Point2::new(5, 6);
    assert_eq!(p.component(0), 5);
    assert_eq!(p.component(1), 6);
    let q = Point3::new(7, 8, 9);
    assert_eq!(q.component(0), 7);
    assert_eq!(q.component(1), 8);
    assert_eq!(q.component(2), 9);
}

#[test]
fn approx_eq_default_tolerance_is_exact() {
    let p = Point2::new(1, 2);
    assert!(p.approx_eq(&Point2::new(1, 2)));
    assert!(!p.approx_eq(&Point2::new(1, 3)));
    let q = Point3::new(1, 2, 3);
    assert!(q.approx_eq(&Point3::new(1, 2, 3)));
    assert!(!q.approx_eq(&Point3::new(1, 2, 4)));
}

#[test]
fn approx_eq_within_tolerance() {
    let p = Point2::new(10, 20);
    // each component differs by less than the tolerance
    assert!(p.approx_eq_eps(&Point2::new(11, 19), 2));
    let q = Point3::new(10, 20, 30);
    assert!(q.approx_eq_eps(&Point3::new(11, 19, 31), 2));
}

#[test]
fn approx_eq_beyond_tolerance() {
    let p = Point2::new(10, 20);
    // one component differs by more than the tolerance
    assert!(!p.approx_eq_eps(&Point2::new(13, 20), 2));
    let q = Point3::new(10, 20, 30);
    assert!(!q.approx_eq_eps(&Point3::new(10, 20, 33), 2));
}

#[test]
fn vector_add_v() {
    let a = Vec2::new(1, 2);
    let b = Vec2::new(30, 40);
    assert_eq!(a.add_v(&b), Vec2::new(31, 42));
    let c = Vec3::new(1, 2, 3);
    let d = Vec3::new(30, 40, 50);
    assert_eq!(c.add_v(&d), Vec3::new(31, 42, 53));
}

#[test]
fn vector_distance() {
    let a = Vec2::new(2, 3);
    let b = Vec2::new(5, 7);
    assert_eq!(a.distance(&b), 5);
    let c = Vec3::new(1, 1, 1);
    let d = Vec3::new(2, 3, 3);
    assert_eq!(c.distance(&d), 3);
}

#[test]
fn vector_approx_eq() {
    let a = Vec2::new(0, 0);
    assert!(a.approx_eq(&Vec2::new(0, 0)));
    assert!(a.approx_eq_eps(&Vec2::new(1, -1), 1));
    assert!(!a.approx_eq_eps(&Vec2::new(2, 0), 1));
    let c = Vec3::new(0, 0, 0);
    assert!(c.approx_eq(&Vec3::new(0, 0, 0)));
    assert!(c.approx_eq_eps(&Vec3::new(1, -1, 1), 1));
    assert!(!c.approx_eq_eps(&Vec3::new(0, 0, -2), 1));
}

#[test]
fn negative_tolerance_rejects_all() {
    let p = Point2::new(1, 2);
    assert!(!p.approx_eq_eps(&Point2::new(1, 2), -1));
}
