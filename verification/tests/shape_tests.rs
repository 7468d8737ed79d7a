use batch2d::dimen::Vector2;
use batch2d::shape::{IRect, IRoundRect, Rectangle, URect};

#[test]
pub fn test_intersect_1() {
    let r1 = URect::from_tuples((100, 100), (200, 200));
    let r2 = URect::from_tuples((100, 300), (200, 400));
    let r3 = URect::from_tuples((125, 50), (175, 500));

    assert_eq!(None, r1.intersect(&r2));

    assert_eq!(
        Some(URect::from_tuples((125, 100), (175, 200))),
        r1.intersect(&r3)
    );

    assert_eq!(
        Some(URect::from_tuples((125, 300), (175, 400))),
        r2.intersect(&r3)
    );

    assert_eq!(Some(r1.clone()), r1.intersect(&r1));
    assert_eq!(Some(r2.clone()), r2.intersect(&r2));
    assert_eq!(Some(r3.clone()), r3.intersect(&r3));
}

#[test]
pub fn test_intersect_2() {
    let r1 = URect::from_tuples((100, 100), (200, 200));
    let r2 = URect::from_tuples((100, 200), (200, 300));

    assert_eq!(None, r1.intersect(&r2));
}

#[test]
fn rectangle_accessors() {
    let r = URect::from_tuples((10, 20), (30, 50));
    assert_eq!(r.left(), 10);
    assert_eq!(r.top(), 20);
    assert_eq!(r.right(), 30);
    assert_eq!(r.bottom(), 50);
    assert_eq!(r.width(), 20);
    assert_eq!(r.height(), 30);
    assert_eq!(r.size(), Vector2::new(20, 30));
    assert_eq!(r.top_right(), Vector2::new(30, 20));
    assert_eq!(r.bottom_left(), Vector2::new(10, 50));
    assert_eq!(*r.top_left(), Vector2::new(10, 20));
    assert_eq!(*r.bottom_right(), Vector2::new(30, 50));
}

#[test]
fn rectangle_contains_is_half_open() {
    let r = URect::from_tuples((10, 10), (20, 20));
    assert!(r.contains(Vector2::new(10, 10)));
    assert!(r.contains(Vector2::new(19, 19)));
    assert!(!r.contains(Vector2::new(20, 10)));
    assert!(!r.contains(Vector2::new(10, 20)));
}

#[test]
fn rectangle_area_predicates() {
    assert!(URect::from_tuples((5, 5), (5, 9)).is_zero_area());
    assert!(!URect::from_tuples((5, 5), (6, 9)).is_zero_area());
    assert!(URect::from_tuples((5, 5), (6, 9)).is_positive_area());
    assert!(!URect::from_tuples((5, 5), (5, 9)).is_positive_area());
}

#[test]
fn rectangle_offsets() {
    let r = URect::from_tuples((10, 20), (30, 40));
    let shifted = r.with_offset(Vector2::new(5, 6));
    assert_eq!(shifted, URect::from_tuples((15, 26), (35, 46)));
    let back = shifted.with_negative_offset(Vector2::new(5, 6));
    assert_eq!(back, r);
}

#[test]
fn signed_rectangle_intersect() {
    let r1 = IRect::from_tuples((-10, -10), (10, 10));
    let r2 = IRect::from_tuples((0, 0), (20, 20));
    assert_eq!(
        Some(IRect::from_tuples((0, 0), (10, 10))),
        r1.intersect(&r2)
    );
    let r3 = IRect::from_tuples((10, -10), (20, 10));
    assert_eq!(None, r1.intersect(&r3));
}

#[test]
fn rounded_rectangle_basics() {
    let rr = IRoundRect::from_tuples((0, 0), (100, 60), 10);
    assert_eq!(rr.radius(), 10);
    assert_eq!(rr.left(), 0);
    assert_eq!(rr.right(), 100);
    assert_eq!(rr.top(), 0);
    assert_eq!(rr.bottom(), 60);
    assert_eq!(rr.top_right(), Vector2::new(100, 0));
    assert_eq!(rr.bottom_left(), Vector2::new(0, 60));
    let inner = rr.inner();
    assert_eq!(inner, Rectangle::from_tuples((10, 10), (90, 50)));

    let from_rect = IRect::from_tuples((0, 0), (100, 60)).rounded(10);
    assert_eq!(from_rect, rr);
    assert_eq!(*rr.as_rectangle(), IRect::from_tuples((0, 0), (100, 60)));
}

#[test]
fn signed_rectangle_offsets() {
    let r = IRect::from_tuples((-10, -20), (30, 40));
    let shifted = r.with_offset(Vector2::new(15, -5));
    assert_eq!(shifted, IRect::from_tuples((5, -25), (45, 35)));
    assert_eq!(shifted.with_negative_offset(Vector2::new(15, -5)), r);
    assert_eq!(r.size(), Vector2::new(40, 60));
}

#[test]
fn rounded_rectangle_area_and_offsets() {
    let rr = IRoundRect::from_tuples((0, 0), (100, 60), 10);
    assert_eq!(rr.width(), 100);
    assert_eq!(rr.height(), 60);
    assert_eq!(rr.size(), Vector2::new(100, 60));
    assert!(rr.is_positive_area());
    assert!(!rr.is_zero_area());
    assert!(IRoundRect::from_tuples((5, 5), (5, 9), 1).is_zero_area());

    let moved = rr.with_offset(Vector2::new(3, 4));
    assert_eq!(moved, IRoundRect::from_tuples((3, 4), (103, 64), 10));
    assert_eq!(moved.with_negative_offset(Vector2::new(3, 4)), rr);
}

#[test]
fn rounded_rectangle_contains() {
    let rr = IRoundRect::from_tuples((0, 0), (100, 100), 10);
    // Center and edge midpoints are inside.
    assert!(rr.contains(Vector2::new(50, 50)));
    assert!(rr.contains(Vector2::new(50, 0)));
    assert!(rr.contains(Vector2::new(0, 50)));
    // The extreme corner is outside the rounded corner arc.
    assert!(!rr.contains(Vector2::new(0, 0)));
    assert!(!rr.contains(Vector2::new(99, 99)));
    // A point on the corner circle is inside (inclusive).
    assert!(rr.contains(Vector2::new(10, 10)));
    assert!(rr.contains(Vector2::new(3, 3)));
    // Outside the enclosing rectangle entirely.
    assert!(!rr.contains(Vector2::new(100, 50)));
}
