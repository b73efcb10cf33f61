use flow_canvas::geometry::{bezier_point_at, point_near_curve, sample_curve, Point, Rect};

#[test]
fn curve_meets_its_endpoints() {
    let p0 = Point { x: 10, y: 20 };
    let p1 = Point { x: 500, y: -40 };
    let c0 = Point { x: 100, y: 20 };
    let c1 = Point { x: 400, y: -40 };
    assert_eq!(bezier_point_at(p0, c0, c1, p1, 0, 100), p0);
    assert_eq!(bezier_point_at(p0, c0, c1, p1, 100, 100), p1);
}

#[test]
fn sampling_returns_one_point_per_segment_plus_one() {
    let from = Point { x: 0, y: 0 };
    let to = Point { x: 300, y: 120 };
    let pts = sample_curve(from, to, 100);
    assert_eq!(pts.len(), 101);
    assert_eq!(pts[0], from);
    assert_eq!(pts[100], to);
    let small = sample_curve(from, to, 7);
    assert_eq!(small.len(), 8);
    assert_eq!(small[0], from);
    assert_eq!(small[7], to);
}

#[test]
fn samples_advance_monotonically_left_to_right() {
    // for a left-to-right S-curve the x samples never go backward
    let from = Point { x: 0, y: 0 };
    let to = Point { x: 400, y: 200 };
    let pts = sample_curve(from, to, 32);
    for w in pts.windows(2) {
        assert!(w[0].x <= w[1].x);
    }
}

#[test]
fn hit_test_accepts_points_near_the_curve_only() {
    let from = Point { x: 0, y: 0 };
    let to = Point { x: 200, y: 0 };
    // the curve from (0,0) to (200,0) is the horizontal segment between them
    assert!(point_near_curve(Point { x: 100, y: 0 }, from, to));
    assert!(point_near_curve(Point { x: 100, y: 7 }, from, to));
    assert!(!point_near_curve(Point { x: 100, y: 9 }, from, to));
    assert!(!point_near_curve(Point { x: 100, y: 200 }, from, to));
}

#[test]
fn rectangle_contains_its_border() {
    let r = Rect { pos: Point { x: 10, y: 10 }, size: Point { x: 20, y: 20 } };
    assert!(r.contains(Point { x: 10, y: 10 }));
    assert!(r.contains(Point { x: 30, y: 30 }));
    assert!(r.contains(Point { x: 20, y: 15 }));
    assert!(!r.contains(Point { x: 31, y: 15 }));
    assert!(!r.contains(Point { x: 20, y: 9 }));
}
