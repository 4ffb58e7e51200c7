use bumper_core::fixed::FX_ONE;
use bumper_core::fixed::FX_TWO_PI;
use bumper_core::intersection::Corner;
use bumper_core::intersection::Edge;
use bumper_core::intersection::Rectangle;

fn fx(v: f64) -> i64 {
    (v * FX_ONE as f64) as i64
}

#[test]
fn test_oriented_rectangle_collision() {
    let rect1 = Rectangle::new(0, 0, fx(10.), fx(6.), 0);
    let rect2 = Rectangle::new(0, 0, fx(6.), fx(10.), FX_TWO_PI);
    assert!(rect1.intersects(&rect2));
}

#[test]
fn intersection_is_symmetric() {
    let cases = [
        (Rectangle::new(0, 0, fx(10.), fx(6.), fx(0.3)), Rectangle::new(fx(4.), fx(2.), fx(8.), fx(8.), fx(1.1))),
        (Rectangle::new(0, 0, fx(10.), fx(6.), fx(0.3)), Rectangle::new(fx(40.), fx(2.), fx(8.), fx(8.), fx(1.1))),
        (Rectangle::new(fx(-3.), fx(7.), fx(2.), fx(9.), fx(5.9)), Rectangle::new(fx(1.), fx(6.), fx(4.), fx(1.), 0)),
    ];
    for (a, b) in cases {
        assert_eq!(a.intersects(&b), b.intersects(&a));
    }
}

#[test]
fn identical_rectangles_always_intersect() {
    let r = Rectangle::new(fx(12.), fx(-7.), fx(3.), fx(5.), fx(2.4));
    assert!(r.intersects(&r));
}

#[test]
fn colocated_rectangles_intersect_at_any_angle() {
    let a = Rectangle::new(fx(100.), fx(100.), fx(60.), fx(80.), fx(-9.3));
    let b = Rectangle::new(fx(100.), fx(100.), fx(60.), fx(80.), fx(-3.14));
    assert!(a.intersects(&b));
}

#[test]
fn distant_rectangles_never_intersect() {
    // Centers farther apart than the sum of the half-diagonals
    // (5 + 5 * sqrt(2) < 13).
    let a = Rectangle::new(0, 0, fx(8.), fx(6.), fx(1.0));
    let b = Rectangle::new(fx(13.), 0, fx(10.), fx(10.), fx(0.5));
    assert!(!a.intersects(&b));
    let c = Rectangle::new(fx(9.), fx(-10.), fx(10.), fx(10.), fx(2.9));
    assert!(!a.intersects(&c));
}

#[test]
fn degenerate_rectangles_are_legal() {
    let flat = Rectangle::new(0, 0, 0, 0, fx(1.3));
    let other = Rectangle::new(0, 0, fx(4.), fx(4.), 0);
    // A zero-extent rectangle projects to a point inside the other:
    // no axis separates them.
    assert!(flat.intersects(&other));
    assert!(other.intersects(&flat));
    let far_flat = Rectangle::new(fx(50.), 0, 0, fx(4.), 0);
    assert!(!other.intersects(&far_flat));
}

#[test]
fn vertices_wind_around_the_center() {
    let r = Rectangle::new(fx(2.), fx(3.), fx(4.), fx(6.), 0);
    let v = r.vertices();
    assert_eq!(v.len(), 4);
    // Opposite corners straddle the center exactly.
    assert_eq!(v[0].x + v[2].x, 2 * fx(2.));
    assert_eq!(v[0].y + v[2].y, 2 * fx(3.));
    assert_eq!(v[1].x + v[3].x, 2 * fx(2.));
    assert_eq!(v[1].y + v[3].y, 2 * fx(3.));
    // At heading zero the first corner lies right of and below none
    // of the others: positive offsets on both axes.
    assert!(v[0].x > fx(2.) && v[0].y > fx(3.));
}

#[test]
fn edges_connect_consecutive_vertices() {
    let r = Rectangle::new(0, 0, fx(4.), fx(6.), fx(0.8));
    let v = r.vertices();
    let e = r.edges();
    assert_eq!(e.len(), 4);
    for i in 0..4 {
        assert_eq!(e[i].start, v[i]);
        assert_eq!(e[i].end, v[(i + 1) % 4]);
    }
}

#[test]
fn normal_is_the_perpendicular_ordering() {
    let edge = Edge {
        start: Corner { x: fx(1.), y: fx(2.) },
        end: Corner { x: fx(4.), y: fx(6.) },
    };
    let n = edge.normal();
    assert_eq!(n.x, fx(1.) - fx(4.));
    assert_eq!(n.y, fx(6.) - fx(2.));
}
