use graph_canvas::geom::dist;
use graph_canvas::geom::dist_sq;
use graph_canvas::geom::floor_div;
use graph_canvas::geom::isqrt;
use graph_canvas::geom::on_segment;
use graph_canvas::geom::orient;
use graph_canvas::geom::segments_intersect;
use graph_canvas::geom::Recti;
use graph_canvas::geom::Vec2i;

fn v(x: i64, y: i64) -> Vec2i {
    Vec2i { x, y }
}

#[test]
fn floor_div_rounds_toward_negative_infinity() {
    assert_eq!(floor_div(7, 2), 3);
    assert_eq!(floor_div(-7, 2), -4);
    assert_eq!(floor_div(6, 3), 2);
    assert_eq!(floor_div(-6, 3), -2);
    assert_eq!(floor_div(0, 5), 0);
}

#[test]
fn isqrt_brackets() {
    assert_eq!(isqrt(0), 0);
    assert_eq!(isqrt(1), 1);
    assert_eq!(isqrt(15), 3);
    assert_eq!(isqrt(16), 4);
    assert_eq!(isqrt(1_000_000), 1000);
    assert_eq!(isqrt(u64::MAX), 0xFFFF_FFFF);
}

#[test]
fn distances() {
    assert_eq!(dist_sq(v(0, 0), v(3000, 4000)), 25_000_000);
    assert_eq!(dist(v(0, 0), v(3000, 4000)), 5000);
    assert_eq!(dist(v(-1000, -1000), v(-1000, -1000)), 0);
}

#[test]
fn orientation_sign() {
    // counter-clockwise triangle
    assert!(orient(v(0, 0), v(10, 0), v(5, 5)) > 0);
    // clockwise
    assert!(orient(v(0, 0), v(10, 0), v(5, -5)) < 0);
    // collinear, exactly zero on the integer grid
    assert_eq!(orient(v(0, 0), v(10, 0), v(20, 0)), 0);
}

#[test]
fn segment_intersection_cases() {
    // plain crossing
    assert!(segments_intersect(v(0, 0), v(10, 10), v(0, 10), v(10, 0)));
    // disjoint
    assert!(!segments_intersect(v(0, 0), v(10, 0), v(0, 5), v(10, 5)));
    // touching at an endpoint
    assert!(segments_intersect(v(0, 0), v(10, 0), v(10, 0), v(10, 10)));
    // collinear overlap
    assert!(segments_intersect(v(0, 0), v(10, 0), v(5, 0), v(15, 0)));
    // collinear but apart
    assert!(!segments_intersect(v(0, 0), v(10, 0), v(11, 0), v(20, 0)));
}

#[test]
fn on_segment_is_bounding_box() {
    assert!(on_segment(v(0, 0), v(10, 10), v(5, 5)));
    assert!(on_segment(v(10, 10), v(0, 0), v(5, 5)));
    assert!(!on_segment(v(0, 0), v(10, 10), v(11, 5)));
}

#[test]
fn rect_contains_edges() {
    let r = Recti { min: v(0, 0), max: v(10, 10) };
    assert!(r.contains(v(0, 0)));
    assert!(r.contains(v(10, 10)));
    assert!(r.contains(v(5, 5)));
    assert!(!r.contains(v(-1, 5)));
    assert!(!r.contains(v(5, 11)));
}
