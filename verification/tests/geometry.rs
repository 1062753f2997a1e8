//! Geometry and candidate-generation behavior: circle membership,
//! segment/circle intersection, projection, and the degenerate-path rules.

use motioncore::geo::{Circle, Line, Path, Point};
use motioncore::num::{isqrt, rdiv_i128};
use motioncore::pursuit::{
    dist_sq, get_candidates, line_circ_intersect, path_circ_intersect, point_in_circle,
    point_t_on_line, prox_point_on_line, prox_point_on_path,
};

fn pt(x: i64, y: i64) -> Point {
    Point::new(x, y)
}

fn path_of(ws: &[(i64, i64)]) -> Path {
    let mut v: Vec<Point> = Vec::new();
    for &(x, y) in ws {
        v.push(pt(x, y));
    }
    Path::new(v)
}

#[test]
fn rounded_division_values() {
    assert_eq!(rdiv_i128(7, 2), 4);
    assert_eq!(rdiv_i128(-7, 2), -4);
    assert_eq!(rdiv_i128(7, -2), -4);
    assert_eq!(rdiv_i128(-7, -2), 4);
    assert_eq!(rdiv_i128(6, 4), 2);
    assert_eq!(rdiv_i128(-6, 4), -2);
    assert_eq!(rdiv_i128(10, 5), 2);
    assert_eq!(rdiv_i128(0, 3), 0);
}

#[test]
fn integer_square_root_values() {
    assert_eq!(isqrt(0), 0);
    assert_eq!(isqrt(1), 1);
    assert_eq!(isqrt(2), 1);
    assert_eq!(isqrt(3), 1);
    assert_eq!(isqrt(4), 2);
    assert_eq!(isqrt(64_000_000_000_000), 8_000_000);
    assert_eq!(isqrt(u64::MAX as u128), 4_294_967_295);
}

#[test]
fn point_strictly_inside_circle() {
    let cir = Circle { x: 0, y: 0, r: 1000 };
    assert!(point_in_circle(&pt(0, 0), &cir));
    assert!(point_in_circle(&pt(999, 0), &cir));
    // a point exactly on the boundary is not strictly inside
    assert!(!point_in_circle(&pt(1000, 0), &cir));
    assert!(!point_in_circle(&pt(0, -1000), &cir));
    assert!(!point_in_circle(&pt(5000, 0), &cir));
}

#[test]
fn unit_circle_crossed_by_horizontal_line() {
    // circle radius 1 at the origin, line from (-2, 0) to (2, 0):
    // intersections exactly (-1, 0) and (1, 0)
    let cir = Circle { x: 0, y: 0, r: 1000 };
    let line = Line { point1: pt(-2000, 0), point2: pt(2000, 0) };
    let res = line_circ_intersect(line, &cir);
    assert_eq!(res.len(), 2);
    assert_eq!((res[0].x, res[0].y), (-1000, 0));
    assert_eq!((res[1].x, res[1].y), (1000, 0));
}

#[test]
fn line_outside_circle_has_no_intersections() {
    // circle radius 1 at the origin, line from (5, 0) to (6, 0)
    let cir = Circle { x: 0, y: 0, r: 1000 };
    let line = Line { point1: pt(5000, 0), point2: pt(6000, 0) };
    let res = line_circ_intersect(line, &cir);
    assert_eq!(res.len(), 0);
}

#[test]
fn tangent_line_touches_once() {
    // line y = 1 touches the unit circle at (0, 1) only
    let cir = Circle { x: 0, y: 0, r: 1000 };
    let line = Line { point1: pt(-2000, 1000), point2: pt(2000, 1000) };
    let res = line_circ_intersect(line, &cir);
    assert_eq!(res.len(), 1);
    assert_eq!((res[0].x, res[0].y), (0, 1000));
}

#[test]
fn zero_length_segment_has_no_intersections() {
    let cir = Circle { x: 0, y: 0, r: 1000 };
    let line = Line { point1: pt(500, 0), point2: pt(500, 0) };
    assert_eq!(line_circ_intersect(line, &cir).len(), 0);
}

#[test]
fn path_intersections_walk_segments_in_order() {
    let path = path_of(&[(0, 0), (10000, 0), (20000, 0)]);
    let cir = Circle { x: 8000, y: 0, r: 5000 };
    let res = path_circ_intersect(&path, cir);
    assert_eq!(res.len(), 2);
    assert_eq!((res[0].x, res[0].y), (3000, 0));
    assert_eq!((res[1].x, res[1].y), (13000, 0));
}

#[test]
fn projection_onto_segment() {
    let line = Line { point1: pt(0, 0), point2: pt(10000, 0) };
    let (p, d) = prox_point_on_line(line, pt(3000, 4000));
    assert_eq!((p.x, p.y), (3000, 0));
    assert_eq!(d, 16_000_000);
    // beyond the start: clamped to the first endpoint
    let (p2, d2) = prox_point_on_line(line, pt(-5000, 0));
    assert_eq!((p2.x, p2.y), (0, 0));
    assert_eq!(d2, 25_000_000);
    // zero-length segment projects to its endpoint
    let degenerate = Line { point1: pt(5000, 5000), point2: pt(5000, 5000) };
    let (p3, d3) = prox_point_on_line(degenerate, pt(5000, 6000));
    assert_eq!((p3.x, p3.y), (5000, 5000));
    assert_eq!(d3, 1_000_000);
}

#[test]
fn closest_point_on_whole_path() {
    let path = path_of(&[(0, 0), (10000, 0), (10000, 10000)]);
    let (p, d) = prox_point_on_path(&path, pt(9000, 2000));
    // nearer to the vertical segment (distance 1000) than the horizontal one
    assert_eq!((p.x, p.y), (10000, 2000));
    assert_eq!(d, 1_000_000);
}

#[test]
fn progress_fraction_on_segment() {
    let line = Line { point1: pt(0, 0), point2: pt(10000, 0) };
    assert_eq!(point_t_on_line(pt(2500, 0), line), Some(250));
    assert_eq!(point_t_on_line(pt(0, 0), line), Some(0));
    assert_eq!(point_t_on_line(pt(10000, 0), line), Some(1000));
    // far off the segment: no progress value
    assert_eq!(point_t_on_line(pt(2500, 5000), line), None);
    // vertical segment goes through the dy branch
    let vline = Line { point1: pt(0, 0), point2: pt(0, 8000) };
    assert_eq!(point_t_on_line(pt(0, 2000), vline), Some(250));
}

#[test]
fn degenerate_path_only_fallback_candidate() {
    // a path with 0 waypoints: zero line segments, only the fallback rule
    let empty = path_of(&[]);
    assert_eq!(empty.get_lines().len(), 0);
    let cir = Circle { x: 0, y: 0, r: 5000 };
    let cands = get_candidates(&empty, cir);
    assert_eq!(cands.len(), 1);
    assert_eq!((cands[0].x, cands[0].y), (0, 0));

    // a path with 1 waypoint, even one inside the circle: no waypoint or
    // intersection candidates, only the fallback closest point
    let single = path_of(&[(3000, 3000)]);
    assert_eq!(single.get_lines().len(), 0);
    let cir2 = Circle { x: 3000, y: 3000, r: 5000 };
    let cands2 = get_candidates(&single, cir2);
    assert_eq!(cands2.len(), 1);
    assert_eq!((cands2[0].x, cands2[0].y), (0, 0));
}

#[test]
fn candidate_generation_counts() {
    let path = path_of(&[(0, 0), (10000, 0), (20000, 0)]);
    let cir = Circle { x: 8000, y: 0, r: 5000 };
    let cands = get_candidates(&path, cir);
    // one waypoint inside, two intersections, one fallback
    assert_eq!(cands.len(), 4);
    assert_eq!((cands[0].x, cands[0].y), (10000, 0));
    assert_eq!((cands[1].x, cands[1].y), (3000, 0));
    assert_eq!((cands[2].x, cands[2].y), (13000, 0));
    assert_eq!((cands[3].x, cands[3].y), (8000, 0));
}

#[test]
fn path_edits_keep_order() {
    let mut path = path_of(&[(0, 0), (1000, 0)]);
    path.add(pt(2000, 0));
    path.append(vec![pt(3000, 0), pt(4000, 0)]);
    assert_eq!(path.waypoints.len(), 5);
    assert_eq!((path.waypoints[4].x, path.waypoints[4].y), (4000, 0));
    path.remove(0);
    assert_eq!((path.waypoints[0].x, path.waypoints[0].y), (1000, 0));
    let lines = path.get_lines();
    assert_eq!(lines.len(), 3);
    assert_eq!((lines[0].point1.x, lines[0].point2.x), (1000, 2000));
}

#[test]
fn diagonal_line_intersections_round_to_nearest() {
    // circle radius 5 at the origin, line along y = x: the exact crossings
    // at 5/sqrt(2) land on the nearest milli-unit
    let cir = Circle { x: 0, y: 0, r: 5000 };
    let line = Line { point1: pt(-10000, -10000), point2: pt(10000, 10000) };
    let res = line_circ_intersect(line, &cir);
    assert_eq!(res.len(), 2);
    assert_eq!((res[0].x, res[0].y), (-3536, -3536));
    assert_eq!((res[1].x, res[1].y), (3536, 3536));
}

#[test]
fn geometry_at_the_coordinate_limit() {
    // the largest magnitudes the geometry accepts still compute exactly
    let cir = Circle { x: 0, y: 0, r: 10_000_000 };
    assert!(!point_in_circle(&pt(10_000_000, 0), &cir));
    assert!(point_in_circle(&pt(9_999_999, 0), &cir));
    let line = Line { point1: pt(-10_000_000, 0), point2: pt(10_000_000, 0) };
    let res = line_circ_intersect(line, &cir);
    assert_eq!(res.len(), 2);
    assert_eq!((res[0].x, res[0].y), (-10_000_000, 0));
    assert_eq!((res[1].x, res[1].y), (10_000_000, 0));
}

#[test]
fn squared_distance_values() {
    assert_eq!(dist_sq(pt(0, 0), pt(3, 4)), 25);
    assert_eq!(dist_sq(pt(-1000, 0), pt(1000, 0)), 4_000_000);
    assert_eq!(dist_sq(pt(7, 7), pt(7, 7)), 0);
}
