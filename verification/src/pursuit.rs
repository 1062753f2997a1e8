//! Pure-pursuit target selection: candidate generation (waypoints inside the
//! lookahead circle, segment/circle intersections, closest point on the path),
//! path parametrization, and selection of the farthest-forward candidate.
//!
//! All coordinates are milli-units. Intersection and projection points are
//! rounded to the nearest milli-unit; the spec functions beside each
//! executable function state the rounded result exactly.

use vstd::prelude::*;

use crate::geo::{Circle, Line, Path, Point};
use crate::geo::lines_of;
use crate::num::{clamp_i128, clamp_s, iabs, isqrt, rdiv, rdiv_i128, sqrt_floor};
use crate::num::{
    lemma_mul_abs_bound, lemma_rdiv_abs_le, lemma_rdiv_between, lemma_rdiv_bound, lemma_sqrt_le,
};

verus! {

/// Largest coordinate or radius magnitude the geometry accepts; keeps every
/// intermediate product of the quadratic within `i128`.
pub const COORD_LIMIT: i64 = 10_000_000;

/// Denominator of the per-segment progress fraction: progress along a path is
/// `segment_index * T_SCALE + fraction`, the fraction in `[0, T_SCALE]`.
pub const T_SCALE: i64 = 1000;

/// Squared-distance tolerance (milli-units squared) under which a candidate
/// point is taken to lie on a segment when it is projected back onto the path.
pub const MATCH_TOL_SQ: i64 = 2500;

/// Slack allowed on the progress fraction beyond `[0, T_SCALE]` before a
/// candidate is rejected; the accepted fraction is then clamped.
pub const T_SLACK: i64 = 50;

/// Most waypoints a path may carry; keeps progress values within `i64`.
pub const MAX_WAYPOINTS: usize = 1_000_000;

pub open spec fn coord_ok(v: int) -> bool {
    -COORD_LIMIT <= v <= COORD_LIMIT
}

pub open spec fn pt_ok(p: Point) -> bool {
    coord_ok(p.x as int) && coord_ok(p.y as int)
}

pub open spec fn line_ok(l: Line) -> bool {
    pt_ok(l.point1) && pt_ok(l.point2)
}

pub open spec fn circle_ok(c: Circle) -> bool {
    coord_ok(c.x as int) && coord_ok(c.y as int) && 0 <= c.r <= COORD_LIMIT
}

/// A well-formed path: not too many waypoints, all within coordinate bounds.
pub open spec fn path_ok(ws: Seq<Point>) -> bool {
    &&& ws.len() <= MAX_WAYPOINTS
    &&& forall|i: int| 0 <= i < ws.len() ==> pt_ok(#[trigger] ws[i])
}

/// The mathematical view of a point: its coordinate pair.
pub open spec fn pt_view(p: Point) -> (int, int) {
    (p.x as int, p.y as int)
}

/// The mathematical view of a point sequence.
pub open spec fn pts_view(s: Seq<Point>) -> Seq<(int, int)> {
    s.map_values(|p: Point| pt_view(p))
}

/// Squared distance between two coordinate pairs.
pub open spec fn dsq(a: (int, int), b: (int, int)) -> int {
    (a.0 - b.0) * (a.0 - b.0) + (a.1 - b.1) * (a.1 - b.1)
}

/// Whether `p` lies strictly inside circle `cir`.
pub open spec fn in_circle(p: Point, cir: Circle) -> bool {
    dsq(pt_view(p), (cir.x as int, cir.y as int)) < cir.r * cir.r
}

/// Whether a point lies strictly inside the circle.
pub fn point_in_circle(p: &Point, cir: &Circle) -> (inside: bool)
    requires
        pt_ok(*p),
        circle_ok(*cir),
    ensures
        inside == in_circle(*p, *cir),
{
    let ex: i128 = p.x as i128 - cir.x as i128;
    let ey: i128 = p.y as i128 - cir.y as i128;
    let r: i128 = cir.r as i128;
    proof {
        lemma_mul_abs_bound(ex as int, ex as int, 2 * COORD_LIMIT as int, 2 * COORD_LIMIT as int);
        lemma_mul_abs_bound(ey as int, ey as int, 2 * COORD_LIMIT as int, 2 * COORD_LIMIT as int);
        lemma_mul_abs_bound(r as int, r as int, COORD_LIMIT as int, COORD_LIMIT as int);
    }
    let a: i128 = ex * ex;
    let b: i128 = ey * ey;
    let c: i128 = a + b - r * r;
    c < 0
}

/// Squared length of a segment's direction vector (the `a` coefficient of the
/// intersection quadratic).
pub open spec fn seg_a(l: Line) -> int {
    let dx = l.point2.x - l.point1.x;
    let dy = l.point2.y - l.point1.y;
    dx * dx + dy * dy
}

/// The `b` coefficient of the intersection quadratic.
pub open spec fn seg_b(l: Line, c: Circle) -> int {
    let dx = l.point2.x - l.point1.x;
    let dy = l.point2.y - l.point1.y;
    let fx = l.point1.x - c.x;
    let fy = l.point1.y - c.y;
    2 * (fx * dx + fy * dy)
}

/// The `c` coefficient of the intersection quadratic.
pub open spec fn seg_c(l: Line, c: Circle) -> int {
    let fx = l.point1.x - c.x;
    let fy = l.point1.y - c.y;
    fx * fx + fy * fy - c.r * c.r
}

/// Discriminant of the intersection quadratic; negative exactly when the
/// segment's supporting line misses the circle.
pub open spec fn seg_disc(l: Line, c: Circle) -> int {
    seg_b(l, c) * seg_b(l, c) - 4 * (seg_a(l) * seg_c(l, c))
}

/// The point at parameter `num / (2 * seg_a(l))` along `l`, each coordinate
/// rounded to the nearest milli-unit.
pub open spec fn root_point(l: Line, num: int) -> (int, int) {
    let dx = l.point2.x - l.point1.x;
    let dy = l.point2.y - l.point1.y;
    let den = 2 * seg_a(l);
    (l.point1.x + rdiv(num * dx, den), l.point1.y + rdiv(num * dy, den))
}

/// The intersection points of segment `l` with the boundary of circle `c`:
/// the real quadratic roots whose parameter lies in `[0, 1]`, at most two,
/// in increasing parameter order, deduplicated when the discriminant's
/// rounded square root is zero. A degenerate (zero-length) segment yields
/// no intersections.
pub open spec fn line_circ_spec(l: Line, c: Circle) -> Seq<(int, int)> {
    let a = seg_a(l);
    let d = seg_disc(l, c);
    if a == 0 || d < 0 {
        Seq::empty()
    } else {
        let s = sqrt_floor(d);
        let den = 2 * a;
        let n1 = -seg_b(l, c) - s;
        let n2 = -seg_b(l, c) + s;
        let first: Seq<(int, int)> = if 0 <= n1 && n1 <= den {
            seq![root_point(l, n1)]
        } else {
            Seq::empty()
        };
        let second: Seq<(int, int)> = if 0 <= n2 && n2 <= den && s > 0 {
            seq![root_point(l, n2)]
        } else {
            Seq::empty()
        };
        first + second
    }
}

/// Intersections of one path segment with the circle boundary, by solving
/// the quadratic from the segment parametrization `P(t) = P1 + t (P2 - P1)`,
/// `t` in `[0, 1]`, against the circle equation.
pub fn line_circ_intersect(line: Line, cir: &Circle) -> (res: Vec<Point>)
    requires
        line_ok(line),
        circle_ok(*cir),
    ensures
        pts_view(res@) == line_circ_spec(line, *cir),
        res@.len() <= 2,
        forall|i: int| 0 <= i < res@.len() ==> pt_ok(#[trigger] res@[i]),
{
    let p1 = line.point1;
    let p2 = line.point2;
    let dx: i128 = p2.x as i128 - p1.x as i128;
    let dy: i128 = p2.y as i128 - p1.y as i128;
    let fx: i128 = p1.x as i128 - cir.x as i128;
    let fy: i128 = p1.y as i128 - cir.y as i128;
    proof {
        lemma_mul_abs_bound(dx as int, dx as int, 2 * COORD_LIMIT as int, 2 * COORD_LIMIT as int);
        lemma_mul_abs_bound(dy as int, dy as int, 2 * COORD_LIMIT as int, 2 * COORD_LIMIT as int);
        lemma_mul_abs_bound(fx as int, fx as int, 2 * COORD_LIMIT as int, 2 * COORD_LIMIT as int);
        lemma_mul_abs_bound(fy as int, fy as int, 2 * COORD_LIMIT as int, 2 * COORD_LIMIT as int);
        lemma_mul_abs_bound(fx as int, dx as int, 2 * COORD_LIMIT as int, 2 * COORD_LIMIT as int);
        lemma_mul_abs_bound(fy as int, dy as int, 2 * COORD_LIMIT as int, 2 * COORD_LIMIT as int);
        lemma_mul_abs_bound(cir.r as int, cir.r as int, COORD_LIMIT as int, COORD_LIMIT as int);
    }
    let a: i128 = dx * dx + dy * dy;
    let b: i128 = 2 * (fx * dx + fy * dy);
    let c: i128 = fx * fx + fy * fy - (cir.r as i128) * (cir.r as i128);
    proof {
        lemma_mul_abs_bound(b as int, b as int, 2_000_000_000_000_000int, 2_000_000_000_000_000int);
        lemma_mul_abs_bound(a as int, c as int, 800_000_000_000_000int, 900_000_000_000_000int);
    }
    let bb: i128 = b * b;
    let ac: i128 = a * c;
    let d: i128 = bb - 4 * ac;
    let mut intersections: Vec<Point> = Vec::new();
    if a == 0 || d < 0 {
        proof {
            assert(pts_view(intersections@) =~= line_circ_spec(line, *cir));
        }
        return intersections;
    }
    let s_wide: u128 = isqrt(d as u128);
    proof {
        lemma_sqrt_le(s_wide as int, d as int, 3_000_000_000_000_000int);
    }
    let s: i128 = s_wide as i128;
    let den: i128 = 2 * a;
    let n1: i128 = -b - s;
    let n2: i128 = -b + s;
    if 0 <= n1 && n1 <= den {
        let rx = root_coord(p1.x, dx, n1, den);
        let ry = root_coord(p1.y, dy, n1, den);
        intersections.push(Point { x: rx, y: ry });
    }
    if 0 <= n2 && n2 <= den && s > 0 {
        let rx = root_coord(p1.x, dx, n2, den);
        let ry = root_coord(p1.y, dy, n2, den);
        intersections.push(Point { x: rx, y: ry });
    }
    proof {
        assert(s == sqrt_floor(seg_disc(line, *cir)));
        assert(pts_view(intersections@) =~= line_circ_spec(line, *cir));
    }
    intersections
}

/// All intersections of the path's segments with the circle boundary, in
/// path order.
pub open spec fn path_circ_spec(lines: Seq<Line>, c: Circle) -> Seq<(int, int)>
    decreases lines.len(),
{
    if lines.len() == 0 {
        Seq::empty()
    } else {
        line_circ_spec(lines[0], c) + path_circ_spec(lines.drop_first(), c)
    }
}

/// Every intersection of a path segment with the circle boundary, walking the
/// segments in order.
pub fn path_circ_intersect(path: &Path, cir: Circle) -> (res: Vec<Point>)
    requires
        path_ok(path.waypoints@),
        circle_ok(cir),
    ensures
        pts_view(res@) == path_circ_spec(lines_of(path.waypoints@), cir),
        forall|i: int| 0 <= i < res@.len() ==> pt_ok(#[trigger] res@[i]),
{
    let lines = path.get_lines();
    let mut intersects: Vec<Point> = Vec::new();
    let n: usize = lines.len();
    let mut i: usize = 0;
    proof {
        assert(lines@.skip(0) =~= lines@);
        assert(pts_view(intersects@) + path_circ_spec(lines@, cir) =~= path_circ_spec(
            lines@,
            cir,
        ));
    }
    while i < n
        invariant
            path_ok(path.waypoints@),
            circle_ok(cir),
            lines@ == lines_of(path.waypoints@),
            n == lines@.len(),
            i <= n,
            pts_view(intersects@) + path_circ_spec(lines@.skip(i as int), cir) == path_circ_spec(
                lines@,
                cir,
            ),
            forall|j: int| 0 <= j < intersects@.len() ==> pt_ok(#[trigger] intersects@[j]),
        decreases n - i,
    {
        proof {
            assert(pt_ok(path.waypoints@[i as int]));
            assert(pt_ok(path.waypoints@[i + 1]));
            assert(line_ok(lines@[i as int]));
        }
        let ghost prev = intersects@;
        let mut pts = line_circ_intersect(lines[i], &cir);
        let ghost pts_snap = pts@;
        intersects.append(&mut pts);
        proof {
            assert(pts_view(intersects@) =~= pts_view(prev) + pts_view(pts_snap));
            assert(lines@.skip(i as int)[0] == lines@[i as int]);
            assert(lines@.skip(i as int).drop_first() =~= lines@.skip(i + 1));
            assert(path_circ_spec(lines@.skip(i as int), cir) == line_circ_spec(
                lines@[i as int],
                cir,
            ) + path_circ_spec(lines@.skip(i + 1), cir));
            assert(pts_view(intersects@) + path_circ_spec(lines@.skip(i + 1), cir)
                =~= (pts_view(prev) + path_circ_spec(lines@.skip(i as int), cir)));
        }
        i = i + 1;
    }
    proof {
        assert(lines@.skip(n as int) =~= Seq::<Line>::empty());
        assert(pts_view(intersects@) =~= path_circ_spec(lines@, cir));
    }
    intersects
}

/// One coordinate of a root point: `base + num * delta / den`, rounded.
/// The result stays between the segment's endpoint coordinates `base` and
/// `base + delta`, both of which the caller knows to be in bounds.
fn root_coord(base: i64, delta: i128, num: i128, den: i128) -> (r: i64)
    requires
        coord_ok(base as int),
        coord_ok(base + delta),
        iabs(delta as int) <= 2 * COORD_LIMIT as int,
        0 < den,
        0 <= num <= den,
        den <= 4_000_000_000_000_000,
    ensures
        r == base + rdiv((num * delta) as int, den as int),
        coord_ok(r as int),
{
    proof {
        lemma_mul_abs_bound(
            num as int,
            delta as int,
            4_000_000_000_000_000int,
            2 * COORD_LIMIT as int,
        );
        if delta >= 0 {
            assert(den * 0 <= num * delta <= den * delta) by (nonlinear_arith)
                requires
                    0 <= num <= den,
                    delta >= 0,
            ;
            lemma_rdiv_between((num * delta) as int, den as int, 0, delta as int);
        } else {
            assert(den * delta <= num * delta <= den * 0) by (nonlinear_arith)
                requires
                    0 <= num <= den,
                    delta < 0,
            ;
            lemma_rdiv_between((num * delta) as int, den as int, delta as int, 0);
        }
    }
    let q: i128 = rdiv_i128(num * delta, den);
    let r: i128 = base as i128 + q;
    r as i64
}

/// Squared distance between two points, as an executable value.
pub fn dist_sq(a: Point, b: Point) -> (d: i64)
    requires
        pt_ok(a),
        pt_ok(b),
    ensures
        d == dsq(pt_view(a), pt_view(b)),
        0 <= d,
{
    let dx: i128 = a.x as i128 - b.x as i128;
    let dy: i128 = a.y as i128 - b.y as i128;
    proof {
        lemma_mul_abs_bound(dx as int, dx as int, 2 * COORD_LIMIT as int, 2 * COORD_LIMIT as int);
        lemma_mul_abs_bound(dy as int, dy as int, 2 * COORD_LIMIT as int, 2 * COORD_LIMIT as int);
        assert(dx * dx >= 0 && dy * dy >= 0) by (nonlinear_arith);
    }
    let d: i128 = dx * dx + dy * dy;
    d as i64
}

/// The point of segment `l` closest to `p` (rounded to milli-units), paired
/// with the squared distance from `p` to that rounded point. The projection
/// parameter `dot / len2` is clamped to `[0, 1]`; a zero-length segment
/// projects to its first endpoint.
pub open spec fn prox_line_spec(l: Line, p: Point) -> ((int, int), int) {
    let vx = l.point2.x - l.point1.x;
    let vy = l.point2.y - l.point1.y;
    let wx = p.x - l.point1.x;
    let wy = p.y - l.point1.y;
    let len2 = vx * vx + vy * vy;
    if len2 == 0 {
        (pt_view(l.point1), dsq(pt_view(p), pt_view(l.point1)))
    } else {
        let tn = clamp_s(wx * vx + wy * vy, 0, len2);
        let cx = l.point1.x + rdiv(tn * vx, len2);
        let cy = l.point1.y + rdiv(tn * vy, len2);
        ((cx, cy), dsq(pt_view(p), (cx, cy)))
    }
}

/// Closest point of one segment to `point`, with the squared distance to it.
pub fn prox_point_on_line(line: Line, point: Point) -> (res: (Point, i64))
    requires
        line_ok(line),
        pt_ok(point),
    ensures
        pt_view(res.0) == prox_line_spec(line, point).0,
        res.1 == prox_line_spec(line, point).1,
        pt_ok(res.0),
        0 <= res.1,
{
    let vx: i128 = line.point2.x as i128 - line.point1.x as i128;
    let vy: i128 = line.point2.y as i128 - line.point1.y as i128;
    let wx: i128 = point.x as i128 - line.point1.x as i128;
    let wy: i128 = point.y as i128 - line.point1.y as i128;
    proof {
        lemma_mul_abs_bound(vx as int, vx as int, 2 * COORD_LIMIT as int, 2 * COORD_LIMIT as int);
        lemma_mul_abs_bound(vy as int, vy as int, 2 * COORD_LIMIT as int, 2 * COORD_LIMIT as int);
        lemma_mul_abs_bound(wx as int, vx as int, 2 * COORD_LIMIT as int, 2 * COORD_LIMIT as int);
        lemma_mul_abs_bound(wy as int, vy as int, 2 * COORD_LIMIT as int, 2 * COORD_LIMIT as int);
    }
    let len2: i128 = vx * vx + vy * vy;
    if len2 == 0 {
        let d = dist_sq(point, line.point1);
        return (line.point1, d);
    }
    proof {
        assert(len2 > 0) by (nonlinear_arith)
            requires
                len2 == vx * vx + vy * vy,
                len2 != 0,
        ;
    }
    let dot: i128 = wx * vx + wy * vy;
    let tn: i128 = clamp_i128(dot, 0, len2);
    let cx = root_coord(line.point1.x, vx, tn, len2);
    let cy = root_coord(line.point1.y, vy, tn, len2);
    let closest = Point { x: cx, y: cy };
    let d = dist_sq(point, closest);
    (closest, d)
}

/// Fold of `prox_line_spec` over the remaining segments, keeping the
/// strictly closer of the running best and each segment's closest point.
pub open spec fn prox_path_rec(lines: Seq<Line>, p: Point, best: ((int, int), int)) -> (
    (int, int),
    int,
)
    decreases lines.len(),
{
    if lines.len() == 0 {
        best
    } else {
        let cand = prox_line_spec(lines[0], p);
        let nb = if cand.1 < best.1 {
            cand
        } else {
            best
        };
        prox_path_rec(lines.drop_first(), p, nb)
    }
}

/// The closest point of the whole path to `p`, with its squared distance.
/// A path with no segments yields the origin with an unattainably large
/// distance, mirroring the search's starting state.
pub open spec fn prox_path_spec(ws: Seq<Point>, p: Point) -> ((int, int), int) {
    prox_path_rec(lines_of(ws), p, ((0, 0), i64::MAX as int))
}

/// The single closest point on the entire path to `point`: the fallback
/// "stay on path" candidate, which exists whenever the path has at least two
/// waypoints.
pub fn prox_point_on_path(path: &Path, point: Point) -> (res: (Point, i64))
    requires
        path_ok(path.waypoints@),
        pt_ok(point),
    ensures
        pt_view(res.0) == prox_path_spec(path.waypoints@, point).0,
        res.1 == prox_path_spec(path.waypoints@, point).1,
        pt_ok(res.0),
{
    let mut prox_pt = Point::new(0, 0);
    let mut dist: i64 = i64::MAX;
    let lines = path.get_lines();
    let n: usize = lines.len();
    let mut i: usize = 0;
    proof {
        assert(lines@.skip(0) =~= lines@);
    }
    while i < n
        invariant
            path_ok(path.waypoints@),
            pt_ok(point),
            lines@ == lines_of(path.waypoints@),
            n == lines@.len(),
            i <= n,
            pt_ok(prox_pt),
            prox_path_rec(lines@.skip(i as int), point, (pt_view(prox_pt), dist as int))
                == prox_path_spec(path.waypoints@, point),
        decreases n - i,
    {
        proof {
            assert(pt_ok(path.waypoints@[i as int]));
            assert(pt_ok(path.waypoints@[i + 1]));
            assert(line_ok(lines@[i as int]));
            assert(lines@.skip(i as int)[0] == lines@[i as int]);
            assert(lines@.skip(i as int).drop_first() =~= lines@.skip(i + 1));
        }
        let (pt, d) = prox_point_on_line(lines[i], point);
        if d < dist {
            prox_pt = pt;
            dist = d;
        }
        i = i + 1;
    }
    proof {
        assert(lines@.skip(n as int) =~= Seq::<Line>::empty());
    }
    (prox_pt, dist)
}

/// The waypoints of `ws` that lie strictly inside circle `c`, in path order.
pub open spec fn waypoints_in_spec(ws: Seq<Point>, c: Circle) -> Seq<(int, int)>
    decreases ws.len(),
{
    if ws.len() == 0 {
        Seq::empty()
    } else {
        let head: Seq<(int, int)> = if in_circle(ws[0], c) {
            seq![pt_view(ws[0])]
        } else {
            Seq::empty()
        };
        head + waypoints_in_spec(ws.drop_first(), c)
    }
}

/// The candidate target points for a path and a lookahead circle: waypoints
/// strictly inside the circle, then segment/boundary intersections, then the
/// closest point of the path to the circle's center. A degenerate path
/// (fewer than two waypoints) has no segments and contributes no waypoint or
/// intersection candidates; only the fallback closest-point rule applies.
pub open spec fn candidates_spec(ws: Seq<Point>, c: Circle) -> Seq<(int, int)> {
    let center = Point { x: c.x, y: c.y };
    if ws.len() < 2 {
        seq![prox_path_spec(ws, center).0]
    } else {
        waypoints_in_spec(ws, c) + path_circ_spec(lines_of(ws), c) + seq![
            prox_path_spec(ws, center).0,
        ]
    }
}

/// Generates the candidate target points for one control tick.
pub fn get_candidates(path: &Path, cir: Circle) -> (cands: Vec<Point>)
    requires
        path_ok(path.waypoints@),
        circle_ok(cir),
    ensures
        pts_view(cands@) == candidates_spec(path.waypoints@, cir),
        forall|i: int| 0 <= i < cands@.len() ==> pt_ok(#[trigger] cands@[i]),
        cands@.len() >= 1,
        path.waypoints@.len() < 2 ==> cands@.len() == 1,
{
    let mut c: Vec<Point> = Vec::new();
    let n: usize = path.waypoints.len();
    if n >= 2 {
        let mut i: usize = 0;
        proof {
            assert(path.waypoints@.skip(0) =~= path.waypoints@);
            assert(pts_view(c@) + waypoints_in_spec(path.waypoints@, cir) =~= waypoints_in_spec(
                path.waypoints@,
                cir,
            ));
        }
        while i < n
            invariant
                path_ok(path.waypoints@),
                circle_ok(cir),
                n == path.waypoints@.len(),
                i <= n,
                pts_view(c@) + waypoints_in_spec(path.waypoints@.skip(i as int), cir)
                    == waypoints_in_spec(path.waypoints@, cir),
                forall|j: int| 0 <= j < c@.len() ==> pt_ok(#[trigger] c@[j]),
            decreases n - i,
        {
            proof {
                assert(pt_ok(path.waypoints@[i as int]));
                assert(path.waypoints@.skip(i as int)[0] == path.waypoints@[i as int]);
                assert(path.waypoints@.skip(i as int).drop_first() =~= path.waypoints@.skip(
                    i + 1,
                ));
            }
            let ghost prev = c@;
            let p = path.waypoints[i];
            if point_in_circle(&p, &cir) {
                c.push(p);
            }
            proof {
                assert(pts_view(c@) + waypoints_in_spec(path.waypoints@.skip(i + 1), cir)
                    =~= (pts_view(prev) + waypoints_in_spec(
                    path.waypoints@.skip(i as int),
                    cir,
                )));
            }
            i = i + 1;
        }
        proof {
            assert(path.waypoints@.skip(n as int) =~= Seq::<Point>::empty());
        }
        let mut inter = path_circ_intersect(path, cir);
        let ghost inter_snap = inter@;
        let ghost way_snap = c@;
        c.append(&mut inter);
        proof {
            assert(pts_view(c@) =~= pts_view(way_snap) + pts_view(inter_snap));
        }
    }
    let center = Point::new(cir.x, cir.y);
    let (prox_pt, _dist) = prox_point_on_path(path, center);
    let ghost before_prox = c@;
    c.push(prox_pt);
    proof {
        assert(pts_view(c@) =~= pts_view(before_prox).push(pt_view(prox_pt)));
        assert(pts_view(c@) =~= candidates_spec(path.waypoints@, cir));
    }
    c
}

/// A degenerate path — fewer than two waypoints — has no line segments and
/// contributes no waypoint or intersection candidates: only the fallback
/// closest-point rule applies, so exactly one candidate remains.
pub proof fn lemma_degenerate_path(ws: Seq<Point>, c: Circle)
    requires
        ws.len() < 2,
    ensures
        lines_of(ws) == Seq::<Line>::empty(),
        path_circ_spec(lines_of(ws), c) == Seq::<(int, int)>::empty(),
        candidates_spec(ws, c) == seq![prox_path_spec(ws, Point { x: c.x, y: c.y }).0],
{
    assert(lines_of(ws) =~= Seq::<Line>::empty());
}

/// The view of an optional fixed-point value.
pub open spec fn opt_view(o: Option<i64>) -> Option<int> {
    match o {
        Some(v) => Some(v as int),
        None => None,
    }
}

/// The point at progress fraction `t` (in thousandths) along `l`, rounded.
pub open spec fn t_point(l: Line, t: int) -> (int, int) {
    let dx = l.point2.x - l.point1.x;
    let dy = l.point2.y - l.point1.y;
    (l.point1.x + rdiv(t * dx, T_SCALE as int), l.point1.y + rdiv(t * dy, T_SCALE as int))
}

/// Accepts a recovered progress fraction `t` when the point it denotes is
/// within the matching tolerance of `p` and `t` lies in `[0, 1]` up to the
/// slack; the accepted fraction is clamped into `[0, T_SCALE]`.
pub open spec fn accept_t(p: (int, int), l: Line, t: int) -> Option<int> {
    if dsq(p, t_point(l, t)) < MATCH_TOL_SQ && -T_SLACK <= t <= T_SCALE + T_SLACK {
        Some(clamp_s(t, 0, T_SCALE as int))
    } else {
        None
    }
}

/// The progress fraction of point `p` on segment `l`: recovered from
/// whichever of dx/dy has the larger magnitude (avoiding division
/// instability), with a distance-based check for degenerate zero-length
/// segments, then validated by projecting back onto the segment.
pub open spec fn point_t_spec(p: (int, int), l: Line) -> Option<int> {
    let dx = l.point2.x - l.point1.x;
    let dy = l.point2.y - l.point1.y;
    if iabs(dx) > iabs(dy) {
        accept_t(p, l, rdiv(T_SCALE * (p.0 - l.point1.x), dx))
    } else if dy != 0 {
        accept_t(p, l, rdiv(T_SCALE * (p.1 - l.point1.y), dy))
    } else {
        if dsq(p, pt_view(l.point1)) < MATCH_TOL_SQ {
            Some(0)
        } else {
            None
        }
    }
}

/// Validates a recovered progress fraction against the segment.
fn check_t(point: Point, line: Line, t: i128) -> (res: Option<i64>)
    requires
        pt_ok(point),
        line_ok(line),
        iabs(t as int) <= 100_000_000_000,
    ensures
        opt_view(res) == accept_t(pt_view(point), line, t as int),
{
    let dx: i128 = line.point2.x as i128 - line.point1.x as i128;
    let dy: i128 = line.point2.y as i128 - line.point1.y as i128;
    proof {
        lemma_mul_abs_bound(t as int, dx as int, 100_000_000_000int, 2 * COORD_LIMIT as int);
        lemma_mul_abs_bound(t as int, dy as int, 100_000_000_000int, 2 * COORD_LIMIT as int);
        lemma_rdiv_abs_le((t * dx) as int, T_SCALE as int);
        lemma_rdiv_abs_le((t * dy) as int, T_SCALE as int);
    }
    let qx: i128 = line.point1.x as i128 + rdiv_i128(t * dx, T_SCALE as i128);
    let qy: i128 = line.point1.y as i128 + rdiv_i128(t * dy, T_SCALE as i128);
    let ex: i128 = point.x as i128 - qx;
    let ey: i128 = point.y as i128 - qy;
    proof {
        lemma_mul_abs_bound(
            ex as int,
            ex as int,
            3_000_000_000_000_000_000int,
            3_000_000_000_000_000_000int,
        );
        lemma_mul_abs_bound(
            ey as int,
            ey as int,
            3_000_000_000_000_000_000int,
            3_000_000_000_000_000_000int,
        );
        assert(ex * ex >= 0 && ey * ey >= 0) by (nonlinear_arith);
    }
    let d: i128 = ex * ex + ey * ey;
    if d < MATCH_TOL_SQ as i128 && -(T_SLACK as i128) <= t && t <= (T_SCALE + T_SLACK) as i128 {
        let tc: i128 = clamp_i128(t, 0, T_SCALE as i128);
        Some(tc as i64)
    } else {
        None
    }
}

/// The progress fraction (in thousandths of the segment) of `point` on
/// `line`, or `None` when the point does not lie on the segment within
/// tolerance.
pub fn point_t_on_line(point: Point, line: Line) -> (res: Option<i64>)
    requires
        pt_ok(point),
        line_ok(line),
    ensures
        opt_view(res) == point_t_spec(pt_view(point), line),
        res matches Some(t) ==> 0 <= t <= T_SCALE,
{
    let dx: i128 = line.point2.x as i128 - line.point1.x as i128;
    let dy: i128 = line.point2.y as i128 - line.point1.y as i128;
    let adx: i128 = if dx < 0 {
        -dx
    } else {
        dx
    };
    let ady: i128 = if dy < 0 {
        -dy
    } else {
        dy
    };
    if adx > ady {
        let num: i128 = (T_SCALE as i128) * (point.x as i128 - line.point1.x as i128);
        let t = rdiv_i128(num, dx);
        check_t(point, line, t)
    } else if dy != 0 {
        let num: i128 = (T_SCALE as i128) * (point.y as i128 - line.point1.y as i128);
        let t = rdiv_i128(num, dy);
        check_t(point, line, t)
    } else {
        let d = dist_sq(point, line.point1);
        if d < MATCH_TOL_SQ {
            Some(0)
        } else {
            None
        }
    }
}

/// Progress of point `p` along the remaining segments: the first segment the
/// point projects onto decides, its index (in whole `T_SCALE` units) plus the
/// fraction within it.
pub open spec fn get_t_rec(p: (int, int), lines: Seq<Line>) -> Option<int>
    decreases lines.len(),
{
    if lines.len() == 0 {
        None
    } else {
        match point_t_spec(p, lines[0]) {
            Some(t) => Some(t),
            None => match get_t_rec(p, lines.drop_first()) {
                Some(u) => Some(T_SCALE + u),
                None => None,
            },
        }
    }
}

/// The path-progress value of `p` on the path with waypoints `ws`.
pub open spec fn get_t_spec(p: (int, int), ws: Seq<Point>) -> Option<int> {
    get_t_rec(p, lines_of(ws))
}

/// Maps a candidate point to its scalar path progress
/// `segment_index * T_SCALE + fraction`, or `None` when the point cannot be
/// located on any segment.
pub fn get_t(point: Point, path: &Path) -> (res: Option<i64>)
    requires
        pt_ok(point),
        path_ok(path.waypoints@),
    ensures
        opt_view(res) == get_t_spec(pt_view(point), path.waypoints@),
        res matches Some(t) ==> 0 <= t,
{
    let lines = path.get_lines();
    let n: usize = lines.len();
    let mut i: usize = 0;
    proof {
        assert(lines@.skip(0) =~= lines@);
    }
    while i < n
        invariant
            pt_ok(point),
            path_ok(path.waypoints@),
            lines@ == lines_of(path.waypoints@),
            n == lines@.len(),
            i <= n,
            n <= MAX_WAYPOINTS,
            get_t_rec(pt_view(point), lines@) == match get_t_rec(
                pt_view(point),
                lines@.skip(i as int),
            ) {
                Some(u) => Some((T_SCALE as int) * (i as int) + u),
                None => None::<int>,
            },
        decreases n - i,
    {
        proof {
            assert(pt_ok(path.waypoints@[i as int]));
            assert(pt_ok(path.waypoints@[i + 1]));
            assert(line_ok(lines@[i as int]));
            assert(lines@.skip(i as int)[0] == lines@[i as int]);
            assert(lines@.skip(i as int).drop_first() =~= lines@.skip(i + 1));
        }
        let r = point_t_on_line(point, lines[i]);
        match r {
            Some(t) => {
                return Some((i as i64) * T_SCALE + t);
            },
            None => {},
        }
        i = i + 1;
    }
    proof {
        assert(lines@.skip(n as int) =~= Seq::<Line>::empty());
    }
    None
}

/// Fold that keeps the candidate with the strictly greatest path progress;
/// a candidate whose progress cannot be resolved scores the sentinel
/// `i64::MIN` and is never selected over a resolved one.
pub open spec fn get_target_rec(
    cands: Seq<(int, int)>,
    ws: Seq<Point>,
    best: (int, int),
    best_t: int,
) -> (int, int)
    decreases cands.len(),
{
    if cands.len() == 0 {
        best
    } else {
        let t = match get_t_spec(cands[0], ws) {
            Some(u) => u,
            None => i64::MIN as int,
        };
        if t > best_t {
            get_target_rec(cands.drop_first(), ws, cands[0], t)
        } else {
            get_target_rec(cands.drop_first(), ws, best, best_t)
        }
    }
}

/// The selected target among `cands`: maximum path progress wins; when no
/// candidate's progress resolves, the search's starting point — the
/// coordinate origin — is returned unchanged.
pub open spec fn get_target_spec(cands: Seq<(int, int)>, ws: Seq<Point>) -> (int, int) {
    get_target_rec(cands, ws, (0, 0), i64::MIN as int)
}

/// Whether at least one candidate's path progress resolves.
pub open spec fn any_resolves(cands: Seq<(int, int)>, ws: Seq<Point>) -> bool {
    exists|i: int| 0 <= i < cands.len() && (#[trigger] get_t_spec(cands[i], ws)) is Some
}

/// A candidate's selection score: its path progress, or the sentinel when
/// the progress does not resolve.
pub open spec fn score(c: (int, int), ws: Seq<Point>) -> int {
    match get_t_spec(c, ws) {
        Some(u) => u,
        None => i64::MIN as int,
    }
}

/// The greatest score the fold reaches, starting from `best_t`.
pub open spec fn best_score_rec(cands: Seq<(int, int)>, ws: Seq<Point>, best_t: int) -> int
    decreases cands.len(),
{
    if cands.len() == 0 {
        best_t
    } else {
        let t = score(cands[0], ws);
        if t > best_t {
            best_score_rec(cands.drop_first(), ws, t)
        } else {
            best_score_rec(cands.drop_first(), ws, best_t)
        }
    }
}

/// The fold's score never drops below its start and bounds every
/// candidate's score.
proof fn lemma_best_score_bounds(cands: Seq<(int, int)>, ws: Seq<Point>, best_t: int)
    ensures
        best_t <= best_score_rec(cands, ws, best_t),
        forall|i: int|
            0 <= i < cands.len() ==> score(#[trigger] cands[i], ws) <= best_score_rec(
                cands,
                ws,
                best_t,
            ),
    decreases cands.len(),
{
    if cands.len() > 0 {
        let t = score(cands[0], ws);
        if t > best_t {
            lemma_best_score_bounds(cands.drop_first(), ws, t);
        } else {
            lemma_best_score_bounds(cands.drop_first(), ws, best_t);
        }
        assert forall|i: int| 0 <= i < cands.len() implies score(
            #[trigger] cands[i],
            ws,
        ) <= best_score_rec(cands, ws, best_t) by {
            if i > 0 {
                assert(cands.drop_first()[i - 1] == cands[i]);
            }
        }
    }
}

/// When the fold's score rises above its start, the fold returns a candidate
/// that attains exactly that score; otherwise it returns the running best
/// unchanged.
proof fn lemma_target_rec_attained(
    cands: Seq<(int, int)>,
    ws: Seq<Point>,
    best: (int, int),
    best_t: int,
)
    ensures
        best_score_rec(cands, ws, best_t) > best_t ==> exists|i: int|
            0 <= i < cands.len() && cands[i] == get_target_rec(cands, ws, best, best_t) && score(
                #[trigger] cands[i],
                ws,
            ) == best_score_rec(cands, ws, best_t),
        best_score_rec(cands, ws, best_t) == best_t ==> get_target_rec(cands, ws, best, best_t)
            == best,
    decreases cands.len(),
{
    if cands.len() > 0 {
        let t = score(cands[0], ws);
        if t > best_t {
            lemma_target_rec_attained(cands.drop_first(), ws, cands[0], t);
            lemma_best_score_bounds(cands.drop_first(), ws, t);
            if best_score_rec(cands.drop_first(), ws, t) > t {
                let j = choose|j: int|
                    0 <= j < cands.drop_first().len() && cands.drop_first()[j] == get_target_rec(
                        cands.drop_first(),
                        ws,
                        cands[0],
                        t,
                    ) && score(#[trigger] cands.drop_first()[j], ws) == best_score_rec(
                        cands.drop_first(),
                        ws,
                        t,
                    );
                assert(cands[j + 1] == cands.drop_first()[j]);
            } else {
                assert(cands[0] == get_target_rec(cands, ws, best, best_t));
            }
        } else {
            lemma_target_rec_attained(cands.drop_first(), ws, best, best_t);
            if best_score_rec(cands.drop_first(), ws, best_t) > best_t {
                let j = choose|j: int|
                    0 <= j < cands.drop_first().len() && cands.drop_first()[j] == get_target_rec(
                        cands.drop_first(),
                        ws,
                        best,
                        best_t,
                    ) && score(#[trigger] cands.drop_first()[j], ws) == best_score_rec(
                        cands.drop_first(),
                        ws,
                        best_t,
                    );
                assert(cands[j + 1] == cands.drop_first()[j]);
            }
        }
    }
}

/// Target selection makes maximal forward progress: whenever any candidate's
/// path progress resolves, the selected target is itself a candidate, its
/// progress resolves, and no candidate's progress exceeds it.
pub proof fn lemma_target_progress_maximal(cands: Seq<(int, int)>, ws: Seq<Point>)
    requires
        any_resolves(cands, ws),
    ensures
        ({
            let tgt = get_target_spec(cands, ws);
            &&& exists|i: int| 0 <= i < cands.len() && #[trigger] cands[i] == tgt
            &&& get_t_spec(tgt, ws) is Some
            &&& forall|i: int|
                0 <= i < cands.len() ==> score(#[trigger] cands[i], ws) <= score(tgt, ws)
        }),
{
    let sentinel = i64::MIN as int;
    let k = choose|i: int| 0 <= i < cands.len() && (#[trigger] get_t_spec(cands[i], ws)) is Some;
    lemma_get_t_nonneg(cands[k], ws);
    assert(score(cands[k], ws) >= 0);
    lemma_best_score_bounds(cands, ws, sentinel);
    assert(best_score_rec(cands, ws, sentinel) >= 0);
    lemma_target_rec_attained(cands, ws, (0, 0), sentinel);
    let tgt = get_target_spec(cands, ws);
    assert(score(tgt, ws) == best_score_rec(cands, ws, sentinel));
    assert(get_t_spec(tgt, ws) is Some);
}

/// A resolved path progress is nonnegative: each accepted fraction is
/// clamped into `[0, T_SCALE]` and whole segments only add.
pub proof fn lemma_get_t_nonneg(c: (int, int), ws: Seq<Point>)
    ensures
        get_t_spec(c, ws) matches Some(t) ==> t >= 0,
{
    lemma_get_t_rec_nonneg(c, lines_of(ws));
}

proof fn lemma_get_t_rec_nonneg(c: (int, int), lines: Seq<Line>)
    ensures
        get_t_rec(c, lines) matches Some(t) ==> t >= 0,
    decreases lines.len(),
{
    if lines.len() > 0 {
        lemma_get_t_rec_nonneg(c, lines.drop_first());
    }
}

/// Selects the candidate with maximum path progress (furthest forward along
/// the path).
pub fn get_target(candidates: Vec<Point>, path: Path) -> (target: Point)
    requires
        path_ok(path.waypoints@),
        forall|i: int| 0 <= i < candidates@.len() ==> pt_ok(#[trigger] candidates@[i]),
    ensures
        pt_view(target) == get_target_spec(pts_view(candidates@), path.waypoints@),
        pt_ok(target),
{
    let mut target = Point::new(0, 0);
    let mut target_t: i64 = i64::MIN;
    let n: usize = candidates.len();
    let mut i: usize = 0;
    proof {
        assert(pts_view(candidates@).skip(0) =~= pts_view(candidates@));
    }
    while i < n
        invariant
            path_ok(path.waypoints@),
            forall|j: int| 0 <= j < candidates@.len() ==> pt_ok(#[trigger] candidates@[j]),
            n == candidates@.len(),
            i <= n,
            pt_ok(target),
            get_target_rec(
                pts_view(candidates@).skip(i as int),
                path.waypoints@,
                pt_view(target),
                target_t as int,
            ) == get_target_spec(pts_view(candidates@), path.waypoints@),
        decreases n - i,
    {
        proof {
            assert(pts_view(candidates@).skip(i as int)[0] == pt_view(candidates@[i as int]));
            assert(pts_view(candidates@).skip(i as int).drop_first() =~= pts_view(
                candidates@,
            ).skip(i + 1));
        }
        let point = candidates[i];
        let t: i64 = match get_t(point, &path) {
            Some(u) => u,
            None => i64::MIN,
        };
        if t > target_t {
            target = point;
            target_t = t;
        }
        i = i + 1;
    }
    proof {
        assert(pts_view(candidates@).skip(n as int) =~= Seq::<(int, int)>::empty());
    }
    target
}

/// The selected pure-pursuit target for a path and a lookahead circle.
pub open spec fn pp_target_spec(ws: Seq<Point>, c: Circle) -> (int, int) {
    get_target_spec(candidates_spec(ws, c), ws)
}

/// The farthest-forward point on the path that should currently be steered
/// toward, for the lookahead circle `cir`.
pub fn pp_target(path: Path, cir: Circle) -> (target: Point)
    requires
        path_ok(path.waypoints@),
        circle_ok(cir),
    ensures
        pt_view(target) == pp_target_spec(path.waypoints@, cir),
        pt_ok(target),
{
    let candidates = get_candidates(&path, cir);
    get_target(candidates, path)
}

/// Like `pp_target`, but reports the case in which no candidate's path
/// progress resolves — where the plain selection would fall back to the
/// coordinate origin — so that a caller can hold its previous target instead.
pub fn pp_target_resolved(path: &Path, cir: Circle) -> (res: Option<Point>)
    requires
        path_ok(path.waypoints@),
        circle_ok(cir),
    ensures
        res is Some == any_resolves(
            candidates_spec(path.waypoints@, cir),
            path.waypoints@,
        ),
        res matches Some(target) ==> pt_view(target) == pp_target_spec(path.waypoints@, cir)
            && pt_ok(target),
{
    let candidates = get_candidates(path, cir);
    let mut target = Point::new(0, 0);
    let mut target_t: i64 = i64::MIN;
    let mut found: bool = false;
    let n: usize = candidates.len();
    let mut i: usize = 0;
    proof {
        assert(pts_view(candidates@).skip(0) =~= pts_view(candidates@));
    }
    while i < n
        invariant
            path_ok(path.waypoints@),
            circle_ok(cir),
            pts_view(candidates@) == candidates_spec(path.waypoints@, cir),
            forall|j: int| 0 <= j < candidates@.len() ==> pt_ok(#[trigger] candidates@[j]),
            n == candidates@.len(),
            i <= n,
            pt_ok(target),
            get_target_rec(
                pts_view(candidates@).skip(i as int),
                path.waypoints@,
                pt_view(target),
                target_t as int,
            ) == get_target_spec(pts_view(candidates@), path.waypoints@),
            found == exists|j: int|
                0 <= j < i && (#[trigger] get_t_spec(
                    pts_view(candidates@)[j],
                    path.waypoints@,
                )) is Some,
        decreases n - i,
    {
        proof {
            assert(pts_view(candidates@).skip(i as int)[0] == pt_view(candidates@[i as int]));
            assert(pts_view(candidates@).skip(i as int).drop_first() =~= pts_view(
                candidates@,
            ).skip(i + 1));
        }
        let point = candidates[i];
        let got = get_t(point, path);
        let t: i64 = match got {
            Some(u) => u,
            None => i64::MIN,
        };
        if got.is_some() {
            found = true;
        }
        if t > target_t {
            target = point;
            target_t = t;
        }
        i = i + 1;
    }
    proof {
        assert(pts_view(candidates@).skip(n as int) =~= Seq::<(int, int)>::empty());
    }
    if found {
        Some(target)
    } else {
        None
    }
}

} // verus!
