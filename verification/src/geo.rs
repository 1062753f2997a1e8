//! Geometry primitives for path following: points, directed line segments,
//! the lookahead circle, and the polyline path. Coordinates are milli-units
//! in the robot's field frame.

use vstd::prelude::*;

verus! {

/// A 2-D coordinate in the robot's field frame.
#[derive(Clone, Copy, PartialEq, Eq, Structural, Debug)]
pub struct Point {
    /// The x-coordinate, in milli-units.
    pub x: i64,
    /// The y-coordinate, in milli-units.
    pub y: i64,
}

/// A directed segment between two consecutive path waypoints.
#[derive(Clone, Copy, PartialEq, Eq, Structural, Debug)]
pub struct Line {
    pub point1: Point,
    pub point2: Point,
}

/// The lookahead boundary, centered on the robot's current pose.
#[derive(Clone, Copy, PartialEq, Eq, Structural, Debug)]
pub struct Circle {
    pub x: i64,
    pub y: i64,
    pub r: i64,
}

/// An ordered sequence of waypoints; consecutive waypoints form the line
/// segments that define forward progress.
#[derive(Clone, Debug)]
pub struct Path {
    /// The waypoints that make up the path, in travel order.
    pub waypoints: Vec<Point>,
}

impl Point {
    pub fn new(x: i64, y: i64) -> (p: Point)
        ensures
            p == (Point { x, y }),
    {
        Point { x, y }
    }
}

/// The segments of a polyline: one line per pair of consecutive waypoints;
/// a sequence of fewer than two waypoints has no segments.
pub open spec fn lines_of(ws: Seq<Point>) -> Seq<Line> {
    if ws.len() < 2 {
        Seq::empty()
    } else {
        Seq::new((ws.len() - 1) as nat, |i: int| Line { point1: ws[i], point2: ws[i + 1] })
    }
}

impl Path {
    pub fn new(waypoints: Vec<Point>) -> (p: Path)
        ensures
            p.waypoints@ == waypoints@,
    {
        Path { waypoints }
    }

    /// Appends one waypoint to the end of the path.
    pub fn add(&mut self, waypoint: Point)
        requires
            old(self).waypoints@.len() < usize::MAX,
        ensures
            final(self).waypoints@ == old(self).waypoints@.push(waypoint),
    {
        self.waypoints.push(waypoint);
    }

    /// Appends every given waypoint, in order, to the end of the path.
    pub fn append(&mut self, waypoints: Vec<Point>)
        requires
            old(self).waypoints@.len() + waypoints@.len() <= usize::MAX,
        ensures
            final(self).waypoints@ == old(self).waypoints@ + waypoints@,
    {
        let mut i: usize = 0;
        let n: usize = waypoints.len();
        while i < n
            invariant
                i <= n,
                n == waypoints@.len(),
                old(self).waypoints@.len() + n <= usize::MAX,
                self.waypoints@ == old(self).waypoints@ + waypoints@.take(i as int),
            decreases n - i,
        {
            self.waypoints.push(waypoints[i]);
            proof {
                assert(waypoints@.take(i + 1) == waypoints@.take(i as int).push(waypoints@[i as int]));
                assert(old(self).waypoints@ + waypoints@.take(i + 1) == (old(self).waypoints@
                    + waypoints@.take(i as int)).push(waypoints@[i as int]));
            }
            i = i + 1;
        }
        proof {
            assert(waypoints@.take(n as int) == waypoints@);
        }
    }

    /// Removes the waypoint at index `t`, shifting later waypoints forward.
    pub fn remove(&mut self, t: usize)
        requires
            t < old(self).waypoints@.len(),
        ensures
            final(self).waypoints@ == old(self).waypoints@.remove(t as int),
    {
        self.waypoints.remove(t);
    }

    /// The path's line segments, one per pair of consecutive waypoints.
    pub fn get_lines(&self) -> (lines: Vec<Line>)
        ensures
            lines@ == lines_of(self.waypoints@),
    {
        let mut lines: Vec<Line> = Vec::new();
        let n: usize = self.waypoints.len();
        if n < 2 {
            return lines;
        }
        let mut i: usize = 0;
        while i < n - 1
            invariant
                2 <= n,
                n == self.waypoints@.len(),
                i <= n - 1,
                lines@.len() == i,
                forall|j: int|
                    0 <= j < i ==> lines@[j] == (Line {
                        point1: self.waypoints@[j],
                        point2: self.waypoints@[j + 1],
                    }),
            decreases n - 1 - i,
        {
            lines.push(
                Line { point1: self.waypoints[i], point2: self.waypoints[i + 1] },
            );
            i = i + 1;
        }
        proof {
            assert(lines@ =~= lines_of(self.waypoints@));
        }
        lines
    }
}

} // verus!
