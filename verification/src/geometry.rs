//! The shapes of the layout model.
use vstd::prelude::*;

verus! {

/// A point of the layout plane.
#[derive(Clone, Copy, Debug, PartialEq, Eq, Structural)]
pub struct Point {
    pub x: i32,
    pub y: i32,
}

/// A line segment.
#[derive(Clone, Copy, Debug, PartialEq, Eq, Structural)]
pub struct Edge {
    pub start: Point,
    pub end: Point,
}

/// An axis-parallel rectangle, given by two opposite corners.
#[derive(Clone, Copy, Debug, PartialEq, Eq, Structural)]
pub struct Rect {
    pub lower_left: Point,
    pub upper_right: Point,
}

/// A polygon without holes, given by its vertices.
#[derive(Clone, Debug, PartialEq, Eq)]
pub struct SimplePolygon {
    pub points: Vec<Point>,
}

/// A polygon without holes whose edges are axis-parallel. Its points are the
/// vertices of the ring in the order in which it is drawn, from the vertex at
/// which the conversion of a rectilinear polygon to a general one
/// (`to_simple_polygon` of `iron_shapes`) lets the ring start. That
/// conversion is made where the model is filled in, not here.
#[derive(Clone, Debug, PartialEq, Eq)]
pub struct SimpleRPolygon {
    pub points: Vec<Point>,
}

/// A polygon with holes.
#[derive(Clone, Debug, PartialEq, Eq)]
pub struct Polygon {
    pub exterior: SimplePolygon,
    pub interiors: Vec<SimplePolygon>,
}

/// How a path ends.
#[derive(Clone, Copy, Debug, PartialEq, Eq, Structural)]
pub enum PathEndType {
    /// The path stops at its first and last point.
    Flat,
    /// The path goes on beyond its first and its last point by these lengths.
    Extended(i32, i32),
    /// The path ends in half circles.
    Round,
}

/// A chain of line segments drawn with a width.
#[derive(Clone, Debug, PartialEq, Eq)]
pub struct Path {
    pub points: Vec<Point>,
    pub width: i32,
    pub path_type: PathEndType,
}

/// A label at a point.
#[derive(Clone, Debug, PartialEq, Eq)]
pub struct Text {
    pub text: String,
    pub location: Point,
}

/// One shape of a cell.
#[derive(Clone, Debug, PartialEq, Eq)]
pub enum Geometry {
    Point(Point),
    Edge(Edge),
    Rect(Rect),
    SimplePolygon(SimplePolygon),
    SimpleRPolygon(SimpleRPolygon),
    Polygon(Polygon),
    Path(Path),
    Text(Text),
}

impl Rect {
    /// Whether the corner called lower left is below and left of the other.
    pub open spec fn wf(&self) -> bool {
        self.lower_left.x <= self.upper_right.x && self.lower_left.y <= self.upper_right.y
    }

    /// The extent along the x-axis.
    pub open spec fn width(&self) -> int {
        self.upper_right.x - self.lower_left.x
    }

    /// The extent along the y-axis.
    pub open spec fn height(&self) -> int {
        self.upper_right.y - self.lower_left.y
    }

    /// The rectangle that spans two points, in whatever order they come.
    pub fn new(c1: Point, c2: Point) -> (r: Rect)
        ensures
            r.wf(),
            r.lower_left.x == (if c1.x < c2.x { c1.x } else { c2.x }),
            r.lower_left.y == (if c1.y < c2.y { c1.y } else { c2.y }),
            r.upper_right.x == (if c1.x < c2.x { c2.x } else { c1.x }),
            r.upper_right.y == (if c1.y < c2.y { c2.y } else { c1.y }),
    {
        let (x1, x2) = if c1.x < c2.x { (c1.x, c2.x) } else { (c2.x, c1.x) };
        let (y1, y2) = if c1.y < c2.y { (c1.y, c2.y) } else { (c2.y, c1.y) };
        Rect { lower_left: Point { x: x1, y: y1 }, upper_right: Point { x: x2, y: y2 } }
    }

    pub fn lower_left(&self) -> (p: Point)
        ensures
            p == self.lower_left,
    {
        self.lower_left
    }

    pub fn lower_right(&self) -> (p: Point)
        ensures
            p == (Point { x: self.upper_right.x, y: self.lower_left.y }),
    {
        Point { x: self.upper_right.x, y: self.lower_left.y }
    }

    pub fn upper_right(&self) -> (p: Point)
        ensures
            p == self.upper_right,
    {
        self.upper_right
    }

    pub fn upper_left(&self) -> (p: Point)
        ensures
            p == (Point { x: self.lower_left.x, y: self.upper_right.y }),
    {
        Point { x: self.lower_left.x, y: self.upper_right.y }
    }
}

impl SimpleRPolygon {
    /// The same ring as a general polygon without holes: the same vertices in
    /// the same order, from the same vertex.
    pub fn to_simple_polygon(&self) -> (p: SimplePolygon)
        ensures
            p.points@ == self.points@,
    {
        let mut points: Vec<Point> = Vec::new();
        let mut i: usize = 0;
        while i < self.points.len()
            invariant
                i <= self.points.len(),
                points@ == self.points@.take(i as int),
            decreases self.points.len() - i,
        {
            points.push(self.points[i]);
            i += 1;
        }
        SimplePolygon { points }
    }
}

} // verus!
