//! From one shape of the layout model to one GDS element.
use vstd::prelude::*;
use crate::error::ErrorKind;
use crate::gds::{
    BoundaryView, ElementView, GdsBoundary, GdsElement, GdsPath, GdsPoint, GdsProperty, PathView,
    properties_view,
};
use crate::geometry::{Geometry, Path, PathEndType, Point, Rect, SimplePolygon};

verus! {

/// The GDS point at the place of a layout point.
pub open spec fn gds_point(p: Point) -> GdsPoint {
    GdsPoint { x: p.x, y: p.y }
}

/// The GDS points at the places of a sequence of layout points.
pub open spec fn gds_points(s: Seq<Point>) -> Seq<GdsPoint> {
    Seq::new(s.len(), |i: int| gds_point(s[i]))
}

/// The vertices followed by the first vertex again; empty where there is no
/// vertex.
pub open spec fn closed_ring(s: Seq<Point>) -> Seq<GdsPoint> {
    if s.len() == 0 {
        Seq::empty()
    } else {
        gds_points(s).push(gds_point(s[0]))
    }
}

/// The corners of a rectangle from the lower left one counter-clockwise, and
/// the lower left one again.
pub open spec fn rect_ring(r: Rect) -> Seq<GdsPoint> {
    seq![
        GdsPoint { x: r.lower_left.x, y: r.lower_left.y },
        GdsPoint { x: r.upper_right.x, y: r.lower_left.y },
        GdsPoint { x: r.upper_right.x, y: r.upper_right.y },
        GdsPoint { x: r.lower_left.x, y: r.upper_right.y },
        GdsPoint { x: r.lower_left.x, y: r.lower_left.y },
    ]
}

/// The GDS path type and the two extensions for an end style: 0 for flat
/// ends, 1 for round ends, 2 for ends extended by the same length at both
/// sides. Ends extended by two different lengths have no GDS path type.
pub open spec fn path_ends(t: PathEndType) -> Option<(i16, Option<i32>, Option<i32>)> {
    match t {
        PathEndType::Flat => Some((0i16, None, None)),
        PathEndType::Round => Some((1i16, None, None)),
        PathEndType::Extended(b, e) => if b == e {
            Some((2i16, Some(b), Some(e)))
        } else {
            None
        },
    }
}

/// The boundary that a ring of vertices becomes.
pub open spec fn polygon_boundary(points: Seq<Point>, layer: i16, datatype: i16) -> BoundaryView {
    BoundaryView { layer, datatype, xy: closed_ring(points), properties: Seq::empty() }
}

/// The boundary that a rectangle becomes.
pub open spec fn rect_boundary(r: Rect, layer: i16, datatype: i16) -> BoundaryView {
    BoundaryView { layer, datatype, xy: rect_ring(r), properties: Seq::empty() }
}

/// The GDS path that a path becomes, where its end style has a GDS path type.
pub open spec fn path_element(
    path: Path,
    layer: i16,
    datatype: i16,
    properties: Seq<GdsProperty>,
) -> Result<PathView, ErrorKind> {
    match path_ends(path.path_type) {
        Some((code, begin, end)) => Ok(
            PathView {
                layer,
                datatype,
                xy: gds_points(path.points@),
                width: Some(path.width),
                path_type: Some(code),
                begin_extn: begin,
                end_extn: end,
                properties: properties_view(properties),
            },
        ),
        None => Err(ErrorKind::UnrepresentableGeometry),
    }
}

/// The element that a shape becomes on a layer: a boundary for a rectangle
/// and for a polygon (of a polygon with holes, the outer ring alone), a path
/// for a path. Points, edges and texts have no element. Boundaries carry
/// datatype 0 and no properties; a path carries the properties given.
pub open spec fn shape_element(shape: Geometry, layer: i16, properties: Seq<GdsProperty>) -> Result<
    ElementView,
    ErrorKind,
> {
    match shape {
        Geometry::SimplePolygon(p) => Ok(ElementView::Boundary(polygon_boundary(p.points@, layer, 0))),
        Geometry::SimpleRPolygon(p) => Ok(
            ElementView::Boundary(polygon_boundary(p.points@, layer, 0)),
        ),
        Geometry::Polygon(p) => Ok(
            ElementView::Boundary(polygon_boundary(p.exterior.points@, layer, 0)),
        ),
        Geometry::Rect(r) => Ok(ElementView::Boundary(rect_boundary(r, layer, 0))),
        Geometry::Path(p) => match path_element(p, layer, 0, properties) {
            Ok(v) => Ok(ElementView::Path(v)),
            Err(e) => Err(e),
        },
        _ => Err(ErrorKind::UnrepresentableGeometry),
    }
}

/// Copies layout points to GDS points.
fn convert_points(points: &Vec<Point>) -> (out: Vec<GdsPoint>)
    ensures
        out@ == gds_points(points@),
{
    let mut out: Vec<GdsPoint> = Vec::new();
    let mut i: usize = 0;
    while i < points.len()
        invariant
            i <= points.len(),
            out.len() == i,
            forall|k: int| 0 <= k < i ==> out[k] == gds_point(#[trigger] points[k]),
        decreases points.len() - i,
    {
        let p = points[i];
        out.push(GdsPoint { x: p.x, y: p.y });
        i += 1;
    }
    assert(out@ =~= gds_points(points@));
    out
}

/// Converts a polygon without holes to a boundary: its vertices in order, and
/// the first vertex once more to close the ring. A polygon without vertices
/// gives a boundary without points. The boundary carries no properties: those
/// given are dropped.
pub fn polygon_to_gds_element(
    poly: &SimplePolygon,
    layer_index: i16,
    data_type: i16,
    properties: Vec<GdsProperty>,
) -> (r: GdsBoundary)
    ensures
        r@ == polygon_boundary(poly.points@, layer_index, data_type),
        poly.points.len() > 0 ==> r.xy.len() == poly.points.len() + 1 && r.xy@.first()
            == r.xy@.last(),
{
    let mut points = convert_points(&poly.points);
    if points.len() > 0 {
        let first = points[0];
        points.push(first);
    }
    let r = GdsBoundary { layer: layer_index, datatype: data_type, xy: points, properties: Vec::new() };
    assert(r.xy@ =~= closed_ring(poly.points@));
    assert(properties_view(r.properties@) =~= Seq::empty());
    r
}

/// Converts a rectangle to a boundary of five points: lower left, lower
/// right, upper right, upper left, lower left. The boundary carries no
/// properties: those given are dropped.
pub fn rect_to_gds_element(
    rect: &Rect,
    layer_index: i16,
    data_type: i16,
    properties: Vec<GdsProperty>,
) -> (r: GdsBoundary)
    ensures
        r@ == rect_boundary(*rect, layer_index, data_type),
{
    let ll = rect.lower_left();
    let lr = rect.lower_right();
    let ur = rect.upper_right();
    let ul = rect.upper_left();
    let mut xy: Vec<GdsPoint> = Vec::new();
    xy.push(GdsPoint { x: ll.x, y: ll.y });
    xy.push(GdsPoint { x: lr.x, y: lr.y });
    xy.push(GdsPoint { x: ur.x, y: ur.y });
    xy.push(GdsPoint { x: ul.x, y: ul.y });
    xy.push(GdsPoint { x: ll.x, y: ll.y });
    let r = GdsBoundary { layer: layer_index, datatype: data_type, xy, properties: Vec::new() };
    assert(r.xy@ =~= rect_ring(*rect));
    assert(properties_view(r.properties@) =~= Seq::empty());
    r
}

/// Converts a path to a GDS path with the same points, width and properties.
/// Flat ends become path type 0, round ends path type 1, ends extended by the
/// same length at both sides path type 2 with that length as both extensions.
/// Ends extended by two different lengths are refused.
pub fn path_to_gds_path(
    path: &Path,
    layer_index: i16,
    datatype: i16,
    properties: Vec<GdsProperty>,
) -> (r: Result<GdsPath, ErrorKind>)
    ensures
        match r {
            Ok(p) => path_element(*path, layer_index, datatype, properties@) == Ok::<
                PathView,
                ErrorKind,
            >(p@),
            Err(e) => path_element(*path, layer_index, datatype, properties@) == Err::<
                PathView,
                ErrorKind,
            >(e),
        },
{
    let (path_type, begin_extn, end_extn): (i16, Option<i32>, Option<i32>) = match path.path_type {
        PathEndType::Flat => (0, None, None),
        PathEndType::Extended(b, e) => {
            if b != e {
                return Err(ErrorKind::UnrepresentableGeometry);
            }
            (2, Some(b), Some(e))
        },
        PathEndType::Round => (1, None, None),
    };
    let points = convert_points(&path.points);
    Ok(
        GdsPath {
            layer: layer_index,
            datatype,
            xy: points,
            width: Some(path.width),
            path_type: Some(path_type),
            begin_extn,
            end_extn,
            properties,
        },
    )
}

/// Converts one shape to the GDS element that draws it on the layer given.
/// A shape that GDS cannot draw is refused, and so is a path whose ends GDS
/// cannot express.
pub fn shape_to_gds_element(shape: &Geometry, layer_index: i16, properties: Vec<GdsProperty>) -> (r:
    Result<GdsElement, ErrorKind>)
    ensures
        match r {
            Ok(e) => shape_element(*shape, layer_index, properties@) == Ok::<ElementView, ErrorKind>(
                e@,
            ),
            Err(k) => shape_element(*shape, layer_index, properties@) == Err::<
                ElementView,
                ErrorKind,
            >(k),
        },
{
    match shape {
        Geometry::SimplePolygon(poly) => Ok(
            GdsElement::GdsBoundary(polygon_to_gds_element(poly, layer_index, 0i16, properties)),
        ),
        Geometry::SimpleRPolygon(rpoly) => {
            let poly = rpoly.to_simple_polygon();
            Ok(GdsElement::GdsBoundary(polygon_to_gds_element(&poly, layer_index, 0i16, properties)))
        },
        Geometry::Polygon(polygon) => Ok(
            GdsElement::GdsBoundary(
                polygon_to_gds_element(&polygon.exterior, layer_index, 0i16, properties),
            ),
        ),
        Geometry::Rect(rect) => Ok(
            GdsElement::GdsBoundary(rect_to_gds_element(rect, layer_index, 0i16, properties)),
        ),
        Geometry::Path(path) => match path_to_gds_path(path, layer_index, 0i16, properties) {
            Ok(p) => Ok(GdsElement::GdsPath(p)),
            Err(e) => Err(e),
        },
        _ => Err(ErrorKind::UnrepresentableGeometry),
    }
}

} // verus!
