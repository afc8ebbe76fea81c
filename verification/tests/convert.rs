use gdsu::convert::{
    path_to_gds_path, polygon_to_gds_element, rect_to_gds_element, shape_to_gds_element,
};
use gdsu::error::ErrorKind;
use gdsu::gds::{GdsBoundary, GdsElement, GdsPath, GdsPoint, GdsProperty};
use gdsu::geometry::{
    Edge, Geometry, Path, PathEndType, Point, Polygon, Rect, SimplePolygon, SimpleRPolygon, Text,
};

fn p(x: i32, y: i32) -> Point {
    Point { x, y }
}

fn g(x: i32, y: i32) -> GdsPoint {
    GdsPoint { x, y }
}

fn property() -> GdsProperty {
    GdsProperty { attr: 7, value: "net".to_string() }
}

#[test]
fn rectangle_becomes_a_ring_of_five_points() {
    let rect = Rect { lower_left: p(1, 2), upper_right: p(5, 7) };
    let b = rect_to_gds_element(&rect, 4, 3, vec![]);
    assert_eq!(
        b,
        GdsBoundary {
            layer: 4,
            datatype: 3,
            xy: vec![g(1, 2), g(5, 2), g(5, 7), g(1, 7), g(1, 2)],
            properties: vec![],
        }
    );
}

#[test]
fn rectangle_spans_two_points_in_any_order() {
    let r = Rect::new(p(5, 2), p(1, 7));
    assert_eq!(r, Rect { lower_left: p(1, 2), upper_right: p(5, 7) });
    assert_eq!(Rect::new(p(1, 2), p(5, 7)), r);
    assert_eq!(r.lower_left(), p(1, 2));
    assert_eq!(r.lower_right(), p(5, 2));
    assert_eq!(r.upper_right(), p(5, 7));
    assert_eq!(r.upper_left(), p(1, 7));
}

#[test]
fn polygon_ring_is_closed() {
    let poly = SimplePolygon { points: vec![p(0, 0), p(10, 0), p(10, 5), p(3, 9)] };
    let b = polygon_to_gds_element(&poly, 2, 0, vec![]);
    assert_eq!(b.xy, vec![g(0, 0), g(10, 0), g(10, 5), g(3, 9), g(0, 0)]);
    assert_eq!(b.xy.len(), poly.points.len() + 1);
    assert_eq!(b.xy.first(), b.xy.last());
    assert_eq!(b.layer, 2);
    assert_eq!(b.datatype, 0);
}

#[test]
fn polygon_of_one_point_is_closed() {
    let poly = SimplePolygon { points: vec![p(4, -4)] };
    let b = polygon_to_gds_element(&poly, 2, 1, vec![]);
    assert_eq!(b.xy, vec![g(4, -4), g(4, -4)]);
}

#[test]
fn polygon_without_points_gives_an_empty_boundary() {
    let poly = SimplePolygon { points: vec![] };
    let b = polygon_to_gds_element(&poly, 2, 1, vec![]);
    assert_eq!(b, GdsBoundary { layer: 2, datatype: 1, xy: vec![], properties: vec![] });
}

#[test]
fn boundary_drops_the_properties_given() {
    let poly = SimplePolygon { points: vec![p(0, 0), p(1, 1)] };
    assert!(polygon_to_gds_element(&poly, 2, 0, vec![property()]).properties.is_empty());
    let rect = Rect { lower_left: p(0, 0), upper_right: p(1, 1) };
    assert!(rect_to_gds_element(&rect, 2, 0, vec![property()]).properties.is_empty());
}

#[test]
fn path_with_flat_ends() {
    let path = Path { points: vec![p(0, 0), p(10, 0), p(10, 20)], width: 4, path_type: PathEndType::Flat };
    let r = path_to_gds_path(&path, 6, 2, vec![property()]).unwrap();
    assert_eq!(
        r,
        GdsPath {
            layer: 6,
            datatype: 2,
            xy: vec![g(0, 0), g(10, 0), g(10, 20)],
            width: Some(4),
            path_type: Some(0),
            begin_extn: None,
            end_extn: None,
            properties: vec![property()],
        }
    );
}

#[test]
fn path_with_round_ends() {
    let path = Path { points: vec![p(0, 0), p(10, 0)], width: 4, path_type: PathEndType::Round };
    let r = path_to_gds_path(&path, 6, 0, vec![]).unwrap();
    assert_eq!(r.path_type, Some(1));
    assert_eq!(r.begin_extn, None);
    assert_eq!(r.end_extn, None);
    assert_eq!(r.width, Some(4));
}

#[test]
fn path_with_equal_extensions() {
    let path = Path { points: vec![p(0, 0), p(10, 0)], width: 4, path_type: PathEndType::Extended(2, 2) };
    let r = path_to_gds_path(&path, 6, 0, vec![]).unwrap();
    assert_eq!(r.path_type, Some(2));
    assert_eq!(r.begin_extn, Some(2));
    assert_eq!(r.end_extn, Some(2));
}

#[test]
fn path_with_unequal_extensions_is_refused() {
    let path = Path { points: vec![p(0, 0), p(10, 0)], width: 4, path_type: PathEndType::Extended(2, 3) };
    assert_eq!(path_to_gds_path(&path, 6, 0, vec![]), Err(ErrorKind::UnrepresentableGeometry));
    assert_eq!(
        shape_to_gds_element(&Geometry::Path(path), 6, vec![]),
        Err(ErrorKind::UnrepresentableGeometry)
    );
}

#[test]
fn shape_of_each_kind() {
    let rect = Rect { lower_left: p(0, 0), upper_right: p(2, 3) };
    assert_eq!(
        shape_to_gds_element(&Geometry::Rect(rect), 9, vec![]).unwrap(),
        GdsElement::GdsBoundary(GdsBoundary {
            layer: 9,
            datatype: 0,
            xy: vec![g(0, 0), g(2, 0), g(2, 3), g(0, 3), g(0, 0)],
            properties: vec![],
        })
    );
    let ring = vec![p(0, 0), p(4, 0), p(4, 4)];
    let closed = vec![g(0, 0), g(4, 0), g(4, 4), g(0, 0)];
    let as_boundary = GdsElement::GdsBoundary(GdsBoundary {
        layer: 9,
        datatype: 0,
        xy: closed,
        properties: vec![],
    });
    assert_eq!(
        shape_to_gds_element(&Geometry::SimplePolygon(SimplePolygon { points: ring.clone() }), 9, vec![])
            .unwrap(),
        as_boundary
    );
    assert_eq!(
        shape_to_gds_element(&Geometry::SimpleRPolygon(SimpleRPolygon { points: ring.clone() }), 9, vec![])
            .unwrap(),
        as_boundary
    );
    let with_hole = Polygon {
        exterior: SimplePolygon { points: ring.clone() },
        interiors: vec![SimplePolygon { points: vec![p(1, 1), p(2, 1), p(2, 2)] }],
    };
    assert_eq!(shape_to_gds_element(&Geometry::Polygon(with_hole), 9, vec![]).unwrap(), as_boundary);
    let path = Path { points: vec![p(0, 0), p(5, 0)], width: 2, path_type: PathEndType::Flat };
    assert_eq!(
        shape_to_gds_element(&Geometry::Path(path), 9, vec![property()]).unwrap(),
        GdsElement::GdsPath(GdsPath {
            layer: 9,
            datatype: 0,
            xy: vec![g(0, 0), g(5, 0)],
            width: Some(2),
            path_type: Some(0),
            begin_extn: None,
            end_extn: None,
            properties: vec![property()],
        })
    );
}

#[test]
fn shape_without_an_element_is_refused() {
    assert_eq!(
        shape_to_gds_element(&Geometry::Point(p(1, 1)), 1, vec![]),
        Err(ErrorKind::UnrepresentableGeometry)
    );
    assert_eq!(
        shape_to_gds_element(&Geometry::Edge(Edge { start: p(0, 0), end: p(1, 1) }), 1, vec![]),
        Err(ErrorKind::UnrepresentableGeometry)
    );
    assert_eq!(
        shape_to_gds_element(
            &Geometry::Text(Text { text: "label".to_string(), location: p(0, 0) }),
            1,
            vec![]
        ),
        Err(ErrorKind::UnrepresentableGeometry)
    );
}

#[test]
fn rectilinear_polygon_keeps_its_vertices() {
    let r = SimpleRPolygon { points: vec![p(0, 0), p(4, 0), p(4, 4), p(0, 4)] };
    assert_eq!(r.to_simple_polygon(), SimplePolygon { points: vec![p(0, 0), p(4, 0), p(4, 4), p(0, 4)] });
}
