use gdsu::error::ErrorKind;
use gdsu::export::{chip_cell_to_gds_struct, chip_to_gds_library};
use gdsu::gds::{
    GdsBoundary, GdsElement, GdsPath, GdsPoint, GdsProperty, GdsStrans, GdsStruct, GdsStructRef,
};
use gdsu::geometry::{Geometry, Path, PathEndType, Point, Rect, SimplePolygon};
use gdsu::layout::{Cell, CellInstance, Layer, LayoutModel, Net, Shape};
use gdsu::transform::{Angle, Transform};

fn p(x: i32, y: i32) -> Point {
    Point { x, y }
}

fn g(x: i32, y: i32) -> GdsPoint {
    GdsPoint { x, y }
}

fn rect(x0: i32, y0: i32, x1: i32, y1: i32) -> Rect {
    Rect { lower_left: p(x0, y0), upper_right: p(x1, y1) }
}

fn rect_shape(layer: usize, x0: i32, y0: i32, x1: i32, y1: i32) -> Shape {
    Shape { layer, geometry: Geometry::Rect(rect(x0, y0, x1, y1)) }
}

fn ring(layer: i16, x0: i32, y0: i32, x1: i32, y1: i32) -> GdsElement {
    GdsElement::GdsBoundary(GdsBoundary {
        layer,
        datatype: 0,
        xy: vec![g(x0, y0), g(x1, y0), g(x1, y1), g(x0, y1), g(x0, y0)],
        properties: vec![],
    })
}

fn layers() -> Vec<Layer> {
    vec![
        Layer { name: Some("metal1".to_string()), index: 11 },
        Layer { name: Some("OUTLINE".to_string()), index: 20 },
        Layer { name: None, index: 35 },
    ]
}

fn instance(template: usize, name: Option<&str>, mirror: bool, rotation: Angle, x: i32, y: i32) -> CellInstance {
    CellInstance {
        template,
        transform: Transform { mirror, rotation, magnification: 1, displacement: p(x, y) },
        name: name.map(|n| n.to_string()),
    }
}

fn cell(name: &str, shapes: Vec<Shape>, instances: Vec<CellInstance>, bounding_box: Option<Rect>) -> Cell {
    Cell { name: name.to_string(), shapes, instances, nets: vec![], bounding_box }
}

fn placed(name: &str, x: i32, y: i32, reflected: bool, angle: Angle, label: &str) -> GdsElement {
    GdsElement::GdsStructRef(GdsStructRef {
        name: name.to_string(),
        xy: g(x, y),
        strans: Some(GdsStrans {
            reflected,
            abs_mag: true,
            abs_angle: false,
            mag: Some(1),
            angle: Some(angle),
        }),
        properties: vec![GdsProperty { attr: 1, value: label.to_string() }],
    })
}

/// TOP (cell 0) places A (cell 1) twice and B (cell 2) once; A places B; C
/// (cell 3) takes no part.
fn chip() -> LayoutModel {
    LayoutModel {
        layers: layers(),
        cells: vec![
            Cell {
                name: "TOP".to_string(),
                shapes: vec![rect_shape(0, 1, 2, 3, 4), rect_shape(1, 0, 0, 500, 400)],
                instances: vec![
                    instance(1, Some("u1"), true, Angle::R90, 100, 200),
                    instance(1, None, false, Angle::R180, 10, 20),
                    instance(2, Some("u3"), false, Angle::R0, 7, 8),
                ],
                nets: vec![
                    Net { constant: false, shapes: vec![rect_shape(2, 5, 5, 6, 6)] },
                    Net { constant: true, shapes: vec![rect_shape(0, 7, 7, 8, 8)] },
                    Net {
                        constant: false,
                        shapes: vec![rect_shape(0, 9, 9, 10, 10), rect_shape(2, 11, 11, 12, 12)],
                    },
                ],
                bounding_box: Some(rect(0, 0, 500, 400)),
            },
            cell(
                "A",
                vec![rect_shape(0, 0, 0, 50, 30)],
                vec![instance(2, Some("inner"), false, Angle::R270, 1, 1)],
                Some(rect(0, 0, 50, 30)),
            ),
            cell("B", vec![rect_shape(2, 0, 0, 4, 6)], vec![], Some(rect(0, 0, 4, 6))),
            cell("C", vec![rect_shape(0, 0, 0, 1, 1)], vec![], Some(rect(0, 0, 1, 1))),
        ],
    }
}

#[test]
fn cell_becomes_a_structure_of_shapes_then_references() {
    let s = chip_cell_to_gds_struct(&chip(), 1).unwrap();
    assert_eq!(
        s,
        GdsStruct {
            name: "A".to_string(),
            elems: vec![ring(11, 0, 0, 50, 30), placed("B", 1, 5, false, Angle::R270, "inner")],
        }
    );
}

#[test]
fn reference_records_the_instance_or_the_cell() {
    let s = chip_cell_to_gds_struct(&chip(), 0).unwrap();
    assert_eq!(
        s.elems,
        vec![
            ring(11, 1, 2, 3, 4),
            ring(20, 0, 0, 500, 400),
            placed("A", 100, 200, true, Angle::R270, "u1"),
            placed("A", 60, 50, false, Angle::R180, "A"),
            placed("B", 7, 8, false, Angle::R0, "u3"),
        ]
    );
}

#[test]
fn magnification_is_carried_through() {
    let mut model = chip();
    model.cells[1].instances[0].transform.magnification = 3;
    let s = chip_cell_to_gds_struct(&model, 1).unwrap();
    match &s.elems[1] {
        GdsElement::GdsStructRef(r) => assert_eq!(r.strans.unwrap().mag, Some(3)),
        other => panic!("unexpected element {:?}", other),
    }
}

#[test]
fn cell_without_a_name_gets_the_placeholder() {
    let mut model = chip();
    model.cells[2].name = String::new();
    let s = chip_cell_to_gds_struct(&model, 2).unwrap();
    assert_eq!(s.name, "Unnamed Cell");
    let parent = chip_cell_to_gds_struct(&model, 1).unwrap();
    match &parent.elems[1] {
        GdsElement::GdsStructRef(r) => assert_eq!(r.name, "Unnamed Cell"),
        other => panic!("unexpected element {:?}", other),
    }
}

#[test]
fn cell_outside_the_model_is_unresolved() {
    let err = chip_cell_to_gds_struct(&chip(), 4).unwrap_err();
    assert_eq!(err.kind, ErrorKind::UnresolvedReference);
    assert_eq!(err.name, "");
}

#[test]
fn instance_of_a_missing_cell_is_unresolved() {
    let mut model = chip();
    model.cells[1].instances.push(instance(9, Some("ghost"), false, Angle::R0, 0, 0));
    let err = chip_cell_to_gds_struct(&model, 1).unwrap_err();
    assert_eq!(err.kind, ErrorKind::UnresolvedReference);
    assert_eq!(err.name, "ghost");
    model.cells[1].instances[1].name = None;
    let err = chip_cell_to_gds_struct(&model, 1).unwrap_err();
    assert_eq!(err.kind, ErrorKind::UnresolvedReference);
    assert_eq!(err.name, "A");
}

#[test]
fn instance_of_a_cell_without_a_box_fails() {
    let mut model = chip();
    model.cells[2].bounding_box = None;
    let err = chip_cell_to_gds_struct(&model, 1).unwrap_err();
    assert_eq!(err.kind, ErrorKind::EmptyBoundingBox);
    assert_eq!(err.name, "B");
    let err = chip_to_gds_library(&model, 0).unwrap_err();
    assert_eq!(err.kind, ErrorKind::EmptyBoundingBox);
}

#[test]
fn shape_without_an_element_fails_under_the_name_of_the_cell() {
    let mut model = chip();
    model.cells[1].shapes.push(Shape { layer: 0, geometry: Geometry::Point(p(0, 0)) });
    let err = chip_cell_to_gds_struct(&model, 1).unwrap_err();
    assert_eq!(err.kind, ErrorKind::UnrepresentableGeometry);
    assert_eq!(err.name, "A");
    let err = chip_to_gds_library(&model, 0).unwrap_err();
    assert_eq!(err.kind, ErrorKind::UnrepresentableGeometry);
    assert_eq!(err.name, "A");
}

#[test]
fn library_holds_the_members_and_the_top_cell_last() {
    let lib = chip_to_gds_library(&chip(), 0).unwrap();
    assert_eq!(lib.name, "TOP");
    let names: Vec<&str> = lib.structs.iter().map(|s| s.name.as_str()).collect();
    assert_eq!(names, vec!["A", "B", "TOP"]);
    assert_eq!(lib.structs[0], chip_cell_to_gds_struct(&chip(), 1).unwrap());
    assert_eq!(lib.structs[1], chip_cell_to_gds_struct(&chip(), 2).unwrap());
    assert_eq!(
        lib.structs[2],
        GdsStruct {
            name: "TOP".to_string(),
            elems: vec![
                ring(20, 0, 0, 500, 400),
                ring(11, 1, 2, 3, 4),
                ring(20, 0, 0, 500, 400),
                ring(35, 5, 5, 6, 6),
                ring(11, 9, 9, 10, 10),
                ring(35, 11, 11, 12, 12),
                placed("A", 100, 200, true, Angle::R270, "u1"),
                placed("A", 60, 50, false, Angle::R180, "A"),
                placed("B", 7, 8, false, Angle::R0, "u3"),
            ],
        }
    );
}

#[test]
fn every_reference_names_a_structure_of_the_library() {
    let lib = chip_to_gds_library(&chip(), 0).unwrap();
    let names: Vec<&str> = lib.structs.iter().map(|s| s.name.as_str()).collect();
    for s in &lib.structs {
        for e in &s.elems {
            if let GdsElement::GdsStructRef(r) = e {
                assert!(names.contains(&r.name.as_str()));
            }
        }
    }
}

#[test]
fn cell_with_instances_is_a_member_even_if_nothing_places_it() {
    let lib = chip_to_gds_library(&chip(), 1).unwrap_err();
    assert_eq!(lib.kind, ErrorKind::AmbiguousBoundary);
    let mut model = chip();
    model.cells[1].shapes.push(rect_shape(1, 0, 0, 50, 30));
    let lib = chip_to_gds_library(&model, 1).unwrap();
    let names: Vec<&str> = lib.structs.iter().map(|s| s.name.as_str()).collect();
    assert_eq!(names, vec!["TOP", "B", "A"]);
    assert_eq!(lib.name, "A");
}

#[test]
fn top_cell_outside_the_model_is_unresolved() {
    let err = chip_to_gds_library(&chip(), 17).unwrap_err();
    assert_eq!(err.kind, ErrorKind::UnresolvedReference);
}

#[test]
fn missing_outline_layer_fails() {
    let mut model = chip();
    model.layers[1].name = Some("outline".to_string());
    let err = chip_to_gds_library(&model, 0).unwrap_err();
    assert_eq!(err.kind, ErrorKind::MissingBoundaryLayer);
    assert_eq!(err.name, "OUTLINE");
    model.layers[1].name = None;
    let err = chip_to_gds_library(&model, 0).unwrap_err();
    assert_eq!(err.kind, ErrorKind::MissingBoundaryLayer);
}

#[test]
fn no_outline_shape_fails() {
    let mut model = chip();
    model.cells[0].shapes.remove(1);
    let err = chip_to_gds_library(&model, 0).unwrap_err();
    assert_eq!(err.kind, ErrorKind::AmbiguousBoundary);
    assert_eq!(err.name, "TOP");
}

#[test]
fn two_outline_shapes_fail() {
    let mut model = chip();
    model.cells[0].shapes.push(rect_shape(1, 0, 0, 5, 4));
    let err = chip_to_gds_library(&model, 0).unwrap_err();
    assert_eq!(err.kind, ErrorKind::AmbiguousBoundary);
    assert_eq!(err.name, "TOP");
}

#[test]
fn one_outline_shape_succeeds() {
    assert!(chip_to_gds_library(&chip(), 0).is_ok());
}

#[test]
fn first_outline_layer_counts() {
    let mut model = chip();
    model.layers.push(Layer { name: Some("OUTLINE".to_string()), index: 99 });
    model.cells[0].shapes.push(rect_shape(3, 0, 0, 1, 1));
    let lib = chip_to_gds_library(&model, 0).unwrap();
    assert_eq!(lib.structs[2].elems[0], ring(20, 0, 0, 500, 400));
}

#[test]
fn outline_shape_that_cannot_be_drawn_fails() {
    let mut model = chip();
    model.cells[0].shapes[1] = Shape { layer: 1, geometry: Geometry::Point(p(0, 0)) };
    let err = chip_to_gds_library(&model, 0).unwrap_err();
    assert_eq!(err.kind, ErrorKind::UnrepresentableGeometry);
    assert_eq!(err.name, "TOP");
}

#[test]
fn net_shape_that_cannot_be_drawn_fails_unless_the_net_is_constant() {
    let bad = Path { points: vec![p(0, 0), p(5, 0)], width: 2, path_type: PathEndType::Extended(1, 2) };
    let mut model = chip();
    model.cells[0].nets[1].shapes.push(Shape { layer: 0, geometry: Geometry::Path(bad.clone()) });
    assert!(chip_to_gds_library(&model, 0).is_ok());
    model.cells[0].nets[2].shapes.push(Shape { layer: 0, geometry: Geometry::Path(bad) });
    let err = chip_to_gds_library(&model, 0).unwrap_err();
    assert_eq!(err.kind, ErrorKind::UnrepresentableGeometry);
    assert_eq!(err.name, "TOP");
}

#[test]
fn net_path_is_exported_as_a_path() {
    let mut model = chip();
    let good = Path { points: vec![p(0, 0), p(5, 0)], width: 2, path_type: PathEndType::Round };
    model.cells[0].nets[0].shapes.push(Shape { layer: 0, geometry: Geometry::Path(good) });
    let lib = chip_to_gds_library(&model, 0).unwrap();
    assert_eq!(
        lib.structs[2].elems[4],
        GdsElement::GdsPath(GdsPath {
            layer: 11,
            datatype: 0,
            xy: vec![g(0, 0), g(5, 0)],
            width: Some(2),
            path_type: Some(1),
            begin_extn: None,
            end_extn: None,
            properties: vec![],
        })
    );
}

#[test]
fn polygon_shapes_are_exported_closed() {
    let mut model = chip();
    model.cells[2].shapes = vec![Shape {
        layer: 0,
        geometry: Geometry::SimplePolygon(SimplePolygon { points: vec![p(0, 0), p(4, 0), p(0, 4)] }),
    }];
    let s = chip_cell_to_gds_struct(&model, 2).unwrap();
    match &s.elems[0] {
        GdsElement::GdsBoundary(b) => {
            assert_eq!(b.xy, vec![g(0, 0), g(4, 0), g(0, 4), g(0, 0)]);
        }
        other => panic!("unexpected element {:?}", other),
    }
}

#[test]
fn valid_model_is_told_from_an_invalid_one() {
    assert!(chip().is_valid());
    let mut bad_layer = chip();
    bad_layer.cells[3].shapes.push(rect_shape(3, 0, 0, 1, 1));
    assert!(!bad_layer.is_valid());
    let mut bad_net = chip();
    bad_net.cells[0].nets[1].shapes.push(rect_shape(7, 0, 0, 1, 1));
    assert!(!bad_net.is_valid());
    let mut far = chip();
    far.cells[0].instances[1].transform.displacement = p(i32::MAX, 0);
    assert!(!far.is_valid());
    let mut dangling = chip();
    dangling.cells[0].instances[1].template = 40;
    assert!(dangling.is_valid());
    let mut boxless = chip();
    boxless.cells[1].bounding_box = None;
    boxless.cells[0].instances[1].transform.displacement = p(i32::MAX, 0);
    assert!(boxless.is_valid());
    assert!(LayoutModel { layers: vec![], cells: vec![] }.is_valid());
}

#[test]
fn every_boundary_of_the_library_is_closed() {
    let mut model = chip();
    model.cells[1].shapes.push(Shape {
        layer: 2,
        geometry: Geometry::SimplePolygon(SimplePolygon { points: vec![p(0, 0), p(4, 0), p(0, 4)] }),
    });
    let lib = chip_to_gds_library(&model, 0).unwrap();
    let mut seen = 0;
    for s in &lib.structs {
        for e in &s.elems {
            if let GdsElement::GdsBoundary(b) = e {
                assert_eq!(b.xy.first(), b.xy.last());
                seen += 1;
            }
        }
    }
    assert_eq!(seen, 9);
}
