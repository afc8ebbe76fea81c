use gdsu::error::ErrorKind;
use gdsu::gds::{
    GdsArrayRef, GdsBoundary, GdsBox, GdsElement, GdsLibrary, GdsNode, GdsPath, GdsPoint, GdsStruct,
    GdsStructRef, GdsTextElem,
};
use gdsu::snap::{snap_to_grid, snap_to_grid_single};
use regex::RegexSet;

fn pt(x: i32, y: i32) -> GdsPoint {
    GdsPoint { x, y }
}

fn boundary(points: Vec<GdsPoint>) -> GdsElement {
    GdsElement::GdsBoundary(GdsBoundary { layer: 1, datatype: 0, xy: points, properties: vec![] })
}

fn sref(name: &str, x: i32, y: i32) -> GdsElement {
    GdsElement::GdsStructRef(GdsStructRef {
        name: name.to_string(),
        xy: pt(x, y),
        strans: None,
        properties: vec![],
    })
}

fn node(name: &str, elems: Vec<GdsElement>) -> GdsStruct {
    GdsStruct { name: name.to_string(), elems }
}

fn library(structs: Vec<GdsStruct>) -> GdsLibrary {
    GdsLibrary { name: "lib".to_string(), structs }
}

fn any() -> RegexSet {
    RegexSet::new([".*"]).unwrap()
}

#[test]
fn snaps_down_below_the_middle() {
    assert_eq!(snap_to_grid_single(1234, 10), 1230);
}

#[test]
fn snaps_up_at_the_middle() {
    assert_eq!(snap_to_grid_single(1235, 10), 1240);
}

#[test]
fn snaps_up_above_the_middle() {
    assert_eq!(snap_to_grid_single(1236, 10), 1240);
    assert_eq!(snap_to_grid_single(7, 5), 5);
    assert_eq!(snap_to_grid_single(8, 5), 10);
}

#[test]
fn negative_tie_goes_to_the_larger_multiple() {
    assert_eq!(snap_to_grid_single(-1235, 10), -1230);
    assert_eq!(snap_to_grid_single(-1236, 10), -1240);
    assert_eq!(snap_to_grid_single(-1234, 10), -1230);
    assert_eq!(snap_to_grid_single(-5, 10), 0);
    assert_eq!(snap_to_grid_single(-6, 10), -10);
}

#[test]
fn aligned_coordinate_is_kept() {
    for value in [-2000, -30, -10, 0, 10, 1230, 1240, 2147483640] {
        assert_eq!(snap_to_grid_single(value, 10), value);
    }
    for value in [-7, -1, 0, 1, 12345, i32::MAX, i32::MIN] {
        assert_eq!(snap_to_grid_single(value, 1), value);
    }
}

#[test]
fn snapping_twice_is_snapping_once() {
    for value in [-1235, -17, -1, 0, 3, 4, 5, 1234, 1235, 99999] {
        for grid in [1, 2, 3, 10, 1000] {
            let once = snap_to_grid_single(value, grid);
            assert_eq!(snap_to_grid_single(once, grid), once);
            assert_eq!(once % grid, 0);
        }
    }
}

#[test]
fn snap_stays_in_the_range_of_a_coordinate() {
    assert_eq!(snap_to_grid_single(i32::MAX, 10), i32::MAX);
    assert_eq!(snap_to_grid_single(i32::MIN, 10), i32::MIN);
    assert_eq!(snap_to_grid_single(i32::MAX, i32::MAX), i32::MAX);
    assert_eq!(snap_to_grid_single(1, i32::MAX), 0);
    assert_eq!(snap_to_grid_single(2147483644, 10), 2147483640);
}

#[test]
fn zero_grid_is_refused_before_any_change() {
    let mut lib = library(vec![node("TOP", vec![boundary(vec![pt(1234, 1235)])])]);
    let before = lib.clone();
    let err = snap_to_grid("TOP", 0, 1, &mut lib, &any(), 1).unwrap_err();
    assert_eq!(err.kind, ErrorKind::InvalidGridTolerance);
    assert_eq!(lib, before);
}

#[test]
fn negative_grid_is_refused_before_any_change() {
    let mut lib = library(vec![node("TOP", vec![boundary(vec![pt(1234, 1235)])])]);
    let before = lib.clone();
    let err = snap_to_grid("TOP", -10, 1, &mut lib, &any(), 1).unwrap_err();
    assert_eq!(err.kind, ErrorKind::InvalidGridTolerance);
    assert_eq!(lib, before);
}

#[test]
fn every_kind_of_element_is_snapped() {
    let elems = vec![
        boundary(vec![pt(1234, 1235), pt(4, 5), pt(1234, 1235)]),
        GdsElement::GdsPath(GdsPath {
            layer: 2,
            datatype: 0,
            xy: vec![pt(11, 19), pt(26, 24)],
            width: Some(7),
            path_type: Some(0),
            begin_extn: None,
            end_extn: None,
            properties: vec![],
        }),
        sref("A", 101, 105),
        GdsElement::GdsArrayRef(GdsArrayRef {
            name: "A".to_string(),
            xy: [pt(1, 2), pt(15, 16), pt(27, 33)],
            cols: 2,
            rows: 3,
            strans: None,
        }),
        GdsElement::GdsTextElem(GdsTextElem {
            string: "label".to_string(),
            layer: 3,
            texttype: 0,
            xy: pt(44, 45),
        }),
        GdsElement::GdsNode(GdsNode { layer: 4, nodetype: 0, xy: vec![pt(-4, -5), pt(-6, 6)] }),
        GdsElement::GdsBox(GdsBox {
            layer: 5,
            boxtype: 0,
            xy: [pt(0, 0), pt(9, 0), pt(9, 9), pt(0, 9), pt(0, 0)],
        }),
    ];
    let mut lib = library(vec![node("TOP", elems)]);
    snap_to_grid("TOP", 10, 1, &mut lib, &any(), 1).unwrap();
    let expected = vec![
        boundary(vec![pt(1230, 1240), pt(0, 10), pt(1230, 1240)]),
        GdsElement::GdsPath(GdsPath {
            layer: 2,
            datatype: 0,
            xy: vec![pt(10, 20), pt(30, 20)],
            width: Some(7),
            path_type: Some(0),
            begin_extn: None,
            end_extn: None,
            properties: vec![],
        }),
        sref("A", 100, 110),
        GdsElement::GdsArrayRef(GdsArrayRef {
            name: "A".to_string(),
            xy: [pt(0, 0), pt(20, 20), pt(30, 30)],
            cols: 2,
            rows: 3,
            strans: None,
        }),
        GdsElement::GdsTextElem(GdsTextElem {
            string: "label".to_string(),
            layer: 3,
            texttype: 0,
            xy: pt(40, 50),
        }),
        GdsElement::GdsNode(GdsNode { layer: 4, nodetype: 0, xy: vec![pt(0, 0), pt(-10, 10)] }),
        GdsElement::GdsBox(GdsBox {
            layer: 5,
            boxtype: 0,
            xy: [pt(0, 0), pt(10, 0), pt(10, 10), pt(0, 10), pt(0, 0)],
        }),
    ];
    assert_eq!(lib, library(vec![node("TOP", expected)]));
}

#[test]
fn only_structures_with_the_prefix_are_snapped() {
    let mut lib = library(vec![
        node("TOP", vec![boundary(vec![pt(4, 6)])]),
        node("TOP_B", vec![boundary(vec![pt(14, 16)])]),
        node("OTHER", vec![boundary(vec![pt(24, 26)])]),
        node("ATOP", vec![boundary(vec![pt(34, 36)])]),
    ]);
    snap_to_grid("TOP", 10, 1, &mut lib, &any(), 1).unwrap();
    assert_eq!(
        lib,
        library(vec![
            node("TOP", vec![boundary(vec![pt(0, 10)])]),
            node("TOP_B", vec![boundary(vec![pt(10, 20)])]),
            node("OTHER", vec![boundary(vec![pt(24, 26)])]),
            node("ATOP", vec![boundary(vec![pt(34, 36)])]),
        ])
    );
}

#[test]
fn reference_outside_the_filter_is_left_alone() {
    let re = RegexSet::new(["^A$"]).unwrap();
    let mut lib = library(vec![
        node("TOP", vec![sref("A", 11, 19), sref("B", 11, 19), boundary(vec![pt(3, 7)])]),
        node("A", vec![boundary(vec![pt(101, 109)])]),
        node("B", vec![boundary(vec![pt(201, 209)])]),
    ]);
    snap_to_grid("TOP", 10, 2, &mut lib, &re, 1).unwrap();
    assert_eq!(
        lib,
        library(vec![
            node("TOP", vec![sref("A", 10, 20), sref("B", 11, 19), boundary(vec![pt(0, 10)])]),
            node("A", vec![boundary(vec![pt(100, 110)])]),
            node("B", vec![boundary(vec![pt(201, 209)])]),
        ])
    );
}

#[test]
fn walk_stops_at_the_depth_given() {
    let build = || {
        library(vec![
            node("TOP", vec![sref("MID", 11, 19)]),
            node("MID", vec![sref("LEAF", 21, 29), boundary(vec![pt(1, 9)])]),
            node("LEAF", vec![boundary(vec![pt(31, 39)])]),
        ])
    };
    let mut one = build();
    snap_to_grid("TOP", 10, 1, &mut one, &any(), 1).unwrap();
    assert_eq!(
        one,
        library(vec![
            node("TOP", vec![sref("MID", 10, 20)]),
            node("MID", vec![sref("LEAF", 21, 29), boundary(vec![pt(1, 9)])]),
            node("LEAF", vec![boundary(vec![pt(31, 39)])]),
        ])
    );
    let mut two = build();
    snap_to_grid("TOP", 10, 2, &mut two, &any(), 1).unwrap();
    assert_eq!(
        two,
        library(vec![
            node("TOP", vec![sref("MID", 10, 20)]),
            node("MID", vec![sref("LEAF", 20, 30), boundary(vec![pt(0, 10)])]),
            node("LEAF", vec![boundary(vec![pt(31, 39)])]),
        ])
    );
    let mut three = build();
    snap_to_grid("TOP", 10, 3, &mut three, &any(), 1).unwrap();
    assert_eq!(
        three,
        library(vec![
            node("TOP", vec![sref("MID", 10, 20)]),
            node("MID", vec![sref("LEAF", 20, 30), boundary(vec![pt(0, 10)])]),
            node("LEAF", vec![boundary(vec![pt(30, 40)])]),
        ])
    );
    let mut none = build();
    snap_to_grid("TOP", 10, 0, &mut none, &any(), 5).unwrap();
    assert_eq!(
        none,
        library(vec![
            node("TOP", vec![sref("MID", 10, 20)]),
            node("MID", vec![sref("LEAF", 21, 29), boundary(vec![pt(1, 9)])]),
            node("LEAF", vec![boundary(vec![pt(31, 39)])]),
        ])
    );
}

#[test]
fn walk_follows_a_reference_to_every_structure_with_that_prefix() {
    let mut lib = library(vec![
        node("TOP", vec![sref("CELL", 1, 1)]),
        node("CELL", vec![boundary(vec![pt(6, 6)])]),
        node("CELL_2", vec![boundary(vec![pt(16, 16)])]),
        node("XCELL", vec![boundary(vec![pt(26, 26)])]),
    ]);
    snap_to_grid("TOP", 10, 2, &mut lib, &any(), 1).unwrap();
    assert_eq!(
        lib,
        library(vec![
            node("TOP", vec![sref("CELL", 0, 0)]),
            node("CELL", vec![boundary(vec![pt(10, 10)])]),
            node("CELL_2", vec![boundary(vec![pt(20, 20)])]),
            node("XCELL", vec![boundary(vec![pt(26, 26)])]),
        ])
    );
}

#[test]
fn walk_ends_on_a_cycle_of_references() {
    let mut lib = library(vec![
        node("A", vec![sref("B", 5, 5), boundary(vec![pt(4, 4)])]),
        node("B", vec![sref("A", 15, 15), boundary(vec![pt(14, 14)])]),
    ]);
    snap_to_grid("A", 10, 12, &mut lib, &any(), 1).unwrap();
    assert_eq!(
        lib,
        library(vec![
            node("A", vec![sref("B", 10, 10), boundary(vec![pt(0, 0)])]),
            node("B", vec![sref("A", 20, 20), boundary(vec![pt(10, 10)])]),
        ])
    );
}

#[test]
fn snapping_a_snapped_library_changes_nothing() {
    let mut lib = library(vec![
        node("TOP", vec![sref("A", 11, 19), boundary(vec![pt(3, 7), pt(1235, -1235)])]),
        node("A", vec![boundary(vec![pt(101, 109)])]),
    ]);
    snap_to_grid("TOP", 10, 3, &mut lib, &any(), 1).unwrap();
    let once = lib.clone();
    snap_to_grid("TOP", 10, 3, &mut lib, &any(), 1).unwrap();
    assert_eq!(lib, once);
}

#[test]
fn library_name_and_structure_names_survive_a_snap() {
    let mut lib = library(vec![node("TOP", vec![sref("A", 11, 19)]), node("A", vec![])]);
    snap_to_grid("TOP", 10, 2, &mut lib, &any(), 1).unwrap();
    assert_eq!(lib.name, "lib");
    assert_eq!(lib.structs[0].name, "TOP");
    assert_eq!(lib.structs[1].name, "A");
    match &lib.structs[0].elems[0] {
        GdsElement::GdsStructRef(r) => assert_eq!(r.name, "A"),
        other => panic!("unexpected element {:?}", other),
    }
}
