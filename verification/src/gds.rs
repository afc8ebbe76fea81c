//! The GDS container: a library of named structures, each a sequence of
//! drawing elements and of references to other structures.
use vstd::prelude::*;
use crate::transform::Angle;

verus! {

/// A point of the GDS plane.
#[derive(Clone, Copy, Debug, PartialEq, Eq, Structural)]
pub struct GdsPoint {
    pub x: i32,
    pub y: i32,
}

/// A numbered attribute of an element.
#[derive(Clone, Debug, PartialEq, Eq)]
pub struct GdsProperty {
    pub attr: i16,
    pub value: String,
}

/// The orientation of a reference: the referenced structure is first
/// reflected about its x-axis, then magnified, then rotated counter-clockwise.
#[derive(Clone, Copy, Debug, PartialEq, Eq, Structural)]
pub struct GdsStrans {
    pub reflected: bool,
    pub abs_mag: bool,
    pub abs_angle: bool,
    pub mag: Option<i32>,
    pub angle: Option<Angle>,
}

/// A filled polygon. Its ring is closed: the last point repeats the first.
#[derive(Clone, Debug, PartialEq, Eq)]
pub struct GdsBoundary {
    pub layer: i16,
    pub datatype: i16,
    pub xy: Vec<GdsPoint>,
    pub properties: Vec<GdsProperty>,
}

/// A wire: an open chain of points with a width and an end style.
#[derive(Clone, Debug, PartialEq, Eq)]
pub struct GdsPath {
    pub layer: i16,
    pub datatype: i16,
    pub xy: Vec<GdsPoint>,
    pub width: Option<i32>,
    pub path_type: Option<i16>,
    pub begin_extn: Option<i32>,
    pub end_extn: Option<i32>,
    pub properties: Vec<GdsProperty>,
}

/// A placement of one structure inside another.
#[derive(Clone, Debug, PartialEq, Eq)]
pub struct GdsStructRef {
    pub name: String,
    pub xy: GdsPoint,
    pub strans: Option<GdsStrans>,
    pub properties: Vec<GdsProperty>,
}

/// A placement of a structure in rows and columns.
#[derive(Clone, Debug, PartialEq, Eq)]
pub struct GdsArrayRef {
    pub name: String,
    pub xy: [GdsPoint; 3],
    pub cols: i16,
    pub rows: i16,
    pub strans: Option<GdsStrans>,
}

/// A text label.
#[derive(Clone, Debug, PartialEq, Eq)]
pub struct GdsTextElem {
    pub string: String,
    pub layer: i16,
    pub texttype: i16,
    pub xy: GdsPoint,
}

/// An electrical node.
#[derive(Clone, Debug, PartialEq, Eq)]
pub struct GdsNode {
    pub layer: i16,
    pub nodetype: i16,
    pub xy: Vec<GdsPoint>,
}

/// A box.
#[derive(Clone, Debug, PartialEq, Eq)]
pub struct GdsBox {
    pub layer: i16,
    pub boxtype: i16,
    pub xy: [GdsPoint; 5],
}

/// One element of a structure.
#[derive(Clone, Debug, PartialEq, Eq)]
pub enum GdsElement {
    GdsBoundary(GdsBoundary),
    GdsPath(GdsPath),
    GdsStructRef(GdsStructRef),
    GdsArrayRef(GdsArrayRef),
    GdsTextElem(GdsTextElem),
    GdsNode(GdsNode),
    GdsBox(GdsBox),
}

/// A named structure.
#[derive(Clone, Debug, PartialEq, Eq)]
pub struct GdsStruct {
    pub name: String,
    pub elems: Vec<GdsElement>,
}

/// A library of structures.
#[derive(Clone, Debug, PartialEq, Eq)]
pub struct GdsLibrary {
    pub name: String,
    pub structs: Vec<GdsStruct>,
}

/// The mathematical value of a [`GdsProperty`].
pub struct PropertyView {
    pub attr: i16,
    pub value: Seq<char>,
}

/// The mathematical value of a [`GdsBoundary`].
pub struct BoundaryView {
    pub layer: i16,
    pub datatype: i16,
    pub xy: Seq<GdsPoint>,
    pub properties: Seq<PropertyView>,
}

/// The mathematical value of a [`GdsPath`].
pub struct PathView {
    pub layer: i16,
    pub datatype: i16,
    pub xy: Seq<GdsPoint>,
    pub width: Option<i32>,
    pub path_type: Option<i16>,
    pub begin_extn: Option<i32>,
    pub end_extn: Option<i32>,
    pub properties: Seq<PropertyView>,
}

/// The mathematical value of a [`GdsStructRef`].
pub struct StructRefView {
    pub name: Seq<char>,
    pub xy: GdsPoint,
    pub strans: Option<GdsStrans>,
    pub properties: Seq<PropertyView>,
}

/// The mathematical value of a [`GdsArrayRef`].
pub struct ArrayRefView {
    pub name: Seq<char>,
    pub xy: Seq<GdsPoint>,
    pub cols: i16,
    pub rows: i16,
    pub strans: Option<GdsStrans>,
}

/// The mathematical value of a [`GdsTextElem`].
pub struct TextView {
    pub string: Seq<char>,
    pub layer: i16,
    pub texttype: i16,
    pub xy: GdsPoint,
}

/// The mathematical value of a [`GdsNode`].
pub struct NodeView {
    pub layer: i16,
    pub nodetype: i16,
    pub xy: Seq<GdsPoint>,
}

/// The mathematical value of a [`GdsBox`].
pub struct BoxView {
    pub layer: i16,
    pub boxtype: i16,
    pub xy: Seq<GdsPoint>,
}

/// The mathematical value of a [`GdsElement`].
pub enum ElementView {
    Boundary(BoundaryView),
    Path(PathView),
    StructRef(StructRefView),
    ArrayRef(ArrayRefView),
    Text(TextView),
    Node(NodeView),
    Box(BoxView),
}

/// The mathematical value of a [`GdsStruct`].
pub struct StructView {
    pub name: Seq<char>,
    pub elems: Seq<ElementView>,
}

/// The mathematical value of a [`GdsLibrary`].
pub struct LibraryView {
    pub name: Seq<char>,
    pub structs: Seq<StructView>,
}

/// The values of a sequence of properties.
pub open spec fn properties_view(s: Seq<GdsProperty>) -> Seq<PropertyView> {
    Seq::new(s.len(), |i: int| s[i]@)
}

/// The values of a sequence of elements.
pub open spec fn elements_view(s: Seq<GdsElement>) -> Seq<ElementView> {
    Seq::new(s.len(), |i: int| s[i]@)
}

/// The values of a sequence of structures.
pub open spec fn structs_view(s: Seq<GdsStruct>) -> Seq<StructView> {
    Seq::new(s.len(), |i: int| s[i]@)
}

impl View for GdsProperty {
    type V = PropertyView;

    open spec fn view(&self) -> PropertyView {
        PropertyView { attr: self.attr, value: self.value@ }
    }
}

impl View for GdsBoundary {
    type V = BoundaryView;

    open spec fn view(&self) -> BoundaryView {
        BoundaryView {
            layer: self.layer,
            datatype: self.datatype,
            xy: self.xy@,
            properties: properties_view(self.properties@),
        }
    }
}

impl View for GdsPath {
    type V = PathView;

    open spec fn view(&self) -> PathView {
        PathView {
            layer: self.layer,
            datatype: self.datatype,
            xy: self.xy@,
            width: self.width,
            path_type: self.path_type,
            begin_extn: self.begin_extn,
            end_extn: self.end_extn,
            properties: properties_view(self.properties@),
        }
    }
}

impl View for GdsStructRef {
    type V = StructRefView;

    open spec fn view(&self) -> StructRefView {
        StructRefView {
            name: self.name@,
            xy: self.xy,
            strans: self.strans,
            properties: properties_view(self.properties@),
        }
    }
}

impl View for GdsArrayRef {
    type V = ArrayRefView;

    open spec fn view(&self) -> ArrayRefView {
        ArrayRefView {
            name: self.name@,
            xy: self.xy@,
            cols: self.cols,
            rows: self.rows,
            strans: self.strans,
        }
    }
}

impl View for GdsTextElem {
    type V = TextView;

    open spec fn view(&self) -> TextView {
        TextView {
            string: self.string@,
            layer: self.layer,
            texttype: self.texttype,
            xy: self.xy,
        }
    }
}

impl View for GdsNode {
    type V = NodeView;

    open spec fn view(&self) -> NodeView {
        NodeView { layer: self.layer, nodetype: self.nodetype, xy: self.xy@ }
    }
}

impl View for GdsBox {
    type V = BoxView;

    open spec fn view(&self) -> BoxView {
        BoxView { layer: self.layer, boxtype: self.boxtype, xy: self.xy@ }
    }
}

impl View for GdsElement {
    type V = ElementView;

    open spec fn view(&self) -> ElementView {
        match self {
            GdsElement::GdsBoundary(b) => ElementView::Boundary(b@),
            GdsElement::GdsPath(p) => ElementView::Path(p@),
            GdsElement::GdsStructRef(r) => ElementView::StructRef(r@),
            GdsElement::GdsArrayRef(a) => ElementView::ArrayRef(a@),
            GdsElement::GdsTextElem(t) => ElementView::Text(t@),
            GdsElement::GdsNode(n) => ElementView::Node(n@),
            GdsElement::GdsBox(b) => ElementView::Box(b@),
        }
    }
}

impl View for GdsStruct {
    type V = StructView;

    open spec fn view(&self) -> StructView {
        StructView { name: self.name@, elems: elements_view(self.elems@) }
    }
}

impl View for GdsLibrary {
    type V = LibraryView;

    open spec fn view(&self) -> LibraryView {
        LibraryView { name: self.name@, structs: structs_view(self.structs@) }
    }
}

} // verus!
