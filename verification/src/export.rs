//! From a layout model to a GDS library.
//!
//! A cell becomes a structure: first its shapes, in their order, then one
//! reference for each of its instances, in their order. A library holds one
//! structure for each cell that takes part in the hierarchy, and the structure
//! of the top cell last.
use vstd::prelude::*;
use crate::convert::{shape_element, shape_to_gds_element};
use crate::error::{Error, ErrorKind, ErrorView};
use crate::gds::{
    elements_view, properties_view, structs_view, ElementView, GdsElement, GdsLibrary, GdsPoint,
    GdsProperty, GdsStrans, GdsStruct, GdsStructRef, LibraryView, PropertyView, StructRefView,
    StructView,
};
use crate::layout::{Cell, CellInstance, Layer, LayoutModel, Net, Shape};
use crate::transform::{emitted_rotation, resolve, resolved_origin};

verus! {

/// The name of the structure of a cell: the name of the cell, and
/// `Unnamed Cell` for a cell without a name.
pub open spec fn node_name(name: Seq<char>) -> Seq<char> {
    if name.len() == 0 {
        "Unnamed Cell"@
    } else {
        name
    }
}

/// The element of a shape on its layer, without properties.
pub open spec fn element_of(layers: Seq<Layer>, shape: Shape) -> Result<ElementView, ErrorKind> {
    shape_element(shape.geometry, layers[shape.layer as int].index, Seq::empty())
}

/// The elements of the shapes, in their order; or, where one of the shapes
/// has no element, the failure of the first such shape.
pub open spec fn shapes_elements(layers: Seq<Layer>, shapes: Seq<Shape>) -> Result<
    Seq<ElementView>,
    ErrorKind,
>
    decreases shapes.len(),
{
    if shapes.len() == 0 {
        Ok(Seq::empty())
    } else {
        match shapes_elements(layers, shapes.drop_last()) {
            Err(e) => Err(e),
            Ok(v) => match element_of(layers, shapes.last()) {
                Ok(x) => Ok(v.push(x)),
                Err(e) => Err(e),
            },
        }
    }
}

/// The name that a reference records for its instance: the name of the
/// instance, and that of the cell it places where the instance has none.
pub open spec fn instance_label(inst: CellInstance, template_name: Seq<char>) -> Seq<char> {
    match inst.name {
        Some(n) => n@,
        None => template_name,
    }
}

/// The reference for an instance inside the cell `parent`. It names the
/// structure of the cell that the instance places, lies where
/// [`resolved_origin`] says, carries the magnification of the instance
/// unchanged, and records the name of the instance as property 1. An instance
/// of a cell that the model lacks has no reference, nor has one of a cell
/// without a bounding box.
pub open spec fn placement(cells: Seq<Cell>, parent: Seq<char>, inst: CellInstance) -> Result<
    ElementView,
    ErrorView,
> {
    if inst.template >= cells.len() {
        Err(ErrorView { kind: ErrorKind::UnresolvedReference, name: instance_label(inst, parent) })
    } else {
        let t = cells[inst.template as int];
        match t.bounding_box {
            None => Err(ErrorView { kind: ErrorKind::EmptyBoundingBox, name: node_name(t.name@) }),
            Some(b) => Ok(
                ElementView::StructRef(
                    StructRefView {
                        name: node_name(t.name@),
                        xy: GdsPoint {
                            x: resolved_origin(inst.transform, b).0 as i32,
                            y: resolved_origin(inst.transform, b).1 as i32,
                        },
                        strans: Some(
                            GdsStrans {
                                reflected: inst.transform.mirror,
                                abs_mag: true,
                                abs_angle: false,
                                mag: Some(inst.transform.magnification),
                                angle: Some(
                                    emitted_rotation(inst.transform.mirror, inst.transform.rotation),
                                ),
                            },
                        ),
                        properties: seq![
                            PropertyView { attr: 1, value: instance_label(inst, t.name@) },
                        ],
                    },
                ),
            ),
        }
    }
}

/// The references for the instances, in their order; or the failure of the
/// first instance that has no reference.
pub open spec fn placements(cells: Seq<Cell>, parent: Seq<char>, instances: Seq<CellInstance>) -> Result<
    Seq<ElementView>,
    ErrorView,
>
    decreases instances.len(),
{
    if instances.len() == 0 {
        Ok(Seq::empty())
    } else {
        match placements(cells, parent, instances.drop_last()) {
            Err(e) => Err(e),
            Ok(v) => match placement(cells, parent, instances.last()) {
                Ok(x) => Ok(v.push(x)),
                Err(e) => Err(e),
            },
        }
    }
}

/// The structure of a cell: under the name of the cell, the elements of its
/// shapes followed by the references for its instances. A shape without an
/// element fails under the name of the structure.
pub open spec fn cell_struct(model: LayoutModel, cell: int) -> Result<StructView, ErrorView> {
    if !(0 <= cell < model.cells.len()) {
        Err(ErrorView { kind: ErrorKind::UnresolvedReference, name: Seq::empty() })
    } else {
        let c = model.cells[cell];
        let name = node_name(c.name@);
        match shapes_elements(model.layers@, c.shapes@) {
            Err(k) => Err(ErrorView { kind: k, name }),
            Ok(g) => match placements(model.cells@, name, c.instances@) {
                Err(e) => Err(e),
                Ok(p) => Ok(StructView { name, elems: g + p }),
            },
        }
    }
}

/// What [`shapes_elements`] is, shape by shape: where every shape has an
/// element, the elements of the shapes, one for one; else the failure of the
/// first shape that has none.
pub proof fn lemma_shapes_elements(layers: Seq<Layer>, shapes: Seq<Shape>)
    ensures
        match shapes_elements(layers, shapes) {
            Ok(v) => v.len() == shapes.len() && forall|i: int|
                0 <= i < shapes.len() ==> element_of(layers, #[trigger] shapes[i]) == Ok::<
                    ElementView,
                    ErrorKind,
                >(v[i]),
            Err(k) => exists|i: int|
                0 <= i < shapes.len() && element_of(layers, #[trigger] shapes[i]) == Err::<
                    ElementView,
                    ErrorKind,
                >(k) && forall|j: int| 0 <= j < i ==> element_of(layers, #[trigger] shapes[j]) is Ok,
        },
    decreases shapes.len(),
{
    if shapes.len() > 0 {
        let rest = shapes.drop_last();
        let last = shapes.len() - 1;
        lemma_shapes_elements(layers, rest);
        assert(forall|i: int| 0 <= i < rest.len() ==> rest[i] == shapes[i]);
        match shapes_elements(layers, rest) {
            Ok(v) => {
                if element_of(layers, shapes.last()) is Err {
                    assert(shapes[last] == shapes.last());
                }
            },
            Err(k) => {
                let i = choose|i: int|
                    0 <= i < rest.len() && element_of(layers, #[trigger] rest[i]) == Err::<
                        ElementView,
                        ErrorKind,
                    >(k) && forall|j: int|
                        0 <= j < i ==> element_of(layers, #[trigger] rest[j]) is Ok;
                assert(shapes[i] == rest[i]);
            },
        }
    }
}

/// What [`placements`] is, instance by instance: where every instance has a
/// reference, the references for the instances, one for one; else the failure
/// of the first instance that has none.
pub proof fn lemma_placements(cells: Seq<Cell>, parent: Seq<char>, instances: Seq<CellInstance>)
    ensures
        match placements(cells, parent, instances) {
            Ok(v) => v.len() == instances.len() && forall|i: int|
                0 <= i < instances.len() ==> placement(cells, parent, #[trigger] instances[i])
                    == Ok::<ElementView, ErrorView>(v[i]),
            Err(e) => exists|i: int|
                0 <= i < instances.len() && placement(cells, parent, #[trigger] instances[i])
                    == Err::<ElementView, ErrorView>(e) && forall|j: int|
                    0 <= j < i ==> placement(cells, parent, #[trigger] instances[j]) is Ok,
        },
    decreases instances.len(),
{
    if instances.len() > 0 {
        let rest = instances.drop_last();
        let last = instances.len() - 1;
        lemma_placements(cells, parent, rest);
        assert(forall|i: int| 0 <= i < rest.len() ==> rest[i] == instances[i]);
        match placements(cells, parent, rest) {
            Ok(v) => {
                if placement(cells, parent, instances.last()) is Err {
                    assert(instances[last] == instances.last());
                }
            },
            Err(e) => {
                let i = choose|i: int|
                    0 <= i < rest.len() && placement(cells, parent, #[trigger] rest[i]) == Err::<
                        ElementView,
                        ErrorView,
                    >(e) && forall|j: int|
                        0 <= j < i ==> placement(cells, parent, #[trigger] rest[j]) is Ok;
                assert(instances[i] == rest[i]);
            },
        }
    }
}

/// The name that a structure gets for a cell of the given name.
fn struct_name(name: &String) -> (r: String)
    ensures
        r@ == node_name(name@),
{
    if name.as_str().is_empty() {
        "Unnamed Cell".to_owned()
    } else {
        name.clone()
    }
}

/// Converts the shapes to elements.
fn convert_shapes(layers: &Vec<Layer>, shapes: &Vec<Shape>) -> (r: Result<Vec<GdsElement>, ErrorKind>)
    requires
        forall|i: int| 0 <= i < shapes.len() ==> (#[trigger] shapes[i]).layer < layers.len(),
    ensures
        match r {
            Ok(v) => shapes_elements(layers@, shapes@) == Ok::<Seq<ElementView>, ErrorKind>(
                elements_view(v@),
            ),
            Err(k) => shapes_elements(layers@, shapes@) == Err::<Seq<ElementView>, ErrorKind>(k),
        },
{
    let mut out: Vec<GdsElement> = Vec::new();
    let mut i: usize = 0;
    assert(shapes@.take(0) =~= Seq::empty());
    assert(elements_view(out@) =~= Seq::empty());
    while i < shapes.len()
        invariant
            i <= shapes.len(),
            forall|k: int| 0 <= k < shapes.len() ==> (#[trigger] shapes[k]).layer < layers.len(),
            shapes_elements(layers@, shapes@.take(i as int)) == Ok::<Seq<ElementView>, ErrorKind>(
                elements_view(out@),
            ),
        decreases shapes.len() - i,
    {
        let shape = &shapes[i];
        let ghost before = elements_view(out@);
        proof {
            assert(shapes@.take(i + 1).drop_last() =~= shapes@.take(i as int));
            assert(shapes@.take(i + 1).last() == shapes@[i as int]);
        }
        match shape_to_gds_element(&shape.geometry, layers[shape.layer].index, Vec::new()) {
            Ok(e) => {
                out.push(e);
                assert(elements_view(out@) =~= before.push(e@));
            },
            Err(k) => {
                proof {
                    lemma_shapes_failure_stays(layers@, shapes@, i + 1);
                }
                return Err(k);
            },
        }
        i += 1;
    }
    assert(shapes@.take(i as int) =~= shapes@);
    Ok(out)
}

/// Once a prefix of the shapes fails, the whole sequence fails in the same
/// way.
proof fn lemma_shapes_failure_stays(layers: Seq<Layer>, shapes: Seq<Shape>, n: int)
    requires
        0 <= n <= shapes.len(),
        shapes_elements(layers, shapes.take(n)) is Err,
    ensures
        shapes_elements(layers, shapes) == shapes_elements(layers, shapes.take(n)),
    decreases shapes.len() - n,
{
    if n == shapes.len() {
        assert(shapes.take(n) =~= shapes);
    } else {
        assert(shapes.take(n + 1).drop_last() =~= shapes.take(n));
        lemma_shapes_failure_stays(layers, shapes, n + 1);
    }
}

/// Once a prefix of the instances fails, the whole sequence fails in the same
/// way.
proof fn lemma_placements_failure_stays(
    cells: Seq<Cell>,
    parent: Seq<char>,
    instances: Seq<CellInstance>,
    n: int,
)
    requires
        0 <= n <= instances.len(),
        placements(cells, parent, instances.take(n)) is Err,
    ensures
        placements(cells, parent, instances) == placements(cells, parent, instances.take(n)),
    decreases instances.len() - n,
{
    if n == instances.len() {
        assert(instances.take(n) =~= instances);
    } else {
        assert(instances.take(n + 1).drop_last() =~= instances.take(n));
        lemma_placements_failure_stays(cells, parent, instances, n + 1);
    }
}

/// The name that a reference records for its instance.
fn label_of(inst: &CellInstance, template_name: &String) -> (r: String)
    ensures
        r@ == instance_label(*inst, template_name@),
{
    match &inst.name {
        Some(n) => n.clone(),
        None => template_name.clone(),
    }
}

/// The reference for one instance.
fn place_instance(layout: &LayoutModel, parent: &String, inst: &CellInstance) -> (r: Result<
    GdsElement,
    Error,
>)
    requires
        layout.instance_fits(*inst),
    ensures
        match r {
            Ok(e) => placement(layout.cells@, parent@, *inst) == Ok::<ElementView, ErrorView>(e@),
            Err(e) => placement(layout.cells@, parent@, *inst) == Err::<ElementView, ErrorView>(e@),
        },
{
    if inst.template >= layout.cells.len() {
        let name = label_of(inst, parent);
        return Err(Error { kind: ErrorKind::UnresolvedReference, name });
    }
    let template = &layout.cells[inst.template];
    let name = struct_name(&template.name);
    match resolve(&inst.transform, template.bounding_box) {
        Err(kind) => Err(Error { kind, name }),
        Ok((new_x, new_y, new_rotation, should_flip)) => {
            let mut properties: Vec<GdsProperty> = Vec::new();
            properties.push(GdsProperty { attr: 1, value: label_of(inst, &template.name) });
            let r = GdsStructRef {
                name,
                xy: GdsPoint { x: new_x, y: new_y },
                strans: Some(
                    GdsStrans {
                        reflected: should_flip,
                        abs_mag: true,
                        abs_angle: false,
                        mag: Some(inst.transform.magnification),
                        angle: Some(new_rotation),
                    },
                ),
                properties,
            };
            assert(properties_view(r.properties@) =~= seq![
                PropertyView { attr: 1, value: instance_label(*inst, template.name@) },
            ]);
            Ok(GdsElement::GdsStructRef(r))
        },
    }
}

/// The references for the instances of a cell.
fn place_instances(layout: &LayoutModel, parent: &String, instances: &Vec<CellInstance>) -> (r:
    Result<Vec<GdsElement>, Error>)
    requires
        layout.instances_fit(instances@),
    ensures
        match r {
            Ok(v) => placements(layout.cells@, parent@, instances@) == Ok::<
                Seq<ElementView>,
                ErrorView,
            >(elements_view(v@)),
            Err(e) => placements(layout.cells@, parent@, instances@) == Err::<
                Seq<ElementView>,
                ErrorView,
            >(e@),
        },
{
    let mut out: Vec<GdsElement> = Vec::new();
    let mut i: usize = 0;
    assert(instances@.take(0) =~= Seq::empty());
    assert(elements_view(out@) =~= Seq::empty());
    while i < instances.len()
        invariant
            i <= instances.len(),
            layout.instances_fit(instances@),
            placements(layout.cells@, parent@, instances@.take(i as int)) == Ok::<
                Seq<ElementView>,
                ErrorView,
            >(elements_view(out@)),
        decreases instances.len() - i,
    {
        let ghost before = elements_view(out@);
        proof {
            assert(instances@.take(i + 1).drop_last() =~= instances@.take(i as int));
            assert(instances@.take(i + 1).last() == instances@[i as int]);
        }
        match place_instance(layout, parent, &instances[i]) {
            Ok(e) => {
                out.push(e);
                assert(elements_view(out@) =~= before.push(e@));
            },
            Err(e) => {
                proof {
                    lemma_placements_failure_stays(layout.cells@, parent@, instances@, i + 1);
                }
                return Err(e);
            },
        }
        i += 1;
    }
    assert(instances@.take(i as int) =~= instances@);
    Ok(out)
}

/// Exports one cell as a structure: its shapes as elements, in their order,
/// and after them one reference for each of its instances, in their order.
/// The structure has the name of the cell, or `Unnamed Cell` where the cell
/// has none. The export fails at the first shape that GDS cannot draw, at the
/// first instance of a cell that the model lacks, and at the first instance of
/// a cell without a bounding box.
pub fn chip_cell_to_gds_struct(layout: &LayoutModel, cell: usize) -> (r: Result<GdsStruct, Error>)
    requires
        layout.valid(),
    ensures
        match r {
            Ok(s) => cell_struct(*layout, cell as int) == Ok::<StructView, ErrorView>(s@),
            Err(e) => cell_struct(*layout, cell as int) == Err::<StructView, ErrorView>(e@),
        },
{
    if cell >= layout.cells.len() {
        return Err(Error { kind: ErrorKind::UnresolvedReference, name: String::new() });
    }
    let c = &layout.cells[cell];
    let cell_name = struct_name(&c.name);
    let mut elems = match convert_shapes(&layout.layers, &c.shapes) {
        Ok(v) => v,
        Err(kind) => {
            return Err(Error { kind, name: cell_name });
        },
    };
    let mut refs = match place_instances(layout, &cell_name, &c.instances) {
        Ok(v) => v,
        Err(e) => {
            return Err(e);
        },
    };
    let ghost g = elements_view(elems@);
    let ghost p = elements_view(refs@);
    elems.append(&mut refs);
    assert(elements_view(elems@) =~= g + p);
    Ok(GdsStruct { name: cell_name, elems })
}

/// Whether some instance in the model places the cell `c`.
pub open spec fn has_parent(cells: Seq<Cell>, c: int) -> bool {
    exists|p: int, j: int|
        0 <= p < cells.len() && 0 <= j < cells[p].instances.len() && (
        #[trigger] cells[p].instances[j]).template == c
}

/// Whether the cell `c` gets a structure of its own beside that of the top
/// cell: it is not the top cell, and it holds an instance or is placed by one.
pub open spec fn is_member(cells: Seq<Cell>, top: int, c: int) -> bool {
    c != top && (cells[c].instances.len() > 0 || has_parent(cells, c))
}

/// The structures of the members among the first `n` cells, in the order of
/// the cells; or the failure of the first member that has no structure.
pub open spec fn member_structs(model: LayoutModel, top: int, n: int) -> Result<
    Seq<StructView>,
    ErrorView,
>
    decreases n,
{
    if n <= 0 {
        Ok(Seq::empty())
    } else {
        match member_structs(model, top, n - 1) {
            Err(e) => Err(e),
            Ok(v) => if is_member(model.cells@, top, n - 1) {
                match cell_struct(model, n - 1) {
                    Ok(s) => Ok(v.push(s)),
                    Err(e) => Err(e),
                }
            } else {
                Ok(v)
            },
        }
    }
}

/// Whether a layer is the one for the outlines of cells: the layer named
/// `OUTLINE`.
pub open spec fn is_outline(layer: Layer) -> bool {
    layer.name matches Some(n) && n@ == "OUTLINE"@
}

/// The first outline layer of the model, if it has one.
pub open spec fn outline_layer(layers: Seq<Layer>) -> Option<int>
    decreases layers.len(),
{
    if layers.len() == 0 {
        None
    } else {
        match outline_layer(layers.drop_last()) {
            Some(i) => Some(i),
            None => if is_outline(layers.last()) {
                Some(layers.len() - 1)
            } else {
                None
            },
        }
    }
}

/// The shapes that lie on a layer, in their order.
pub open spec fn shapes_on(shapes: Seq<Shape>, layer: int) -> Seq<Shape> {
    shapes.filter(|s: Shape| s.layer == layer)
}

/// The elements of the shapes of the nets that are not constant, net by net;
/// or the failure of the first shape among them that has no element.
pub open spec fn nets_elements(layers: Seq<Layer>, nets: Seq<Net>) -> Result<
    Seq<ElementView>,
    ErrorKind,
>
    decreases nets.len(),
{
    if nets.len() == 0 {
        Ok(Seq::empty())
    } else {
        match nets_elements(layers, nets.drop_last()) {
            Err(e) => Err(e),
            Ok(v) => if nets.last().constant {
                Ok(v)
            } else {
                match shapes_elements(layers, nets.last().shapes@) {
                    Ok(g) => Ok(v + g),
                    Err(e) => Err(e),
                }
            },
        }
    }
}

/// The structure of the top cell. It holds, in this order: the outline of
/// the cell, which is the one shape on the outline layer; the shapes of the
/// cell; the shapes of its nets that are not constant; the references for its
/// instances. There is no such structure where the model has no outline
/// layer, where the cell has no shape or several on it, or where a shape or
/// an instance has no element.
pub open spec fn top_struct(model: LayoutModel, top: int) -> Result<StructView, ErrorView> {
    let c = model.cells[top];
    let name = node_name(c.name@);
    match outline_layer(model.layers@) {
        None => Err(ErrorView { kind: ErrorKind::MissingBoundaryLayer, name: "OUTLINE"@ }),
        Some(l) => {
            let outline = shapes_on(c.shapes@, l);
            if outline.len() != 1 {
                Err(ErrorView { kind: ErrorKind::AmbiguousBoundary, name })
            } else {
                match shapes_elements(model.layers@, outline) {
                    Err(k) => Err(ErrorView { kind: k, name }),
                    Ok(b) => match shapes_elements(model.layers@, c.shapes@) {
                        Err(k) => Err(ErrorView { kind: k, name }),
                        Ok(g) => match nets_elements(model.layers@, c.nets@) {
                            Err(k) => Err(ErrorView { kind: k, name }),
                            Ok(n) => match placements(model.cells@, name, c.instances@) {
                                Err(e) => Err(e),
                                Ok(p) => Ok(StructView { name, elems: b + g + n + p }),
                            },
                        },
                    },
                }
            }
        },
    }
}

/// The library of a model with the given top cell. It has the name of the
/// top cell and holds the structures of the members, in the order of the
/// cells, and the structure of the top cell last. The top cell is looked at
/// first: where it has no structure, that failure is the result.
pub open spec fn library(model: LayoutModel, top: int) -> Result<LibraryView, ErrorView> {
    if !(0 <= top < model.cells.len()) {
        Err(ErrorView { kind: ErrorKind::UnresolvedReference, name: Seq::empty() })
    } else {
        match top_struct(model, top) {
            Err(e) => Err(e),
            Ok(t) => match member_structs(model, top, model.cells.len() as int) {
                Err(e) => Err(e),
                Ok(m) => Ok(LibraryView { name: model.cells[top].name@, structs: m.push(t) }),
            },
        }
    }
}

/// Whether an instance that comes before instance `j` of cell `p`, in the
/// order of the cells and of their instances, places the cell `c`.
spec fn has_parent_before(cells: Seq<Cell>, c: int, p: int, j: int) -> bool {
    exists|q: int, r: int|
        0 <= q < cells.len() && 0 <= r < cells[q].instances.len() && (q < p || (q == p && r
            < j)) && (#[trigger] cells[q].instances[r]).template == c
}

/// For each cell, whether some instance places it.
fn mark_referenced(cells: &Vec<Cell>) -> (flags: Vec<bool>)
    ensures
        flags.len() == cells.len(),
        forall|c: int| 0 <= c < cells.len() ==> flags[c] == has_parent(cells@, c),
{
    let n = cells.len();
    let mut flags: Vec<bool> = Vec::new();
    let mut k: usize = 0;
    while k < n
        invariant
            k <= n,
            flags.len() == k,
            forall|c: int| 0 <= c < k ==> !flags[c],
        decreases n - k,
    {
        flags.push(false);
        k += 1;
    }
    let mut p: usize = 0;
    while p < n
        invariant
            n == cells.len(),
            p <= n,
            flags.len() == n,
            forall|c: int| 0 <= c < n ==> flags[c] == has_parent_before(cells@, c, p as int, 0),
        decreases n - p,
    {
        let instances = &cells[p].instances;
        let mut j: usize = 0;
        while j < instances.len()
            invariant
                n == cells.len(),
                p < n,
                instances == &cells[p as int].instances,
                j <= instances.len(),
                flags.len() == n,
                forall|c: int|
                    0 <= c < n ==> flags[c] == has_parent_before(cells@, c, p as int, j as int),
            decreases instances.len() - j,
        {
            let t = instances[j].template;
            let ghost before = flags@;
            if t < n {
                flags.set(t, true);
            }
            assert forall|c: int| 0 <= c < n implies flags[c] == has_parent_before(
                cells@,
                c,
                p as int,
                j + 1,
            ) by {
                if c == t {
                    assert(cells@[p as int].instances[j as int].template == c);
                } else {
                    assert(has_parent_before(cells@, c, p as int, j as int) == has_parent_before(
                        cells@,
                        c,
                        p as int,
                        j + 1,
                    ));
                }
            }
            j += 1;
        }
        assert forall|c: int| 0 <= c < n implies has_parent_before(cells@, c, p as int, j as int)
            == has_parent_before(cells@, c, p + 1, 0) by {}
        p += 1;
    }
    assert forall|c: int| 0 <= c < n implies has_parent_before(cells@, c, n as int, 0)
        == has_parent(cells@, c) by {}
    flags
}

/// Once a prefix of the layers holds an outline layer, that one is the
/// outline layer of the whole sequence.
proof fn lemma_outline_layer_stays(layers: Seq<Layer>, n: int)
    requires
        0 <= n <= layers.len(),
        outline_layer(layers.take(n)) is Some,
    ensures
        outline_layer(layers) == outline_layer(layers.take(n)),
    decreases layers.len() - n,
{
    if n == layers.len() {
        assert(layers.take(n) =~= layers);
    } else {
        assert(layers.take(n + 1).drop_last() =~= layers.take(n));
        lemma_outline_layer_stays(layers, n + 1);
    }
}

/// Looks for the outline layer.
fn find_outline_layer(layers: &Vec<Layer>) -> (r: Option<usize>)
    ensures
        match r {
            Some(i) => outline_layer(layers@) == Some(i as int) && i < layers.len(),
            None => outline_layer(layers@) is None,
        },
{
    let wanted = "OUTLINE".to_owned();
    let mut i: usize = 0;
    assert(layers@.take(0) =~= Seq::empty());
    while i < layers.len()
        invariant
            i <= layers.len(),
            wanted@ == "OUTLINE"@,
            outline_layer(layers@.take(i as int)) is None,
        decreases layers.len() - i,
    {
        proof {
            assert(layers@.take(i + 1).drop_last() =~= layers@.take(i as int));
            assert(layers@.take(i + 1).last() == layers@[i as int]);
        }
        let found = match &layers[i].name {
            Some(n) => *n == wanted,
            None => false,
        };
        if found {
            proof {
                lemma_outline_layer_stays(layers@, i + 1);
            }
            return Some(i);
        }
        i += 1;
    }
    assert(layers@.take(i as int) =~= layers@);
    None
}

/// Counts the shapes on a layer and finds the first of them.
fn find_on_layer(shapes: &Vec<Shape>, layer: usize) -> (r: (usize, usize))
    ensures
        r.0 == shapes_on(shapes@, layer as int).len(),
        r.0 > 0 ==> r.1 < shapes.len() && shapes_on(shapes@, layer as int)[0] == shapes[r.1 as int],
{
    let mut count: usize = 0;
    let mut first: usize = 0;
    let mut i: usize = 0;
    proof {
        reveal(Seq::filter);
        assert(shapes@.take(0) =~= Seq::empty());
    }
    while i < shapes.len()
        invariant
            i <= shapes.len(),
            count <= i,
            count == shapes_on(shapes@.take(i as int), layer as int).len(),
            count > 0 ==> first < i && shapes_on(shapes@.take(i as int), layer as int)[0]
                == shapes[first as int],
        decreases shapes.len() - i,
    {
        proof {
            reveal(Seq::filter);
            assert(shapes@.take(i + 1).drop_last() =~= shapes@.take(i as int));
            assert(shapes@.take(i + 1).last() == shapes@[i as int]);
        }
        if shapes[i].layer == layer {
            if count == 0 {
                first = i;
            }
            count += 1;
        }
        i += 1;
    }
    assert(shapes@.take(i as int) =~= shapes@);
    (count, first)
}

/// Once a prefix of the nets fails, the whole sequence fails in the same way.
proof fn lemma_nets_failure_stays(layers: Seq<Layer>, nets: Seq<Net>, n: int)
    requires
        0 <= n <= nets.len(),
        nets_elements(layers, nets.take(n)) is Err,
    ensures
        nets_elements(layers, nets) == nets_elements(layers, nets.take(n)),
    decreases nets.len() - n,
{
    if n == nets.len() {
        assert(nets.take(n) =~= nets);
    } else {
        assert(nets.take(n + 1).drop_last() =~= nets.take(n));
        lemma_nets_failure_stays(layers, nets, n + 1);
    }
}

/// Converts the shapes of the nets that are not constant.
fn convert_nets(layout: &LayoutModel, nets: &Vec<Net>) -> (r: Result<Vec<GdsElement>, ErrorKind>)
    requires
        layout.nets_wf(nets@),
    ensures
        match r {
            Ok(v) => nets_elements(layout.layers@, nets@) == Ok::<Seq<ElementView>, ErrorKind>(
                elements_view(v@),
            ),
            Err(k) => nets_elements(layout.layers@, nets@) == Err::<Seq<ElementView>, ErrorKind>(k),
        },
{
    let mut out: Vec<GdsElement> = Vec::new();
    let mut i: usize = 0;
    assert(nets@.take(0) =~= Seq::empty());
    assert(elements_view(out@) =~= Seq::empty());
    while i < nets.len()
        invariant
            i <= nets.len(),
            layout.nets_wf(nets@),
            nets_elements(layout.layers@, nets@.take(i as int)) == Ok::<Seq<ElementView>, ErrorKind>(
                elements_view(out@),
            ),
        decreases nets.len() - i,
    {
        let net = &nets[i];
        let ghost before = elements_view(out@);
        proof {
            assert(nets@.take(i + 1).drop_last() =~= nets@.take(i as int));
            assert(nets@.take(i + 1).last() == nets@[i as int]);
        }
        if !net.constant {
            match convert_shapes(&layout.layers, &net.shapes) {
                Ok(mut v) => {
                    let ghost g = elements_view(v@);
                    out.append(&mut v);
                    assert(elements_view(out@) =~= before + g);
                },
                Err(k) => {
                    proof {
                        lemma_nets_failure_stays(layout.layers@, nets@, i + 1);
                    }
                    return Err(k);
                },
            }
        }
        i += 1;
    }
    assert(nets@.take(i as int) =~= nets@);
    Ok(out)
}

/// The structure of the top cell.
fn export_top(layout: &LayoutModel, top: usize) -> (r: Result<GdsStruct, Error>)
    requires
        layout.valid(),
        top < layout.cells.len(),
    ensures
        match r {
            Ok(s) => top_struct(*layout, top as int) == Ok::<StructView, ErrorView>(s@),
            Err(e) => top_struct(*layout, top as int) == Err::<StructView, ErrorView>(e@),
        },
{
    let c = &layout.cells[top];
    let name = struct_name(&c.name);
    let boundary_layer = match find_outline_layer(&layout.layers) {
        Some(l) => l,
        None => {
            return Err(Error::new(ErrorKind::MissingBoundaryLayer, "OUTLINE"));
        },
    };
    let (boundary_shapes, first) = find_on_layer(&c.shapes, boundary_layer);
    if boundary_shapes != 1 {
        return Err(Error { kind: ErrorKind::AmbiguousBoundary, name });
    }
    let ghost outline = shapes_on(c.shapes@, boundary_layer as int);
    let outline_shape = &c.shapes[first];
    proof {
        assert(outline.drop_last() =~= Seq::empty());
        assert(outline.last() == *outline_shape);
        assert(shapes_elements(layout.layers@, outline.drop_last()) == Ok::<
            Seq<ElementView>,
            ErrorKind,
        >(Seq::empty()));
    }
    let mut elems: Vec<GdsElement> = Vec::new();
    match shape_to_gds_element(
        &outline_shape.geometry,
        layout.layers[outline_shape.layer].index,
        Vec::new(),
    ) {
        Ok(e) => {
            elems.push(e);
        },
        Err(kind) => {
            return Err(Error { kind, name });
        },
    }
    let ghost b = elements_view(elems@);
    assert(shapes_elements(layout.layers@, outline) == Ok::<Seq<ElementView>, ErrorKind>(b)) by {
        assert(b =~= Seq::<ElementView>::empty().push(elems@[0]@));
    }
    let mut own = match convert_shapes(&layout.layers, &c.shapes) {
        Ok(v) => v,
        Err(kind) => {
            return Err(Error { kind, name });
        },
    };
    let mut routed = match convert_nets(layout, &c.nets) {
        Ok(v) => v,
        Err(kind) => {
            return Err(Error { kind, name });
        },
    };
    let mut refs = match place_instances(layout, &name, &c.instances) {
        Ok(v) => v,
        Err(e) => {
            return Err(e);
        },
    };
    let ghost g = elements_view(own@);
    let ghost n = elements_view(routed@);
    let ghost p = elements_view(refs@);
    elems.append(&mut own);
    elems.append(&mut routed);
    elems.append(&mut refs);
    assert(elements_view(elems@) =~= b + g + n + p);
    Ok(GdsStruct { name, elems })
}

/// Once the members among a prefix of the cells fail, those among all cells
/// fail in the same way.
proof fn lemma_members_failure_stays(model: LayoutModel, top: int, n: int)
    requires
        0 <= n <= model.cells.len(),
        member_structs(model, top, n) is Err,
    ensures
        member_structs(model, top, model.cells.len() as int) == member_structs(model, top, n),
    decreases model.cells.len() - n,
{
    if n < model.cells.len() {
        lemma_members_failure_stays(model, top, n + 1);
    }
}

/// Exports a layout as a GDS library under the name of the top cell. A cell
/// other than the top cell gets a structure if it holds an instance or if an
/// instance places it; these structures come in the order of the cells. The
/// structure of the top cell comes last and holds the outline of the cell,
/// its shapes, the shapes of its nets that are not constant, and the
/// references for its instances.
///
/// The export fails, and gives no library, where the top cell is not a cell
/// of the model (`UnresolvedReference`), where the model has no layer named
/// `OUTLINE` (`MissingBoundaryLayer`), where the top cell has no shape or more
/// than one on that layer (`AmbiguousBoundary`), and where a cell that is
/// exported holds a shape that GDS cannot draw (`UnrepresentableGeometry`), an
/// instance of a cell that the model lacks (`UnresolvedReference`) or an
/// instance of a cell without a bounding box (`EmptyBoundingBox`).
pub fn chip_to_gds_library(chip: &LayoutModel, top: usize) -> (r: Result<GdsLibrary, Error>)
    requires
        chip.valid(),
    ensures
        match r {
            Ok(l) => library(*chip, top as int) == Ok::<LibraryView, ErrorView>(l@),
            Err(e) => library(*chip, top as int) == Err::<LibraryView, ErrorView>(e@),
        },
{
    if top >= chip.cells.len() {
        return Err(Error { kind: ErrorKind::UnresolvedReference, name: String::new() });
    }
    let top_cell_struct = match export_top(chip, top) {
        Ok(s) => s,
        Err(e) => {
            return Err(e);
        },
    };
    let referenced = mark_referenced(&chip.cells);
    let mut structs: Vec<GdsStruct> = Vec::new();
    let mut c: usize = 0;
    assert(structs_view(structs@) =~= Seq::empty());
    while c < chip.cells.len()
        invariant
            c <= chip.cells.len(),
            top < chip.cells.len(),
            chip.valid(),
            top_struct(*chip, top as int) == Ok::<StructView, ErrorView>(top_cell_struct@),
            referenced.len() == chip.cells.len(),
            forall|k: int|
                0 <= k < chip.cells.len() ==> referenced[k] == has_parent(chip.cells@, k),
            member_structs(*chip, top as int, c as int) == Ok::<Seq<StructView>, ErrorView>(
                structs_view(structs@),
            ),
        decreases chip.cells.len() - c,
    {
        let ghost before = structs_view(structs@);
        if c != top && (chip.cells[c].instances.len() > 0 || referenced[c]) {
            match chip_cell_to_gds_struct(chip, c) {
                Ok(s) => {
                    structs.push(s);
                    assert(structs_view(structs@) =~= before.push(s@));
                },
                Err(e) => {
                    proof {
                        assert(member_structs(*chip, top as int, c + 1) is Err);
                        lemma_members_failure_stays(*chip, top as int, c + 1);
                    }
                    return Err(e);
                },
            }
        }
        c += 1;
    }
    let ghost m = structs_view(structs@);
    structs.push(top_cell_struct);
    assert(structs_view(structs@) =~= m.push(top_cell_struct@));
    Ok(GdsLibrary { name: chip.cells[top].name.clone(), structs })
}

/// Shapes fail to become elements only because GDS cannot draw one of them.
proof fn lemma_shapes_error_kind(layers: Seq<Layer>, shapes: Seq<Shape>)
    ensures
        shapes_elements(layers, shapes) matches Err(k) ==> k == ErrorKind::UnrepresentableGeometry,
    decreases shapes.len(),
{
    if shapes.len() > 0 {
        lemma_shapes_error_kind(layers, shapes.drop_last());
    }
}

/// The shapes of nets fail to become elements only because GDS cannot draw
/// one of them.
proof fn lemma_nets_error_kind(layers: Seq<Layer>, nets: Seq<Net>)
    ensures
        nets_elements(layers, nets) matches Err(k) ==> k == ErrorKind::UnrepresentableGeometry,
    decreases nets.len(),
{
    if nets.len() > 0 {
        lemma_nets_error_kind(layers, nets.drop_last());
        lemma_shapes_error_kind(layers, nets.last().shapes@);
    }
}

/// Instances fail to become references only because a cell is missing or has
/// no bounding box.
proof fn lemma_placements_error_kind(
    cells: Seq<Cell>,
    parent: Seq<char>,
    instances: Seq<CellInstance>,
)
    ensures
        placements(cells, parent, instances) matches Err(e) ==> e.kind
            == ErrorKind::UnresolvedReference || e.kind == ErrorKind::EmptyBoundingBox,
    decreases instances.len(),
{
    if instances.len() > 0 {
        lemma_placements_error_kind(cells, parent, instances.drop_last());
    }
}

/// Whether a kind of failure is one of those that the outline of the top
/// cell gives rise to.
pub open spec fn is_outline_failure(kind: ErrorKind) -> bool {
    kind == ErrorKind::MissingBoundaryLayer || kind == ErrorKind::AmbiguousBoundary
}

/// The members fail to become structures for no reason that has to do with
/// the outline.
proof fn lemma_members_error_kind(model: LayoutModel, top: int, n: int)
    ensures
        member_structs(model, top, n) matches Err(e) ==> !is_outline_failure(e.kind),
    decreases n,
{
    if n > 0 {
        lemma_members_error_kind(model, top, n - 1);
        if 0 <= n - 1 < model.cells.len() {
            let c = model.cells[n - 1];
            lemma_shapes_error_kind(model.layers@, c.shapes@);
            lemma_placements_error_kind(model.cells@, node_name(c.name@), c.instances@);
        }
    }
}

/// The rule of the outline. An export fails with `MissingBoundaryLayer` if
/// the model has no outline layer, and with `AmbiguousBoundary` if it has one
/// and the top cell has no shape on it, or more than one. With exactly one
/// shape on the outline layer the export fails with neither.
pub proof fn lemma_outline_rule(model: LayoutModel, top: int)
    requires
        0 <= top < model.cells.len(),
    ensures
        outline_layer(model.layers@) is None ==> (library(model, top) matches Err(e) && e.kind
            == ErrorKind::MissingBoundaryLayer),
        (outline_layer(model.layers@) matches Some(l) && shapes_on(model.cells[top].shapes@, l).len()
            != 1) ==> (library(model, top) matches Err(e) && e.kind == ErrorKind::AmbiguousBoundary),
        (outline_layer(model.layers@) matches Some(l) && shapes_on(model.cells[top].shapes@, l).len()
            == 1) ==> (library(model, top) matches Err(e) ==> !is_outline_failure(e.kind)),
{
    let c = model.cells[top];
    lemma_members_error_kind(model, top, model.cells.len() as int);
    lemma_shapes_error_kind(model.layers@, c.shapes@);
    lemma_nets_error_kind(model.layers@, c.nets@);
    lemma_placements_error_kind(model.cells@, node_name(c.name@), c.instances@);
    match outline_layer(model.layers@) {
        Some(l) => {
            lemma_shapes_error_kind(model.layers@, shapes_on(c.shapes@, l));
        },
        None => {},
    }
}

} // verus!
