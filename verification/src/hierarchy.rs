//! What holds of every library that an export gives: its structures are
//! those of the member cells and of the top cell, under their names; each
//! structure reference in it names a structure of the library; each boundary
//! in it is a closed ring; and no two structures have the same name where no
//! two cells have.
use vstd::prelude::*;
use crate::error::ErrorView;
use crate::export::{
    cell_struct, has_parent, is_member, library, member_structs, nets_elements, node_name,
    outline_layer, placement, placements, shapes_elements, shapes_on, top_struct,
};
use crate::gds::{ElementView, GdsPoint, LibraryView, StructView};
use crate::layout::{Cell, CellInstance, Layer, LayoutModel, Net, Shape};

verus! {

/// Whether a library holds a structure of the given name.
pub open spec fn has_struct(structs: Seq<StructView>, name: Seq<char>) -> bool {
    exists|c: int| 0 <= c < structs.len() && (#[trigger] structs[c]).name == name
}

/// Whether each structure reference in a library names a structure of the
/// library.
pub open spec fn references_resolve(lib: LibraryView) -> bool {
    forall|a: int, b: int|
        0 <= a < lib.structs.len() && 0 <= b < lib.structs[a].elems.len() ==> (
        #[trigger] lib.structs[a].elems[b] matches ElementView::StructRef(r) ==> has_struct(
            lib.structs,
            r.name,
        ))
}

/// Whether an element is a reference to the structure of one of the cells
/// that the instances place.
spec fn names_template(e: ElementView, cells: Seq<Cell>, instances: Seq<CellInstance>) -> bool {
    e matches ElementView::StructRef(r) ==> exists|j: int|
        0 <= j < instances.len() && (#[trigger] instances[j]).template < cells.len() && r.name
            == node_name(cells[instances[j].template as int].name@)
}

/// The elements of shapes are no references.
proof fn lemma_shapes_are_no_references(layers: Seq<Layer>, shapes: Seq<Shape>)
    ensures
        shapes_elements(layers, shapes) matches Ok(v) ==> forall|i: int|
            0 <= i < v.len() ==> !(#[trigger] v[i] is StructRef),
    decreases shapes.len(),
{
    if shapes.len() > 0 {
        lemma_shapes_are_no_references(layers, shapes.drop_last());
    }
}

/// The elements of the shapes of nets are no references.
proof fn lemma_nets_are_no_references(layers: Seq<Layer>, nets: Seq<Net>)
    ensures
        nets_elements(layers, nets) matches Ok(v) ==> forall|i: int|
            0 <= i < v.len() ==> !(#[trigger] v[i] is StructRef),
    decreases nets.len(),
{
    if nets.len() > 0 {
        lemma_nets_are_no_references(layers, nets.drop_last());
        lemma_shapes_are_no_references(layers, nets.last().shapes@);
    }
}

/// Each reference for an instance names the structure of the cell that one
/// of the instances places.
proof fn lemma_placements_name_templates(
    cells: Seq<Cell>,
    parent: Seq<char>,
    instances: Seq<CellInstance>,
)
    ensures
        placements(cells, parent, instances) matches Ok(v) ==> forall|i: int|
            0 <= i < v.len() ==> names_template(#[trigger] v[i], cells, instances),
    decreases instances.len(),
{
    if instances.len() > 0 {
        let rest = instances.drop_last();
        lemma_placements_name_templates(cells, parent, rest);
        match placements(cells, parent, instances) {
            Ok(v) => {
                let before = placements(cells, parent, rest)->Ok_0;
                assert forall|i: int| 0 <= i < v.len() implies names_template(
                    #[trigger] v[i],
                    cells,
                    instances,
                ) by {
                    if i < before.len() {
                        assert(v[i] == before[i]);
                        if v[i] is StructRef {
                            let j = choose|j: int|
                                0 <= j < rest.len() && (#[trigger] rest[j]).template < cells.len()
                                    && v[i]->StructRef_0.name == node_name(
                                    cells[rest[j].template as int].name@,
                                );
                            assert(instances[j] == rest[j]);
                        }
                    } else {
                        let last = instances.len() - 1;
                        assert(instances[last] == instances.last());
                        assert(v[i] == placement(cells, parent, instances.last())->Ok_0);
                    }
                }
            },
            Err(_) => {},
        }
    }
}

/// Each reference in the structure of a cell names the structure of a cell
/// that an instance in the cell places.
proof fn lemma_cell_struct_references(model: LayoutModel, c: int)
    ensures
        cell_struct(model, c) matches Ok(s) ==> 0 <= c < model.cells.len() && forall|b: int|
            0 <= b < s.elems.len() ==> names_template(
                #[trigger] s.elems[b],
                model.cells@,
                model.cells[c].instances@,
            ),
{
    if 0 <= c < model.cells.len() {
        let cell = model.cells[c];
        lemma_shapes_are_no_references(model.layers@, cell.shapes@);
        lemma_placements_name_templates(model.cells@, node_name(cell.name@), cell.instances@);
    }
}

/// Each reference in the structure of the top cell names the structure of a
/// cell that an instance in the top cell places.
proof fn lemma_top_struct_references(model: LayoutModel, top: int)
    requires
        0 <= top < model.cells.len(),
    ensures
        top_struct(model, top) matches Ok(s) ==> s.name == node_name(model.cells[top].name@)
            && forall|b: int|
            0 <= b < s.elems.len() ==> names_template(
                #[trigger] s.elems[b],
                model.cells@,
                model.cells[top].instances@,
            ),
{
    let cell = model.cells[top];
    lemma_shapes_are_no_references(model.layers@, cell.shapes@);
    lemma_nets_are_no_references(model.layers@, cell.nets@);
    lemma_placements_name_templates(model.cells@, node_name(cell.name@), cell.instances@);
    match outline_layer(model.layers@) {
        Some(l) => {
            lemma_shapes_are_no_references(
                model.layers@,
                shapes_on(cell.shapes@, l),
            );
        },
        None => {},
    }
}

/// Whether a structure is that of a member among the first `n` cells.
spec fn is_member_struct(model: LayoutModel, top: int, n: int, s: StructView) -> bool {
    exists|c: int|
        0 <= c < n && c < model.cells.len() && is_member(model.cells@, top, c)
            && #[trigger] cell_struct(model, c) == Ok::<StructView, ErrorView>(s)
}

/// The structures of the members are those of the cells that are members,
/// and each member has its structure among them.
proof fn lemma_member_structs(model: LayoutModel, top: int, n: int)
    requires
        n <= model.cells.len(),
    ensures
        member_structs(model, top, n) matches Ok(v) ==> {
            &&& forall|i: int| 0 <= i < v.len() ==> is_member_struct(model, top, n, #[trigger] v[i])
            &&& forall|c: int|
                0 <= c < n && is_member(model.cells@, top, c) ==> has_struct(
                    v,
                    node_name((#[trigger] model.cells[c]).name@),
                )
        },
    decreases n,
{
    if n > 0 {
        lemma_member_structs(model, top, n - 1);
        match member_structs(model, top, n) {
            Ok(v) => {
                let before = member_structs(model, top, n - 1)->Ok_0;
                assert forall|i: int| 0 <= i < v.len() implies is_member_struct(
                    model,
                    top,
                    n,
                    #[trigger] v[i],
                ) by {
                    if i < before.len() {
                        assert(v[i] == before[i]);
                        assert(is_member_struct(model, top, n - 1, before[i]));
                        let c = choose|c: int|
                            0 <= c < n - 1 && c < model.cells.len() && is_member(
                                model.cells@,
                                top,
                                c,
                            ) && #[trigger] cell_struct(model, c) == Ok::<StructView, ErrorView>(
                                before[i],
                            );
                        assert(cell_struct(model, c) == Ok::<StructView, ErrorView>(v[i]));
                    } else {
                        assert(cell_struct(model, n - 1) == Ok::<StructView, ErrorView>(v[i]));
                    }
                }
                assert forall|c: int| 0 <= c < n && is_member(model.cells@, top, c) implies has_struct(
                    v,
                    node_name((#[trigger] model.cells[c]).name@),
                ) by {
                    if c < n - 1 {
                        assert(has_struct(before, node_name(model.cells[c].name@)));
                        let idx = choose|idx: int|
                            0 <= idx < before.len() && (#[trigger] before[idx]).name == node_name(
                                model.cells[c].name@,
                            );
                        assert(v[idx] == before[idx]);
                    } else {
                        let idx = v.len() - 1;
                        assert(v[idx] == cell_struct(model, c)->Ok_0);
                        assert(v[idx].name == node_name(model.cells[c].name@));
                    }
                }
            },
            Err(_) => {},
        }
    }
}

/// In a library that an export gives, each structure reference names a
/// structure of the library.
pub proof fn lemma_references_resolve(model: LayoutModel, top: int)
    ensures
        library(model, top) matches Ok(l) ==> references_resolve(l),
{
    match library(model, top) {
        Ok(l) => {
            let n = model.cells.len() as int;
            let m = member_structs(model, top, n)->Ok_0;
            let t = top_struct(model, top)->Ok_0;
            lemma_member_structs(model, top, n);
            lemma_top_struct_references(model, top);
            assert(l.structs == m.push(t));
            assert forall|a: int, b: int|
                0 <= a < l.structs.len() && 0 <= b < l.structs[a].elems.len() implies (
            #[trigger] l.structs[a].elems[b] matches ElementView::StructRef(r) ==> has_struct(
                l.structs,
                r.name,
            )) by {
                let e = l.structs[a].elems[b];
                if e is StructRef {
                    let r = e->StructRef_0;
                    let parent: int = if a < m.len() {
                        assert(l.structs[a] == m[a]);
                        assert(is_member_struct(model, top, n, m[a]));
                        let c = choose|c: int|
                            0 <= c < n && c < model.cells.len() && is_member(model.cells@, top, c)
                                && #[trigger] cell_struct(model, c) == Ok::<StructView, ErrorView>(
                                m[a],
                            );
                        lemma_cell_struct_references(model, c);
                        let s = cell_struct(model, c)->Ok_0;
                        assert(s.elems[b] == e);
                        assert(names_template(e, model.cells@, model.cells[c].instances@));
                        c
                    } else {
                        assert(l.structs[a] == t);
                        assert(t.elems[b] == e);
                        assert(names_template(e, model.cells@, model.cells[top].instances@));
                        top
                    };
                    let instances = model.cells[parent].instances@;
                    assert(names_template(e, model.cells@, instances));
                    let j = choose|j: int|
                        0 <= j < instances.len() && (#[trigger] instances[j]).template
                            < model.cells.len() && r.name == node_name(
                            model.cells[instances[j].template as int].name@,
                        );
                    let target = instances[j].template as int;
                    assert(model.cells@[parent].instances[j].template == target);
                    assert(has_parent(model.cells@, target));
                    if target == top {
                        assert(l.structs[m.len() as int] == t);
                    } else {
                        assert(is_member(model.cells@, top, target));
                        assert(has_struct(m, node_name(model.cells[target].name@)));
                        let idx = choose|idx: int|
                            0 <= idx < m.len() && (#[trigger] m[idx]).name == node_name(
                                model.cells[target].name@,
                            );
                        assert(l.structs[idx] == m[idx]);
                    }
                }
            }
        },
        Err(_) => {},
    }
}

/// Whether a ring of points is closed: it is empty, or its last point is its
/// first.
pub open spec fn ring_closed(xy: Seq<GdsPoint>) -> bool {
    xy.len() == 0 || xy.first() == xy.last()
}

/// Whether an element, if it is a boundary, is a closed ring.
pub open spec fn is_closed(e: ElementView) -> bool {
    e matches ElementView::Boundary(b) ==> ring_closed(b.xy)
}

/// Whether each boundary in a library is a closed ring.
pub open spec fn rings_closed(lib: LibraryView) -> bool {
    forall|a: int, b: int|
        0 <= a < lib.structs.len() && 0 <= b < lib.structs[a].elems.len() ==> is_closed(
            #[trigger] lib.structs[a].elems[b],
        )
}

/// The boundaries among the elements of shapes are closed rings.
proof fn lemma_shapes_are_closed(layers: Seq<Layer>, shapes: Seq<Shape>)
    ensures
        shapes_elements(layers, shapes) matches Ok(v) ==> forall|i: int|
            0 <= i < v.len() ==> is_closed(#[trigger] v[i]),
    decreases shapes.len(),
{
    if shapes.len() > 0 {
        lemma_shapes_are_closed(layers, shapes.drop_last());
    }
}

/// The boundaries among the elements of the shapes of nets are closed rings.
proof fn lemma_nets_are_closed(layers: Seq<Layer>, nets: Seq<Net>)
    ensures
        nets_elements(layers, nets) matches Ok(v) ==> forall|i: int|
            0 <= i < v.len() ==> is_closed(#[trigger] v[i]),
    decreases nets.len(),
{
    if nets.len() > 0 {
        lemma_nets_are_closed(layers, nets.drop_last());
        lemma_shapes_are_closed(layers, nets.last().shapes@);
    }
}

/// The references for instances are no boundaries.
proof fn lemma_placements_are_closed(
    cells: Seq<Cell>,
    parent: Seq<char>,
    instances: Seq<CellInstance>,
)
    ensures
        placements(cells, parent, instances) matches Ok(v) ==> forall|i: int|
            0 <= i < v.len() ==> is_closed(#[trigger] v[i]),
    decreases instances.len(),
{
    if instances.len() > 0 {
        lemma_placements_are_closed(cells, parent, instances.drop_last());
    }
}

/// In a library that an export gives, each boundary is a closed ring.
pub proof fn lemma_rings_closed(model: LayoutModel, top: int)
    ensures
        library(model, top) matches Ok(l) ==> rings_closed(l),
{
    match library(model, top) {
        Ok(l) => {
            let n = model.cells.len() as int;
            let m = member_structs(model, top, n)->Ok_0;
            let t = top_struct(model, top)->Ok_0;
            lemma_member_structs(model, top, n);
            assert(l.structs == m.push(t));
            assert forall|a: int, b: int|
                0 <= a < l.structs.len() && 0 <= b < l.structs[a].elems.len() implies is_closed(
                #[trigger] l.structs[a].elems[b],
            ) by {
                let c: int = if a < m.len() {
                    assert(l.structs[a] == m[a]);
                    assert(is_member_struct(model, top, n, m[a]));
                    choose|c: int|
                        0 <= c < n && c < model.cells.len() && is_member(model.cells@, top, c)
                            && #[trigger] cell_struct(model, c) == Ok::<StructView, ErrorView>(m[a])
                } else {
                    assert(l.structs[a] == t);
                    top
                };
                let cell = model.cells[c];
                lemma_shapes_are_closed(model.layers@, cell.shapes@);
                lemma_nets_are_closed(model.layers@, cell.nets@);
                lemma_placements_are_closed(model.cells@, node_name(cell.name@), cell.instances@);
                match outline_layer(model.layers@) {
                    Some(o) => {
                        lemma_shapes_are_closed(model.layers@, shapes_on(cell.shapes@, o));
                    },
                    None => {},
                }
            }
        },
        Err(_) => {},
    }
}

/// The members among the first `n` cells, in the order of the cells.
pub open spec fn member_cells(model: LayoutModel, top: int, n: int) -> Seq<int>
    decreases n,
{
    if n <= 0 {
        Seq::empty()
    } else {
        let rest = member_cells(model, top, n - 1);
        if is_member(model.cells@, top, n - 1) {
            rest.push(n - 1)
        } else {
            rest
        }
    }
}

/// The members among the first `n` cells are members, come in rising order,
/// and are all the members there are among these cells.
pub proof fn lemma_member_cells(model: LayoutModel, top: int, n: int)
    ensures
        forall|i: int|
            0 <= i < member_cells(model, top, n).len() ==> 0 <= (#[trigger] member_cells(
                model,
                top,
                n,
            )[i]) < n && is_member(model.cells@, top, member_cells(model, top, n)[i]),
        forall|i: int, j: int|
            0 <= i < j < member_cells(model, top, n).len() ==> (#[trigger] member_cells(
                model,
                top,
                n,
            )[i]) < #[trigger] member_cells(model, top, n)[j],
        forall|c: int|
            0 <= c < n && is_member(model.cells@, top, c) ==> member_cells(model, top, n).contains(
                c,
            ),
    decreases n,
{
    if n > 0 {
        lemma_member_cells(model, top, n - 1);
        let rest = member_cells(model, top, n - 1);
        let all = member_cells(model, top, n);
        assert forall|c: int| 0 <= c < n && is_member(model.cells@, top, c) implies all.contains(
            c,
        ) by {
            if c < n - 1 {
                let i = choose|i: int| 0 <= i < rest.len() && rest[i] == c;
                assert(all[i] == c);
            } else {
                assert(all[all.len() - 1] == c);
            }
        }
    }
}

/// The structures of the members are the structures of the member cells, one
/// for one.
pub proof fn lemma_member_structs_by_cell(model: LayoutModel, top: int, n: int)
    ensures
        member_structs(model, top, n) matches Ok(v) ==> v.len() == member_cells(model, top, n).len()
            && forall|i: int|
            0 <= i < v.len() ==> cell_struct(model, member_cells(model, top, n)[i]) == Ok::<
                StructView,
                ErrorView,
            >(#[trigger] v[i]),
    decreases n,
{
    if n > 0 {
        lemma_member_structs_by_cell(model, top, n - 1);
    }
}

/// The names in a library that an export gives: the library has the name of
/// the top cell; its last structure is named after the top cell, and each
/// structure before it after the member cell whose structure it is.
pub proof fn lemma_library_names(model: LayoutModel, top: int)
    ensures
        library(model, top) matches Ok(l) ==> {
            let members = member_cells(model, top, model.cells.len() as int);
            &&& 0 <= top < model.cells.len()
            &&& l.name == model.cells[top].name@
            &&& l.structs.len() == members.len() + 1
            &&& l.structs.last().name == node_name(model.cells[top].name@)
            &&& forall|i: int|
                0 <= i < members.len() ==> (#[trigger] l.structs[i]).name == node_name(
                    model.cells[members[i]].name@,
                )
        },
{
    match library(model, top) {
        Ok(l) => {
            let n = model.cells.len() as int;
            let members = member_cells(model, top, n);
            lemma_member_structs_by_cell(model, top, n);
            lemma_member_cells(model, top, n);
            lemma_top_struct_references(model, top);
            let m = member_structs(model, top, n)->Ok_0;
            assert forall|i: int| 0 <= i < members.len() implies (#[trigger] l.structs[i]).name
                == node_name(model.cells[members[i]].name@) by {
                assert(l.structs[i] == m[i]);
                assert(0 <= members[i] < n);
            }
        },
        Err(_) => {},
    }
}

/// Whether no two cells of a model give their structures the same name.
pub open spec fn names_differ(model: LayoutModel) -> bool {
    forall|a: int, b: int|
        0 <= a < b < model.cells.len() ==> node_name((#[trigger] model.cells[a]).name@)
            != node_name((#[trigger] model.cells[b]).name@)
}

/// Whether no two structures of a library have the same name.
pub open spec fn names_unique(lib: LibraryView) -> bool {
    forall|a: int, b: int|
        0 <= a < b < lib.structs.len() ==> (#[trigger] lib.structs[a]).name
            != (#[trigger] lib.structs[b]).name
}

/// In a library that an export gives, no two structures have the same name,
/// provided that no two cells give their structures the same name.
pub proof fn lemma_names_unique(model: LayoutModel, top: int)
    requires
        names_differ(model),
    ensures
        library(model, top) matches Ok(l) ==> names_unique(l),
{
    match library(model, top) {
        Ok(l) => {
            let n = model.cells.len() as int;
            let members = member_cells(model, top, n);
            lemma_library_names(model, top);
            lemma_member_cells(model, top, n);
            assert forall|a: int, b: int| 0 <= a < b < l.structs.len() implies (
            #[trigger] l.structs[a]).name != (#[trigger] l.structs[b]).name by {
                let ca = members[a];
                let cb = if b < members.len() {
                    members[b]
                } else {
                    top
                };
                assert(is_member(model.cells@, top, ca));
                assert(ca != cb);
                assert(l.structs[a].name == node_name(model.cells[ca].name@));
                assert(l.structs[b].name == node_name(model.cells[cb].name@)) by {
                    if b >= members.len() {
                        assert(l.structs[b] == l.structs.last());
                    }
                }
                if ca < cb {
                    assert(node_name(model.cells[ca].name@) != node_name(model.cells[cb].name@));
                } else {
                    assert(node_name(model.cells[cb].name@) != node_name(model.cells[ca].name@));
                }
            }
        },
        Err(_) => {},
    }
}

} // verus!
