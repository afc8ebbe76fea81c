//! Listing the placements of a library.
use vstd::prelude::*;
use regex::RegexSet;
use crate::gds::{ElementView, GdsElement, GdsLibrary, GdsPoint, GdsStrans, StructRefView, StructView};
use crate::names::{matched_any, regex_set_language, starts_with};
use crate::transform::Angle;

verus! {

/// Where and how a reference places its structure.
#[derive(Clone, Copy, Debug, PartialEq, Eq, Structural)]
pub struct ElementLayout {
    pub position: GdsPoint,
    pub rotation: Angle,
    pub scale: i32,
    pub mirrored: bool,
}

/// One placement: the name of the structure placed, and its layout.
#[derive(Clone, Debug, PartialEq, Eq)]
pub struct Element {
    pub name: String,
    pub layout: ElementLayout,
}

/// The mathematical value of an [`Element`].
pub struct PlacementView {
    pub name: Seq<char>,
    pub layout: ElementLayout,
}

impl View for Element {
    type V = PlacementView;

    open spec fn view(&self) -> PlacementView {
        PlacementView { name: self.name@, layout: self.layout }
    }
}

/// Whether an element is a structure reference whose name the filter accepts.
pub open spec fn is_selected(e: ElementView, accepted: Set<Seq<char>>) -> bool {
    e matches ElementView::StructRef(r) && accepted.contains(r.name)
}

/// The places, in structure `k`, of the elements that are selected: pairs of
/// `k` and the position of the element, in the order of the elements.
pub open spec fn selected_in(elems: Seq<ElementView>, k: int, accepted: Set<Seq<char>>) -> Seq<
    (int, int),
>
    decreases elems.len(),
{
    if elems.len() == 0 {
        Seq::empty()
    } else {
        let rest = selected_in(elems.drop_last(), k, accepted);
        if is_selected(elems.last(), accepted) {
            rest.push((k, elems.len() - 1))
        } else {
            rest
        }
    }
}

/// The places of the selected elements in those of the first `n` structures
/// whose name begins with `prefix`, in the order of the structures.
pub open spec fn selected(
    structs: Seq<StructView>,
    prefix: Seq<char>,
    accepted: Set<Seq<char>>,
    n: int,
) -> Seq<(int, int)>
    decreases n,
{
    if n <= 0 {
        Seq::empty()
    } else {
        let rest = selected(structs, prefix, accepted, n - 1);
        if prefix.is_prefix_of(structs[n - 1].name) {
            rest + selected_in(structs[n - 1].elems, n - 1, accepted)
        } else {
            rest
        }
    }
}

/// The layout of a reference at `xy` with the given orientation. A reference
/// without an orientation is not rotated, not magnified and not mirrored, and
/// so it is for each part that an orientation leaves open.
pub open spec fn layout_of(xy: GdsPoint, strans: Option<GdsStrans>) -> ElementLayout {
    match strans {
        Some(t) => ElementLayout {
            position: xy,
            rotation: match t.angle {
                Some(a) => a,
                None => Angle::R0,
            },
            scale: match t.mag {
                Some(m) => m,
                None => 1,
            },
            mirrored: t.reflected,
        },
        None => ElementLayout { position: xy, rotation: Angle::R0, scale: 1, mirrored: false },
    }
}

/// The placement that a structure reference describes.
pub open spec fn placement_of(r: StructRefView) -> PlacementView {
    PlacementView { name: r.name, layout: layout_of(r.xy, r.strans) }
}

/// The placements that the filter selects in the structures whose name
/// begins with `prefix`, in the order of the structures and of their
/// elements.
pub open spec fn extracted(
    structs: Seq<StructView>,
    prefix: Seq<char>,
    accepted: Set<Seq<char>>,
) -> Seq<PlacementView> {
    let places = selected(structs, prefix, accepted, structs.len() as int);
    Seq::new(
        places.len(),
        |i: int| placement_of(structs[places[i].0].elems[places[i].1]->StructRef_0),
    )
}

/// The places that a vector of index pairs holds.
pub open spec fn places_view(v: Seq<(usize, usize)>) -> Seq<(int, int)> {
    Seq::new(v.len(), |i: int| (v[i].0 as int, v[i].1 as int))
}

/// The values of a sequence of placements.
pub open spec fn placements_view(v: Seq<Element>) -> Seq<PlacementView> {
    Seq::new(v.len(), |i: int| v[i]@)
}

/// Finds the structure references that `re` matches in the structures whose
/// name begins with `top`. Each is given by the position of its structure in
/// the library and its own position in the structure; they come in the order
/// of the structures and of their elements.
pub fn select_placements(top: &str, lib: &GdsLibrary, re: &RegexSet) -> (r: Vec<(usize, usize)>)
    ensures
        places_view(r@) == selected(
            lib@.structs,
            top@,
            regex_set_language(*re),
            lib.structs.len() as int,
        ),
        forall|i: int|
            0 <= i < r.len() ==> (#[trigger] r[i]).0 < lib.structs.len() && r[i].1
                < lib.structs[r[i].0 as int].elems.len() && lib.structs[r[i].0 as int].elems[r[i].1 as int] is GdsStructRef,
{
    let ghost structs = lib@.structs;
    let ghost accepted = regex_set_language(*re);
    let mut results: Vec<(usize, usize)> = Vec::new();
    let mut k: usize = 0;
    assert(places_view(results@) =~= Seq::empty());
    while k < lib.structs.len()
        invariant
            k <= lib.structs.len(),
            structs == lib@.structs,
            accepted == regex_set_language(*re),
            places_view(results@) == selected(structs, top@, accepted, k as int),
            forall|i: int|
                0 <= i < results.len() ==> (#[trigger] results[i]).0 < lib.structs.len()
                    && results[i].1 < lib.structs[results[i].0 as int].elems.len()
                    && lib.structs[results[i].0 as int].elems[results[i].1 as int] is GdsStructRef,
        decreases lib.structs.len() - k,
    {
        let s = &lib.structs[k];
        assert(structs[k as int] == s@);
        if starts_with(s.name.as_str(), top) {
            let ghost base = places_view(results@);
            let ghost elems = structs[k as int].elems;
            let mut j: usize = 0;
            assert(elems.take(0) =~= Seq::empty());
            assert(base + Seq::<(int, int)>::empty() =~= base);
            while j < s.elems.len()
                invariant
                    k < lib.structs.len(),
                    s == &lib.structs[k as int],
                    j <= s.elems.len(),
                    structs == lib@.structs,
                    elems == structs[k as int].elems,
                    elems.len() == s.elems.len(),
                    accepted == regex_set_language(*re),
                    places_view(results@) == base + selected_in(
                        elems.take(j as int),
                        k as int,
                        accepted,
                    ),
                    forall|i: int|
                        0 <= i < results.len() ==> (#[trigger] results[i]).0 < lib.structs.len()
                            && results[i].1 < lib.structs[results[i].0 as int].elems.len()
                            && lib.structs[results[i].0 as int].elems[results[i].1 as int] is GdsStructRef,
                decreases s.elems.len() - j,
            {
                let ghost before = places_view(results@);
                proof {
                    assert(elems.take(j + 1).drop_last() =~= elems.take(j as int));
                    assert(elems.take(j + 1).last() == elems[j as int]);
                    assert(elems[j as int] == s.elems[j as int]@);
                }
                match &s.elems[j] {
                    GdsElement::GdsStructRef(r) => {
                        if matched_any(re, r.name.as_str()) {
                            results.push((k, j));
                            assert(places_view(results@) =~= before.push((k as int, j as int)));
                        }
                    },
                    _ => {},
                }
                assert(places_view(results@) =~= base + selected_in(
                    elems.take(j + 1),
                    k as int,
                    accepted,
                ));
                j += 1;
            }
            assert(elems.take(j as int) =~= elems);
        }
        k += 1;
    }
    results
}

/// The layout of a reference.
fn layout(xy: GdsPoint, strans: &Option<GdsStrans>) -> (l: ElementLayout)
    ensures
        l == layout_of(xy, *strans),
{
    match strans {
        Some(t) => ElementLayout {
            position: xy,
            rotation: match t.angle {
                Some(a) => a,
                None => Angle::R0,
            },
            scale: match t.mag {
                Some(m) => m,
                None => 1,
            },
            mirrored: t.reflected,
        },
        None => ElementLayout { position: xy, rotation: Angle::R0, scale: 1, mirrored: false },
    }
}

/// Lists the placements that `re` matches in the structures whose name
/// begins with `top`: for each such structure reference, in the order of the
/// structures and of their elements, the name it holds, its origin, its angle,
/// its magnification and whether it is mirrored.
pub fn extract_layout_data(top: &str, lib: &GdsLibrary, re: &RegexSet) -> (r: Vec<Element>)
    ensures
        placements_view(r@) == extracted(lib@.structs, top@, regex_set_language(*re)),
{
    let places = select_placements(top, lib, re);
    let ghost structs = lib@.structs;
    let ghost sel = selected(structs, top@, regex_set_language(*re), structs.len() as int);
    let mut results: Vec<Element> = Vec::new();
    let mut i: usize = 0;
    while i < places.len()
        invariant
            i <= places.len(),
            results.len() == i,
            structs == lib@.structs,
            places_view(places@) == sel,
            forall|c: int|
                0 <= c < places.len() ==> (#[trigger] places[c]).0 < lib.structs.len() && places[c].1
                    < lib.structs[places[c].0 as int].elems.len()
                    && lib.structs[places[c].0 as int].elems[places[c].1 as int] is GdsStructRef,
            forall|c: int|
                0 <= c < i ==> (#[trigger] results[c])@ == placement_of(
                    structs[sel[c].0].elems[sel[c].1]->StructRef_0,
                ),
        decreases places.len() - i,
    {
        let (k, j) = places[i];
        proof {
            assert(sel[i as int] == (k as int, j as int));
            assert(structs[k as int] == lib.structs[k as int]@);
            assert(structs[k as int].elems[j as int] == lib.structs[k as int].elems[j as int]@);
        }
        match &lib.structs[k].elems[j] {
            GdsElement::GdsStructRef(sref) => {
                results.push(Element { name: sref.name.clone(), layout: layout(sref.xy, &sref.strans) });
            },
            _ => {
                assert(false);
            },
        }
        i += 1;
    }
    assert(placements_view(results@) =~= extracted(structs, top@, regex_set_language(*re)));
    results
}

} // verus!
