//! Snapping the coordinates of a library to a grid.
use vstd::prelude::*;
use vstd::arithmetic::div_mod::lemma_div_is_ordered;
use regex::RegexSet;
use crate::error::{Error, ErrorKind, ErrorView};
use crate::gds::{
    structs_view, ArrayRefView, BoundaryView, BoxView, ElementView, GdsElement,
    GdsLibrary, GdsPoint, GdsStruct, LibraryView, NodeView, PathView, StructRefView, StructView,
    TextView,
};
use crate::names::{matched_any, regex_set_language};
use crate::walk::{
    lemma_walk_follows_hierarchy, mark_visited, remaining_depth, same_hierarchy, visited,
};

verus! {

/// The multiple of `grid` nearest to `value`; a value halfway between two
/// multiples goes to the larger one.
pub open spec fn snapped(value: int, grid: int) -> int {
    ((2 * value + grid) / (2 * grid)) * grid
}

/// `value` cut to the range of a 32-bit coordinate.
pub open spec fn clamp_coord(value: int) -> int {
    if value < i32::MIN {
        i32::MIN as int
    } else if value > i32::MAX {
        i32::MAX as int
    } else {
        value
    }
}

/// Snaps one coordinate to the grid `nm`. The result is the nearest multiple
/// of `nm`, ties going up; where that multiple lies outside the range of a
/// coordinate the result is the nearest end of the range.
pub fn snap_to_grid_single(value: i32, nm: i32) -> (r: i32)
    requires
        nm > 0,
    ensures
        r == clamp_coord(snapped(value as int, nm as int)),
        value as int % nm as int == 0 ==> r == value,
{
    proof {
        if value as int % nm as int == 0 {
            lemma_snap_aligned(value as int, nm as int);
        }
    }
    let g: i64 = nm as i64;
    let d: i64 = 2 * g;
    let q: i64 = if value >= 0 {
        (2 * (value as i64) + g) / d
    } else {
        let m: i64 = -(value as i64);
        let a: i64 = 2 * m + g - 1;
        let q2: i64 = a / d;
        proof {
            lemma_floor_of_negated(m as int, g as int);
        }
        -q2
    };
    proof {
        lemma_snapped_near(value as int, nm as int);
    }
    let s: i64 = q * g;
    if s > i32::MAX as i64 {
        i32::MAX
    } else if s < i32::MIN as i64 {
        i32::MIN
    } else {
        s as i32
    }
}

/// The quotient that rounds `-m / g` to the nearest whole number, ties going
/// up, written with a dividend that is not negative.
proof fn lemma_floor_of_negated(m: int, g: int)
    requires
        m >= 1,
        g >= 1,
    ensures
        (g - 2 * m) / (2 * g) == -((2 * m + g - 1) / (2 * g)),
{
    let d = 2 * g;
    let a = 2 * m + g - 1;
    let q2 = a / d;
    let n = g - 2 * m;
    assert(q2 * d <= a < q2 * d + d) by (nonlinear_arith)
        requires
            d > 0,
            q2 == a / d,
    ;
    assert((-q2) * d == -(q2 * d)) by (nonlinear_arith);
    assert(n / d == -q2) by (nonlinear_arith)
        requires
            d > 0,
            (-q2) * d <= n < (-q2) * d + d,
    ;
}

/// A coordinate that lies on the grid stays where it is.
pub proof fn lemma_snap_aligned(value: int, grid: int)
    requires
        grid > 0,
        value % grid == 0,
    ensures
        snapped(value, grid) == value,
{
    let k = value / grid;
    let d = 2 * grid;
    let n = 2 * value + grid;
    assert(value == k * grid) by (nonlinear_arith)
        requires
            grid > 0,
            k == value / grid,
            value % grid == 0,
    ;
    assert(k * d <= n < k * d + d) by (nonlinear_arith)
        requires
            grid > 0,
            d == 2 * grid,
            n == 2 * value + grid,
            value == k * grid,
    ;
    assert(n / d == k) by (nonlinear_arith)
        requires
            d > 0,
            k * d <= n < k * d + d,
    ;
}

/// Snapping what was snapped changes nothing.
pub proof fn lemma_snap_idempotent(value: int, grid: int)
    requires
        grid > 0,
    ensures
        snapped(snapped(value, grid), grid) == snapped(value, grid),
{
    lemma_snapped_near(value, grid);
    lemma_snap_aligned(snapped(value, grid), grid);
}

/// The snapped value differs from the value by at most half a grid step.
pub proof fn lemma_snapped_near(value: int, grid: int)
    requires
        grid > 0,
    ensures
        2 * snapped(value, grid) <= 2 * value + grid,
        2 * value < 2 * snapped(value, grid) + grid,
        snapped(value, grid) % grid == 0,
{
    let d = 2 * grid;
    let n = 2 * value + grid;
    let q = n / d;
    assert(q * d <= n < q * d + d) by (nonlinear_arith)
        requires
            d > 0,
            q == n / d,
    ;
    assert(q * d == 2 * (q * grid)) by (nonlinear_arith)
        requires
            d == 2 * grid,
    ;
    assert((q * grid) % grid == 0) by (nonlinear_arith)
        requires
            grid > 0,
    ;
}

/// A point with both coordinates snapped to the grid.
pub open spec fn snap_point(p: GdsPoint, grid: int) -> GdsPoint {
    GdsPoint {
        x: clamp_coord(snapped(p.x as int, grid)) as i32,
        y: clamp_coord(snapped(p.y as int, grid)) as i32,
    }
}

/// A sequence of points, each snapped to the grid.
pub open spec fn snap_points(s: Seq<GdsPoint>, grid: int) -> Seq<GdsPoint> {
    Seq::new(s.len(), |i: int| snap_point(s[i], grid))
}

/// An element with its coordinates snapped to the grid. A structure
/// reference is snapped only if the filter accepts the name it holds; every
/// other element is snapped.
pub open spec fn snap_element(e: ElementView, grid: int, accepted: Set<Seq<char>>) -> ElementView {
    match e {
        ElementView::Boundary(b) => ElementView::Boundary(
            BoundaryView { xy: snap_points(b.xy, grid), ..b },
        ),
        ElementView::Path(p) => ElementView::Path(PathView { xy: snap_points(p.xy, grid), ..p }),
        ElementView::StructRef(r) => if accepted.contains(r.name) {
            ElementView::StructRef(StructRefView { xy: snap_point(r.xy, grid), ..r })
        } else {
            e
        },
        ElementView::ArrayRef(a) => ElementView::ArrayRef(
            ArrayRefView { xy: snap_points(a.xy, grid), ..a },
        ),
        ElementView::Text(t) => ElementView::Text(TextView { xy: snap_point(t.xy, grid), ..t }),
        ElementView::Node(n) => ElementView::Node(NodeView { xy: snap_points(n.xy, grid), ..n }),
        ElementView::Box(b) => ElementView::Box(BoxView { xy: snap_points(b.xy, grid), ..b }),
    }
}

/// A structure with each of its elements snapped.
pub open spec fn snap_struct(s: StructView, grid: int, accepted: Set<Seq<char>>) -> StructView {
    StructView {
        name: s.name,
        elems: Seq::new(s.elems.len(), |j: int| snap_element(s.elems[j], grid, accepted)),
    }
}

/// A library after a snap: the structures that the walk reaches are snapped,
/// the others are as they were.
pub open spec fn snapped_library(
    lib: LibraryView,
    prefix: Seq<char>,
    grid: int,
    depth: nat,
    accepted: Set<Seq<char>>,
) -> LibraryView {
    LibraryView {
        name: lib.name,
        structs: Seq::new(
            lib.structs.len(),
            |k: int|
                if visited(lib.structs, accepted, None, prefix, depth, k) {
                    snap_struct(lib.structs[k], grid, accepted)
                } else {
                    lib.structs[k]
                },
        ),
    }
}

/// A larger coordinate does not snap to a smaller one.
pub proof fn lemma_snap_monotone(low: int, high: int, grid: int)
    requires
        grid > 0,
        low <= high,
    ensures
        snapped(low, grid) <= snapped(high, grid),
{
    let d = 2 * grid;
    let a = (2 * low + grid) / d;
    let b = (2 * high + grid) / d;
    lemma_div_is_ordered(2 * low + grid, 2 * high + grid, d);
    assert(a * grid <= b * grid) by (nonlinear_arith)
        requires
            a <= b,
            grid > 0,
    ;
}

/// Snapping a coordinate that was snapped, and cut to the range of a
/// coordinate, changes nothing.
pub proof fn lemma_snap_coordinate_twice(value: i32, grid: int)
    requires
        grid > 0,
    ensures
        clamp_coord(snapped(clamp_coord(snapped(value as int, grid)), grid)) == clamp_coord(
            snapped(value as int, grid),
        ),
{
    let s = snapped(value as int, grid);
    if s > i32::MAX {
        lemma_snap_monotone(value as int, i32::MAX as int, grid);
    } else if s < i32::MIN {
        lemma_snap_monotone(i32::MIN as int, value as int, grid);
    } else {
        lemma_snap_idempotent(value as int, grid);
    }
}

/// Snapping an element that was snapped changes nothing.
pub proof fn lemma_snap_element_twice(e: ElementView, grid: int, accepted: Set<Seq<char>>)
    requires
        grid > 0,
    ensures
        snap_element(snap_element(e, grid, accepted), grid, accepted) == snap_element(
            e,
            grid,
            accepted,
        ),
{
    assert forall|p: GdsPoint| snap_point(snap_point(p, grid), grid) == snap_point(p, grid) by {
        lemma_snap_coordinate_twice(p.x, grid);
        lemma_snap_coordinate_twice(p.y, grid);
    }
    assert forall|s: Seq<GdsPoint>|
        snap_points(snap_points(s, grid), grid) == #[trigger] snap_points(s, grid) by {
        assert(snap_points(snap_points(s, grid), grid) =~= snap_points(s, grid));
    }
}

/// Snapping a library that was snapped in the same way changes nothing.
pub proof fn lemma_snap_library_twice(
    lib: LibraryView,
    prefix: Seq<char>,
    grid: int,
    depth: nat,
    accepted: Set<Seq<char>>,
)
    requires
        grid > 0,
    ensures
        snapped_library(snapped_library(lib, prefix, grid, depth, accepted), prefix, grid, depth, accepted)
            == snapped_library(lib, prefix, grid, depth, accepted),
{
    let once = snapped_library(lib, prefix, grid, depth, accepted);
    let twice = snapped_library(once, prefix, grid, depth, accepted);
    assert(same_hierarchy(lib.structs, once.structs, accepted, None));
    assert(same_hierarchy(once.structs, lib.structs, accepted, None));
    assert forall|k: int| 0 <= k < lib.structs.len() implies twice.structs[k] == once.structs[k] by {
        if visited(lib.structs, accepted, None, prefix, depth, k) {
            lemma_walk_follows_hierarchy(lib.structs, once.structs, accepted, None, prefix, depth, k);
            let s = lib.structs[k];
            assert forall|j: int| 0 <= j < s.elems.len() implies snap_element(
                snap_element(s.elems[j], grid, accepted),
                grid,
                accepted,
            ) == snap_element(s.elems[j], grid, accepted) by {
                lemma_snap_element_twice(s.elems[j], grid, accepted);
            }
            assert(snap_struct(snap_struct(s, grid, accepted), grid, accepted).elems =~= snap_struct(
                s,
                grid,
                accepted,
            ).elems);
        } else {
            if visited(once.structs, accepted, None, prefix, depth, k) {
                lemma_walk_follows_hierarchy(
                    once.structs,
                    lib.structs,
                    accepted,
                    None,
                    prefix,
                    depth,
                    k,
                );
            }
        }
    }
    assert(twice.structs =~= once.structs);
}

/// Snaps a point to the grid.
fn snap_xy(xy: &mut GdsPoint, nm: i32)
    requires
        nm > 0,
    ensures
        *final(xy) == snap_point(*old(xy), nm as int),
{
    xy.x = snap_to_grid_single(xy.x, nm);
    xy.y = snap_to_grid_single(xy.y, nm);
}

/// Snaps each point of a vector to the grid.
fn snap_xys(xys: &mut Vec<GdsPoint>, nm: i32)
    requires
        nm > 0,
    ensures
        final(xys)@ == snap_points(old(xys)@, nm as int),
{
    let mut i: usize = 0;
    while i < xys.len()
        invariant
            nm > 0,
            xys.len() == old(xys).len(),
            i <= xys.len(),
            forall|k: int| 0 <= k < i ==> xys[k] == snap_point(old(xys)[k], nm as int),
            forall|k: int| i <= k < xys.len() ==> xys[k] == old(xys)[k],
        decreases xys.len() - i,
    {
        snap_xy(&mut xys[i], nm);
        i += 1;
    }
    assert(xys@ =~= snap_points(old(xys)@, nm as int));
}

/// Snaps each point of an array to the grid.
fn snap_xys_array<const N: usize>(xys: &mut [GdsPoint; N], nm: i32)
    requires
        nm > 0,
    ensures
        final(xys)@ == snap_points(old(xys)@, nm as int),
{
    let mut i: usize = 0;
    while i < N
        invariant
            nm > 0,
            i <= N,
            forall|k: int| 0 <= k < i ==> xys[k] == snap_point(old(xys)[k], nm as int),
            forall|k: int| i <= k < N ==> xys[k] == old(xys)[k],
        decreases N - i,
    {
        snap_xy(&mut xys[i], nm);
        i += 1;
    }
    assert(xys@ =~= snap_points(old(xys)@, nm as int));
}

/// Snaps one element to the grid.
fn snap_elem(element: &mut GdsElement, nm: i32, re: &RegexSet)
    requires
        nm > 0,
    ensures
        final(element)@ == snap_element(old(element)@, nm as int, regex_set_language(*re)),
{
    match element {
        GdsElement::GdsBoundary(b) => snap_xys(&mut b.xy, nm),
        GdsElement::GdsPath(p) => snap_xys(&mut p.xy, nm),
        GdsElement::GdsStructRef(r) => {
            if matched_any(re, r.name.as_str()) {
                snap_xy(&mut r.xy, nm);
            }
        },
        GdsElement::GdsArrayRef(a) => snap_xys_array(&mut a.xy, nm),
        GdsElement::GdsTextElem(t) => snap_xy(&mut t.xy, nm),
        GdsElement::GdsNode(n) => snap_xys(&mut n.xy, nm),
        GdsElement::GdsBox(b) => snap_xys_array(&mut b.xy, nm),
    }
}

/// Snaps each element of a structure to the grid.
fn snap_elems(s: &mut GdsStruct, nm: i32, re: &RegexSet)
    requires
        nm > 0,
    ensures
        final(s)@ == snap_struct(old(s)@, nm as int, regex_set_language(*re)),
{
    let mut j: usize = 0;
    while j < s.elems.len()
        invariant
            nm > 0,
            s.name == old(s).name,
            s.elems.len() == old(s).elems.len(),
            j <= s.elems.len(),
            forall|k: int|
                0 <= k < j ==> s.elems[k]@ == snap_element(
                    old(s).elems[k]@,
                    nm as int,
                    regex_set_language(*re),
                ),
            forall|k: int| j <= k < s.elems.len() ==> s.elems[k] == old(s).elems[k],
        decreases s.elems.len() - j,
    {
        snap_elem(&mut s.elems[j], nm, re);
        j += 1;
    }
    assert(s@.elems =~= snap_struct(old(s)@, nm as int, regex_set_language(*re)).elems);
}

/// Snaps the coordinates of a part of a library to the grid `nm`, in place.
///
/// The part is found by a walk. It starts at the structures whose name begins
/// with `name`. In a structure that it reaches, every boundary, path, array
/// reference, text, node and box is snapped, and so is the origin of every
/// structure reference whose name `re` matches; the other structure
/// references stay as they are. Through a reference that `re` matches the walk
/// goes on to the structures whose name begins with the name in the
/// reference, as long as its level, which starts at `depth`, is below
/// `levels`. Each coordinate goes to the nearest multiple of `nm`, a tie to
/// the larger one.
///
/// A grid that is zero or negative is refused before anything is changed.
pub fn snap_to_grid(
    name: &str,
    nm: i32,
    levels: i32,
    lib: &mut GdsLibrary,
    re: &RegexSet,
    depth: i32,
) -> (r: Result<(), Error>)
    ensures
        nm <= 0 ==> (r matches Err(e) && e@ == (ErrorView {
            kind: ErrorKind::InvalidGridTolerance,
            name: Seq::empty(),
        })) && *final(lib) == *old(lib),
        nm > 0 ==> r is Ok && final(lib)@ == snapped_library(
            old(lib)@,
            name@,
            nm as int,
            remaining_depth(levels, depth),
            regex_set_language(*re),
        ),
{
    if nm <= 0 {
        return Err(Error { kind: ErrorKind::InvalidGridTolerance, name: String::new() });
    }
    let n = lib.structs.len();
    let mut flags: Vec<bool> = Vec::new();
    let mut k: usize = 0;
    while k < n
        invariant
            k <= n,
            flags.len() == k,
            forall|c: int| 0 <= c < k ==> !flags[c],
        decreases n - k,
    {
        flags.push(false);
        k += 1;
    }
    mark_visited(lib, name, levels, re, None, depth, &mut flags);
    let ghost accepted = regex_set_language(*re);
    let ghost budget = remaining_depth(levels, depth);
    let mut k: usize = 0;
    while k < n
        invariant
            nm > 0,
            n == lib.structs.len(),
            n == old(lib).structs.len(),
            flags.len() == n,
            k <= n,
            lib.name == old(lib).name,
            accepted == regex_set_language(*re),
            forall|c: int|
                0 <= c < n ==> flags[c] == visited(
                    structs_view(old(lib).structs@),
                    accepted,
                    None,
                    name@,
                    budget,
                    c,
                ),
            forall|c: int|
                0 <= c < k ==> lib.structs[c]@ == (if flags[c] {
                    snap_struct(old(lib).structs[c]@, nm as int, accepted)
                } else {
                    old(lib).structs[c]@
                }),
            forall|c: int| k <= c < n ==> lib.structs[c] == old(lib).structs[c],
        decreases n - k,
    {
        if flags[k] {
            snap_elems(&mut lib.structs[k], nm, re);
        }
        k += 1;
    }
    proof {
        let after = snapped_library(old(lib)@, name@, nm as int, budget, accepted);
        assert(old(lib)@.structs == structs_view(old(lib).structs@));
        assert forall|c: int| 0 <= c < n implies lib@.structs[c] == after.structs[c] by {
            assert(lib@.structs[c] == lib.structs[c]@);
            assert(old(lib)@.structs[c] == old(lib).structs[c]@);
            assert(flags[c] == visited(old(lib)@.structs, accepted, None, name@, budget, c));
        }
        assert(lib@.structs =~= after.structs);
    }
    Ok(())
}

} // verus!
