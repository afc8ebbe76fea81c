//! Which structures of a library a walk reaches.
//!
//! A walk starts at the structures whose name begins with a prefix. From a
//! structure that it reaches it goes on through the structure references that
//! the name filter selects, to the structures whose name begins with the name
//! that the reference leads to, as long as its depth allows.
use vstd::prelude::*;
use regex::RegexSet;
use crate::gds::{structs_view, ElementView, GdsElement, GdsLibrary, StructView};
use crate::names::{matched_any, regex_set_language, starts_with};
use crate::replace::RenameTable;

verus! {

/// The levels that a walk may still descend: `levels` less `depth`, and none
/// where `depth` has reached `levels`.
pub open spec fn remaining_depth(levels: i32, depth: i32) -> nat {
    if depth < levels {
        (levels - depth) as nat
    } else {
        0
    }
}

/// The name that a walk follows from an element. Only a structure reference
/// whose name the filter accepts leads anywhere. Without a rename table it
/// leads to the name it holds; with one, to the new name that the table has
/// for that name, and nowhere if the table has none.
pub open spec fn followed_name(
    e: ElementView,
    accepted: Set<Seq<char>>,
    renames: Option<Map<Seq<char>, Seq<char>>>,
) -> Option<Seq<char>> {
    match e {
        ElementView::StructRef(r) => if accepted.contains(r.name) {
            match renames {
                None => Some(r.name),
                Some(m) => if m.contains_key(r.name) {
                    Some(m[r.name])
                } else {
                    None
                },
            }
        } else {
            None
        },
        _ => None,
    }
}

/// Whether a walk that starts at the structures whose name begins with
/// `prefix`, and may descend `depth` levels, reaches structure `k`.
pub open spec fn visited(
    structs: Seq<StructView>,
    accepted: Set<Seq<char>>,
    renames: Option<Map<Seq<char>, Seq<char>>>,
    prefix: Seq<char>,
    depth: nat,
    k: int,
) -> bool
    decreases depth, 1nat,
{
    exists|i: int|
        0 <= i < structs.len() && prefix.is_prefix_of((#[trigger] structs[i]).name) && reaches(
            structs,
            accepted,
            renames,
            i,
            depth,
            k,
        )
}

/// Whether a walk that has come to structure `i`, and may descend `depth`
/// levels from there, reaches structure `k`: it does if `k` is `i`, and if it
/// may descend and one of the elements of `i` leads to a name from which a
/// walk of one level less reaches `k`.
pub open spec fn reaches(
    structs: Seq<StructView>,
    accepted: Set<Seq<char>>,
    renames: Option<Map<Seq<char>, Seq<char>>>,
    i: int,
    depth: nat,
    k: int,
) -> bool
    decreases depth, 0nat,
{
    k == i || (depth > 0 && exists|j: int|
        0 <= j < structs[i].elems.len() && (followed_name(
            #[trigger] structs[i].elems[j],
            accepted,
            renames,
        ) matches Some(t) && visited(structs, accepted, renames, t, (depth - 1) as nat, k)))
}

/// A walk reaches every structure whose name begins with the prefix.
pub proof fn lemma_walk_reaches_its_start(
    structs: Seq<StructView>,
    accepted: Set<Seq<char>>,
    renames: Option<Map<Seq<char>, Seq<char>>>,
    prefix: Seq<char>,
    depth: nat,
    k: int,
)
    requires
        0 <= k < structs.len(),
        prefix.is_prefix_of(structs[k].name),
    ensures
        visited(structs, accepted, renames, prefix, depth, k),
{
    assert(reaches(structs, accepted, renames, k, depth, k));
}

/// A walk that may not descend reaches the structures whose name begins with
/// the prefix, and no others.
pub proof fn lemma_walk_without_depth(
    structs: Seq<StructView>,
    accepted: Set<Seq<char>>,
    renames: Option<Map<Seq<char>, Seq<char>>>,
    prefix: Seq<char>,
    k: int,
)
    ensures
        visited(structs, accepted, renames, prefix, 0, k) <==> 0 <= k < structs.len()
            && prefix.is_prefix_of(structs[k].name),
{
    if 0 <= k < structs.len() && prefix.is_prefix_of(structs[k].name) {
        lemma_walk_reaches_its_start(structs, accepted, renames, prefix, 0, k);
    }
}

/// A walk that may descend further reaches all that a shallower walk
/// reaches.
pub proof fn lemma_walk_deepens(
    structs: Seq<StructView>,
    accepted: Set<Seq<char>>,
    renames: Option<Map<Seq<char>, Seq<char>>>,
    prefix: Seq<char>,
    depth: nat,
    k: int,
)
    requires
        visited(structs, accepted, renames, prefix, depth, k),
    ensures
        visited(structs, accepted, renames, prefix, depth + 1, k),
    decreases depth,
{
    let i = choose|i: int|
        0 <= i < structs.len() && prefix.is_prefix_of((#[trigger] structs[i]).name) && reaches(
            structs,
            accepted,
            renames,
            i,
            depth,
            k,
        );
    if k != i {
        let j = choose|j: int|
            0 <= j < structs[i].elems.len() && (followed_name(
                #[trigger] structs[i].elems[j],
                accepted,
                renames,
            ) matches Some(t) && visited(structs, accepted, renames, t, (depth - 1) as nat, k));
        let t = followed_name(structs[i].elems[j], accepted, renames)->Some_0;
        lemma_walk_deepens(structs, accepted, renames, t, (depth - 1) as nat, k);
    }
    assert(reaches(structs, accepted, renames, i, depth + 1, k));
}

/// Whether two sequences of structures have the same names and lead the
/// same way: they are as long as each other, and structure by structure they
/// have the same name and as many elements, from each of which a walk
/// follows the same name.
pub open spec fn same_hierarchy(
    a: Seq<StructView>,
    b: Seq<StructView>,
    accepted: Set<Seq<char>>,
    renames: Option<Map<Seq<char>, Seq<char>>>,
) -> bool {
    &&& a.len() == b.len()
    &&& forall|i: int|
        0 <= i < a.len() ==> (#[trigger] a[i]).name == b[i].name && a[i].elems.len()
            == b[i].elems.len()
    &&& forall|i: int, j: int|
        0 <= i < a.len() && 0 <= j < a[i].elems.len() ==> followed_name(
            #[trigger] a[i].elems[j],
            accepted,
            renames,
        ) == followed_name(b[i].elems[j], accepted, renames)
}

/// A walk reaches in one sequence of structures what it reaches in another
/// that has the same names and leads the same way.
pub proof fn lemma_walk_follows_hierarchy(
    a: Seq<StructView>,
    b: Seq<StructView>,
    accepted: Set<Seq<char>>,
    renames: Option<Map<Seq<char>, Seq<char>>>,
    prefix: Seq<char>,
    depth: nat,
    k: int,
)
    requires
        same_hierarchy(a, b, accepted, renames),
        visited(a, accepted, renames, prefix, depth, k),
    ensures
        visited(b, accepted, renames, prefix, depth, k),
    decreases depth,
{
    let i = choose|i: int|
        0 <= i < a.len() && prefix.is_prefix_of((#[trigger] a[i]).name) && reaches(
            a,
            accepted,
            renames,
            i,
            depth,
            k,
        );
    if k != i {
        let j = choose|j: int|
            0 <= j < a[i].elems.len() && (followed_name(#[trigger] a[i].elems[j], accepted, renames) matches Some(
                t,
            ) && visited(a, accepted, renames, t, (depth - 1) as nat, k));
        let t = followed_name(a[i].elems[j], accepted, renames)->Some_0;
        lemma_walk_follows_hierarchy(a, b, accepted, renames, t, (depth - 1) as nat, k);
        assert(followed_name(b[i].elems[j], accepted, renames) == Some(t));
    }
    assert(reaches(b, accepted, renames, i, depth, k));
    assert(prefix.is_prefix_of(b[i].name));
}

/// The renames that a walk follows: those of the table, if there is one.
pub open spec fn renames_view(table: Option<&RenameTable>) -> Option<Map<Seq<char>, Seq<char>>> {
    match table {
        Some(t) => Some(t@),
        None => None,
    }
}

/// [`visited`], with the walk starting only at structures before the `n`-th.
spec fn visited_before(
    structs: Seq<StructView>,
    accepted: Set<Seq<char>>,
    renames: Option<Map<Seq<char>, Seq<char>>>,
    prefix: Seq<char>,
    depth: nat,
    k: int,
    n: int,
) -> bool {
    exists|i: int|
        0 <= i < structs.len() && i < n && prefix.is_prefix_of((#[trigger] structs[i]).name)
            && reaches(structs, accepted, renames, i, depth, k)
}

/// Whether element `j` of structure `i` leads to a name from which a walk of
/// one level less than `depth` reaches structure `k`.
spec fn leads_to(
    structs: Seq<StructView>,
    accepted: Set<Seq<char>>,
    renames: Option<Map<Seq<char>, Seq<char>>>,
    i: int,
    j: int,
    depth: nat,
    k: int,
) -> bool {
    depth > 0 && (followed_name(structs[i].elems[j], accepted, renames) matches Some(t) && visited(
        structs,
        accepted,
        renames,
        t,
        (depth - 1) as nat,
        k,
    ))
}

/// [`reaches`], with the walk going on only through elements before the
/// `m`-th.
spec fn reaches_before(
    structs: Seq<StructView>,
    accepted: Set<Seq<char>>,
    renames: Option<Map<Seq<char>, Seq<char>>>,
    i: int,
    depth: nat,
    k: int,
    m: int,
) -> bool {
    k == i || (depth > 0 && exists|j: int|
        0 <= j < structs[i].elems.len() && j < m && (followed_name(
            #[trigger] structs[i].elems[j],
            accepted,
            renames,
        ) matches Some(t) && visited(structs, accepted, renames, t, (depth - 1) as nat, k)))
}

/// Marks the structures that a walk reaches. The walk starts at the
/// structures whose name begins with `component`; it is at level `depth` and
/// descends as long as its level is below `levels`. A flag that is set stays
/// set.
pub(crate) fn mark_visited(
    lib: &GdsLibrary,
    component: &str,
    levels: i32,
    re: &RegexSet,
    table: Option<&RenameTable>,
    depth: i32,
    flags: &mut Vec<bool>,
)
    requires
        old(flags).len() == lib.structs.len(),
    ensures
        final(flags).len() == old(flags).len(),
        forall|k: int|
            0 <= k < old(flags).len() ==> final(flags)[k] == (old(flags)[k] || visited(
                structs_view(lib.structs@),
                regex_set_language(*re),
                renames_view(table),
                component@,
                remaining_depth(levels, depth),
                k,
            )),
    decreases remaining_depth(levels, depth),
{
    let ghost structs = structs_view(lib.structs@);
    let ghost accepted = regex_set_language(*re);
    let ghost renames = renames_view(table);
    let ghost budget = remaining_depth(levels, depth);
    let n = lib.structs.len();
    let mut i: usize = 0;
    while i < n
        invariant
            n == lib.structs.len(),
            i <= n,
            flags.len() == n,
            old(flags).len() == n,
            structs == structs_view(lib.structs@),
            accepted == regex_set_language(*re),
            renames == renames_view(table),
            budget == remaining_depth(levels, depth),
            forall|k: int|
                0 <= k < n ==> flags[k] == (old(flags)[k] || visited_before(
                    structs,
                    accepted,
                    renames,
                    component@,
                    budget,
                    k,
                    i as int,
                )),
        decreases n - i,
    {
        let s = &lib.structs[i];
        assert(structs[i as int] == s@);
        if starts_with(s.name.as_str(), component) {
            flags[i] = true;
            let m = s.elems.len();
            let mut j: usize = 0;
            while j < m
                invariant
                    n == lib.structs.len(),
                    i < n,
                    s == &lib.structs[i as int],
                    m == s.elems.len(),
                    j <= m,
                    flags.len() == n,
                    old(flags).len() == n,
                    structs == structs_view(lib.structs@),
                    accepted == regex_set_language(*re),
                    renames == renames_view(table),
                    budget == remaining_depth(levels, depth),
                    component@.is_prefix_of(structs[i as int].name),
                    forall|k: int|
                        0 <= k < n ==> flags[k] == (old(flags)[k] || visited_before(
                            structs,
                            accepted,
                            renames,
                            component@,
                            budget,
                            k,
                            i as int,
                        ) || reaches_before(structs, accepted, renames, i as int, budget, k, j as int)),
                decreases m - j,
            {
                let ghost before = flags@;
                assert(structs[i as int].elems[j as int] == s.elems[j as int]@);
                match &s.elems[j] {
                    GdsElement::GdsStructRef(r) => {
                        if matched_any(re, r.name.as_str()) {
                            let target: Option<&String> = match table {
                                None => Some(&r.name),
                                Some(t) => t.get(r.name.as_str()),
                            };
                            if depth < levels {
                                match target {
                                    Some(t) => {
                                        mark_visited(
                                            lib,
                                            t.as_str(),
                                            levels,
                                            re,
                                            table,
                                            depth + 1,
                                            flags,
                                        );
                                    },
                                    None => {},
                                }
                            }
                        }
                    },
                    _ => {},
                }
                assert forall|k: int| 0 <= k < n implies flags[k] == (old(flags)[k]
                    || visited_before(structs, accepted, renames, component@, budget, k, i as int)
                    || reaches_before(structs, accepted, renames, i as int, budget, k, j + 1)) by {
                    let step = leads_to(structs, accepted, renames, i as int, j as int, budget, k);
                    assert(flags[k] == (before[k] || step));
                    assert(reaches_before(structs, accepted, renames, i as int, budget, k, j + 1)
                        == (reaches_before(structs, accepted, renames, i as int, budget, k, j as int)
                        || step));
                }
                j += 1;
            }
            assert forall|k: int| 0 <= k < n implies flags[k] == (old(flags)[k] || visited_before(
                structs,
                accepted,
                renames,
                component@,
                budget,
                k,
                i + 1,
            )) by {
                assert(structs[i as int].elems.len() == m);
                assert(reaches_before(structs, accepted, renames, i as int, budget, k, m as int)
                    == reaches(structs, accepted, renames, i as int, budget, k));
                assert(visited_before(structs, accepted, renames, component@, budget, k, i + 1) == (
                visited_before(structs, accepted, renames, component@, budget, k, i as int)
                    || reaches(structs, accepted, renames, i as int, budget, k)));
            }
        } else {
            assert forall|k: int| 0 <= k < n implies visited_before(
                structs,
                accepted,
                renames,
                component@,
                budget,
                k,
                i + 1,
            ) == visited_before(structs, accepted, renames, component@, budget, k, i as int) by {}
        }
        i += 1;
    }
    assert(structs.len() == n);
    assert forall|k: int| 0 <= k < n implies visited_before(
        structs,
        accepted,
        renames,
        component@,
        budget,
        k,
        n as int,
    ) == visited(structs, accepted, renames, component@, budget, k) by {}
}

} // verus!
