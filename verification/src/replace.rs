//! Rewriting the names that structure references point to.
use vstd::prelude::*;
use regex::RegexSet;
use crate::error::{Error, ErrorKind};
use crate::gds::{
    structs_view, ElementView, GdsElement, GdsLibrary, GdsStruct, LibraryView, StructRefView,
    StructView,
};
use crate::names::{matched_any, regex_set_language};
use crate::walk::{mark_visited, remaining_depth, visited};

verus! {

/// The map that a sequence of entries stands for: each entry maps its first
/// string to its second, and a later entry replaces an earlier one with the
/// same first string.
pub open spec fn entries_map(s: Seq<(String, String)>) -> Map<Seq<char>, Seq<char>>
    decreases s.len(),
{
    if s.len() == 0 {
        Map::empty()
    } else {
        entries_map(s.drop_last()).insert(s.last().0@, s.last().1@)
    }
}

/// A table from old names to new names.
#[derive(Clone, Debug)]
pub struct RenameTable {
    entries: Vec<(String, String)>,
}

impl View for RenameTable {
    type V = Map<Seq<char>, Seq<char>>;

    closed spec fn view(&self) -> Map<Seq<char>, Seq<char>> {
        entries_map(self.entries@)
    }
}

/// The entry of a map for `key` is the second string of the last entry with
/// that first string, and there is one if any entry has that first string.
proof fn lemma_entries_map(s: Seq<(String, String)>, key: Seq<char>, i: int)
    requires
        -1 <= i < s.len(),
        i >= 0 ==> s[i].0@ == key,
        forall|k: int| i < k < s.len() ==> (#[trigger] s[k]).0@ != key,
    ensures
        i >= 0 ==> entries_map(s).contains_key(key) && entries_map(s)[key] == s[i].1@,
        i < 0 ==> !entries_map(s).contains_key(key),
    decreases s.len(),
{
    if s.len() > 0 {
        if i < s.len() - 1 {
            lemma_entries_map(s.drop_last(), key, i);
        }
    }
}

impl RenameTable {
    /// A table without entries.
    pub fn new() -> (t: RenameTable)
        ensures
            t@ == Map::<Seq<char>, Seq<char>>::empty(),
    {
        RenameTable { entries: Vec::new() }
    }

    /// Maps `key` to `value`, in place of what `key` was mapped to before.
    pub fn insert(&mut self, key: String, value: String)
        ensures
            final(self)@ == old(self)@.insert(key@, value@),
    {
        let ghost before = self.entries@;
        self.entries.push((key, value));
        assert(self.entries@.drop_last() =~= before);
    }

    /// The new name for `key`, if the table has one.
    pub fn get(&self, key: &str) -> (r: Option<&String>)
        ensures
            match r {
                Some(v) => self@.contains_key(key@) && self@[key@] == v@,
                None => !self@.contains_key(key@),
            },
    {
        let wanted = key.to_owned();
        let mut i: usize = self.entries.len();
        while i > 0
            invariant
                i <= self.entries.len(),
                wanted@ == key@,
                forall|k: int| i <= k < self.entries.len() ==> (#[trigger] self.entries[k]).0@ != key@,
            decreases i,
        {
            i -= 1;
            if self.entries[i].0 == wanted {
                proof {
                    lemma_entries_map(self.entries@, key@, i as int);
                }
                return Some(&self.entries[i].1);
            }
        }
        proof {
            lemma_entries_map(self.entries@, key@, -1);
        }
        None
    }

    /// Whether the table has a new name for `key`.
    pub fn contains_key(&self, key: &str) -> (b: bool)
        ensures
            b == self@.contains_key(key@),
    {
        self.get(key).is_some()
    }
}

/// The text of field `i` of a record, and the empty text where the record
/// has no such field.
pub open spec fn field_or_empty(record: Seq<String>, i: int) -> Seq<char> {
    if 0 <= i < record.len() {
        record[i]@
    } else {
        Seq::empty()
    }
}

/// The map that a sequence of records stands for: each record maps its first
/// field to its second, and a later record replaces an earlier one with the
/// same first field.
pub open spec fn records_map(records: Seq<Vec<String>>) -> Map<Seq<char>, Seq<char>>
    decreases records.len(),
{
    if records.len() == 0 {
        Map::empty()
    } else {
        records_map(records.drop_last()).insert(
            field_or_empty(records.last()@, 0),
            field_or_empty(records.last()@, 1),
        )
    }
}

/// A copy of field `i` of a record, or the empty string.
fn field(record: &Vec<String>, i: usize) -> (r: String)
    ensures
        r@ == field_or_empty(record@, i as int),
{
    if i < record.len() {
        record[i].clone()
    } else {
        String::new()
    }
}

/// Makes the rename table that a sequence of records describes: each record
/// maps its first field to its second. A field that a record lacks counts as
/// empty, and of two records with the same first field the later one counts.
pub fn replacements_from_records(records: &Vec<Vec<String>>) -> (t: RenameTable)
    ensures
        t@ == records_map(records@),
{
    let mut table = RenameTable::new();
    let mut i: usize = 0;
    assert(records@.take(0) =~= Seq::empty());
    while i < records.len()
        invariant
            i <= records.len(),
            table@ == records_map(records@.take(i as int)),
        decreases records.len() - i,
    {
        proof {
            assert(records@.take(i + 1).drop_last() =~= records@.take(i as int));
            assert(records@.take(i + 1).last() == records@[i as int]);
        }
        let key = field(&records[i], 0);
        let value = field(&records[i], 1);
        table.insert(key, value);
        i += 1;
    }
    assert(records@.take(i as int) =~= records@);
    table
}

/// Whether an element is a structure reference that the filter accepts and
/// for whose name the table has no new name.
pub open spec fn lacks_entry(
    e: ElementView,
    accepted: Set<Seq<char>>,
    renames: Map<Seq<char>, Seq<char>>,
) -> bool {
    e matches ElementView::StructRef(r) && accepted.contains(r.name) && !renames.contains_key(
        r.name,
    )
}

/// An element after a rewrite: a structure reference that the filter accepts
/// holds the new name that the table has for its name; every other element
/// is as it was.
pub open spec fn rename_element(
    e: ElementView,
    accepted: Set<Seq<char>>,
    renames: Map<Seq<char>, Seq<char>>,
) -> ElementView {
    match e {
        ElementView::StructRef(r) => if accepted.contains(r.name) && renames.contains_key(r.name) {
            ElementView::StructRef(StructRefView { name: renames[r.name], ..r })
        } else {
            e
        },
        _ => e,
    }
}

/// A structure with each of its elements rewritten.
pub open spec fn rename_struct(
    s: StructView,
    accepted: Set<Seq<char>>,
    renames: Map<Seq<char>, Seq<char>>,
) -> StructView {
    StructView {
        name: s.name,
        elems: Seq::new(s.elems.len(), |j: int| rename_element(s.elems[j], accepted, renames)),
    }
}

/// A library after a rewrite: the structures that the walk reaches are
/// rewritten, the others are as they were.
pub open spec fn renamed_library(
    lib: LibraryView,
    prefix: Seq<char>,
    depth: nat,
    accepted: Set<Seq<char>>,
    renames: Map<Seq<char>, Seq<char>>,
) -> LibraryView {
    LibraryView {
        name: lib.name,
        structs: Seq::new(
            lib.structs.len(),
            |k: int|
                if visited(lib.structs, accepted, Some(renames), prefix, depth, k) {
                    rename_struct(lib.structs[k], accepted, renames)
                } else {
                    lib.structs[k]
                },
        ),
    }
}

/// Whether element `j` of structure `k` stops a rewrite: the walk reaches
/// the structure, and the element is a reference that lacks an entry.
pub open spec fn stops_rewrite(
    structs: Seq<StructView>,
    prefix: Seq<char>,
    depth: nat,
    accepted: Set<Seq<char>>,
    renames: Map<Seq<char>, Seq<char>>,
    k: int,
    j: int,
) -> bool {
    0 <= k < structs.len() && 0 <= j < structs[k].elems.len() && visited(
        structs,
        accepted,
        Some(renames),
        prefix,
        depth,
        k,
    ) && lacks_entry(structs[k].elems[j], accepted, renames)
}

/// Whether no element before element `j` of structure `k`, in the order of
/// the structures and of their elements, stops a rewrite.
pub open spec fn none_stops_before(
    structs: Seq<StructView>,
    prefix: Seq<char>,
    depth: nat,
    accepted: Set<Seq<char>>,
    renames: Map<Seq<char>, Seq<char>>,
    k: int,
    j: int,
) -> bool {
    forall|k2: int, j2: int|
        (k2 < k || (k2 == k && j2 < j)) ==> !#[trigger] stops_rewrite(
            structs,
            prefix,
            depth,
            accepted,
            renames,
            k2,
            j2,
        )
}

/// Rewrites one element.
fn rename_elem(element: &mut GdsElement, re: &RegexSet, table: &RenameTable)
    ensures
        final(element)@ == rename_element(old(element)@, regex_set_language(*re), table@),
{
    match element {
        GdsElement::GdsStructRef(r) => {
            if matched_any(re, r.name.as_str()) {
                match table.get(r.name.as_str()) {
                    Some(replacement) => {
                        r.name = replacement.clone();
                    },
                    None => {},
                }
            }
        },
        _ => {},
    }
}

/// Rewrites each element of a structure.
fn rename_elems(s: &mut GdsStruct, re: &RegexSet, table: &RenameTable)
    ensures
        final(s)@ == rename_struct(old(s)@, regex_set_language(*re), table@),
{
    let mut j: usize = 0;
    while j < s.elems.len()
        invariant
            s.name == old(s).name,
            s.elems.len() == old(s).elems.len(),
            j <= s.elems.len(),
            forall|k: int|
                0 <= k < j ==> s.elems[k]@ == rename_element(
                    old(s).elems[k]@,
                    regex_set_language(*re),
                    table@,
                ),
            forall|k: int| j <= k < s.elems.len() ==> s.elems[k] == old(s).elems[k],
        decreases s.elems.len() - j,
    {
        rename_elem(&mut s.elems[j], re, table);
        j += 1;
    }
    assert(s@.elems =~= rename_struct(old(s)@, regex_set_language(*re), table@).elems);
}

/// Looks for the first reference, among the structures that are marked, that
/// the filter accepts and the table has no entry for.
fn find_missing(lib: &GdsLibrary, flags: &Vec<bool>, re: &RegexSet, table: &RenameTable) -> (r:
    Option<(usize, usize)>)
    requires
        flags.len() == lib.structs.len(),
    ensures
        match r {
            Some((k, j)) => {
                &&& k < lib.structs.len()
                &&& j < lib.structs[k as int].elems.len()
                &&& flags[k as int]
                &&& lacks_entry(lib.structs[k as int].elems[j as int]@, regex_set_language(*re), table@)
                &&& forall|k2: int, j2: int|
                    0 <= k2 < lib.structs.len() && 0 <= j2 < lib.structs[k2].elems.len() && (k2 < k
                        || (k2 == k && j2 < j)) && flags[k2] ==> !lacks_entry(
                        #[trigger] lib.structs[k2].elems[j2]@,
                        regex_set_language(*re),
                        table@,
                    )
            },
            None => forall|k2: int, j2: int|
                0 <= k2 < lib.structs.len() && 0 <= j2 < lib.structs[k2].elems.len() && flags[k2]
                    ==> !lacks_entry(
                    #[trigger] lib.structs[k2].elems[j2]@,
                    regex_set_language(*re),
                    table@,
                ),
        },
{
    let n = lib.structs.len();
    let mut k: usize = 0;
    while k < n
        invariant
            n == lib.structs.len(),
            flags.len() == n,
            k <= n,
            forall|k2: int, j2: int|
                0 <= k2 < k && 0 <= j2 < lib.structs[k2].elems.len() && flags[k2] ==> !lacks_entry(
                    #[trigger] lib.structs[k2].elems[j2]@,
                    regex_set_language(*re),
                    table@,
                ),
        decreases n - k,
    {
        if flags[k] {
            let s = &lib.structs[k];
            let mut j: usize = 0;
            while j < s.elems.len()
                invariant
                    n == lib.structs.len(),
                    flags.len() == n,
                    k < n,
                    flags[k as int],
                    s == &lib.structs[k as int],
                    j <= s.elems.len(),
                    forall|k2: int, j2: int|
                        0 <= k2 < k && 0 <= j2 < lib.structs[k2].elems.len() && flags[k2]
                            ==> !lacks_entry(
                            #[trigger] lib.structs[k2].elems[j2]@,
                            regex_set_language(*re),
                            table@,
                        ),
                    forall|j2: int|
                        0 <= j2 < j ==> !lacks_entry(
                            #[trigger] lib.structs[k as int].elems[j2]@,
                            regex_set_language(*re),
                            table@,
                        ),
                decreases s.elems.len() - j,
            {
                match &s.elems[j] {
                    GdsElement::GdsStructRef(r) => {
                        if matched_any(re, r.name.as_str()) && !table.contains_key(r.name.as_str()) {
                            return Some((k, j));
                        }
                    },
                    _ => {},
                }
                j += 1;
            }
        }
        k += 1;
    }
    None
}

/// Rewrites the names in the structure references of a part of a library, in
/// place.
///
/// The part is found by a walk. It starts at the structures whose name begins
/// with `cell`. In a structure that it reaches, every structure reference
/// whose name `re` matches gets the new name that `replacements` has for its
/// name; nothing else changes. Through such a reference the walk goes on to
/// the structures whose name begins with the new name, as long as it has
/// walked fewer than `levels` levels, the structures it starts at being the
/// first level. Which structures the walk reaches is settled before the first
/// name is rewritten, so each reference is rewritten once.
///
/// Where a reference that `re` matches, in a structure that the walk reaches,
/// has a name without an entry in `replacements`, nothing is rewritten: the
/// library is left as it was, and the error names the first such reference,
/// in the order of the structures and of their elements.
pub fn replace_all(
    cell: &str,
    lib: &mut GdsLibrary,
    replacements: &RenameTable,
    levels: &i32,
    re: &RegexSet,
) -> (r: Result<(), Error>)
    ensures
        match r {
            Ok(_) => {
                &&& forall|k: int, j: int|
                    !#[trigger] stops_rewrite(
                        old(lib)@.structs,
                        cell@,
                        remaining_depth(*levels, 1),
                        regex_set_language(*re),
                        replacements@,
                        k,
                        j,
                    )
                &&& final(lib)@ == renamed_library(
                    old(lib)@,
                    cell@,
                    remaining_depth(*levels, 1),
                    regex_set_language(*re),
                    replacements@,
                )
            },
            Err(e) => {
                &&& *final(lib) == *old(lib)
                &&& e.kind == ErrorKind::MissingRenameEntry
                &&& exists|k: int, j: int|
                    {
                        &&& #[trigger] stops_rewrite(
                            old(lib)@.structs,
                            cell@,
                            remaining_depth(*levels, 1),
                            regex_set_language(*re),
                            replacements@,
                            k,
                            j,
                        )
                        &&& none_stops_before(
                            old(lib)@.structs,
                            cell@,
                            remaining_depth(*levels, 1),
                            regex_set_language(*re),
                            replacements@,
                            k,
                            j,
                        )
                        &&& old(lib)@.structs[k].elems[j] matches ElementView::StructRef(sref)
                        &&& sref.name == e.name@
                    }
            },
        },
{
    let ghost accepted = regex_set_language(*re);
    let ghost budget = remaining_depth(*levels, 1);
    let ghost structs = old(lib)@.structs;
    let n = lib.structs.len();
    let mut flags: Vec<bool> = Vec::new();
    let mut k: usize = 0;
    while k < n
        invariant
            k <= n,
            flags.len() == k,
            forall|c: int| 0 <= c < k ==> !flags[c],
        decreases n - k,
    {
        flags.push(false);
        k += 1;
    }
    mark_visited(lib, cell, *levels, re, Some(replacements), 1, &mut flags);
    assert(structs == structs_view(lib.structs@));
    assert forall|c: int| 0 <= c < n implies flags[c] == visited(
        structs,
        accepted,
        Some(replacements@),
        cell@,
        budget,
        c,
    ) by {}
    match find_missing(lib, &flags, re, replacements) {
        Some((mk, mj)) => {
            let name = match &lib.structs[mk].elems[mj] {
                GdsElement::GdsStructRef(r) => r.name.clone(),
                _ => String::new(),
            };
            proof {
                assert(structs[mk as int].elems[mj as int] == lib.structs[mk as int].elems[mj as int]@);
                assert(stops_rewrite(structs, cell@, budget, accepted, replacements@, mk as int, mj as int));
                assert forall|k2: int, j2: int|
                    (k2 < mk || (k2 == mk && j2 < mj)) implies !#[trigger] stops_rewrite(
                    structs,
                    cell@,
                    budget,
                    accepted,
                    replacements@,
                    k2,
                    j2,
                ) by {
                    if 0 <= k2 < n && 0 <= j2 < structs[k2].elems.len() {
                        assert(structs[k2].elems[j2] == lib.structs[k2].elems[j2]@);
                    }
                }
            }
            return Err(Error { kind: ErrorKind::MissingRenameEntry, name });
        },
        None => {},
    }
    proof {
        assert forall|k2: int, j2: int|
            !#[trigger] stops_rewrite(structs, cell@, budget, accepted, replacements@, k2, j2) by {
            if 0 <= k2 < n && 0 <= j2 < structs[k2].elems.len() {
                assert(structs[k2].elems[j2] == lib.structs[k2].elems[j2]@);
            }
        }
    }
    let mut k: usize = 0;
    while k < n
        invariant
            n == lib.structs.len(),
            n == old(lib).structs.len(),
            flags.len() == n,
            k <= n,
            lib.name == old(lib).name,
            accepted == regex_set_language(*re),
            structs == old(lib)@.structs,
            forall|c: int|
                0 <= c < n ==> flags[c] == visited(
                    structs,
                    accepted,
                    Some(replacements@),
                    cell@,
                    budget,
                    c,
                ),
            forall|c: int|
                0 <= c < k ==> lib.structs[c]@ == (if flags[c] {
                    rename_struct(old(lib).structs[c]@, accepted, replacements@)
                } else {
                    old(lib).structs[c]@
                }),
            forall|c: int| k <= c < n ==> lib.structs[c] == old(lib).structs[c],
        decreases n - k,
    {
        if flags[k] {
            rename_elems(&mut lib.structs[k], re, replacements);
        }
        k += 1;
    }
    proof {
        let after = renamed_library(old(lib)@, cell@, budget, accepted, replacements@);
        assert forall|c: int| 0 <= c < n implies lib@.structs[c] == after.structs[c] by {
            assert(lib@.structs[c] == lib.structs[c]@);
            assert(old(lib)@.structs[c] == old(lib).structs[c]@);
            assert(flags[c] == visited(structs, accepted, Some(replacements@), cell@, budget, c));
        }
        assert(lib@.structs =~= after.structs);
    }
    Ok(())
}

} // verus!
