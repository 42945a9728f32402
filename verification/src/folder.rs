//! When two readings of a folder are readings of the same folder, and what
//! that means for the fingerprint: it is the same for the same state
//! (determinism), whatever the order in which directories are listed, and what
//! is hashed changes with every change to the time of a file (sensitivity).

use vstd::prelude::*;
use crate::fingerprint::{
    fingerprint_of, modification_times, name_before, name_order, names_of, times_along, Entry,
};
use crate::order::{
    lemma_ascending_unique, lemma_before_total, lemma_name_order_sorts, lists,
    strictly_ascending,
};

verus! {

/// Whether two trees have the same files and directories under the same
/// names at the same places, whatever the times of the files.
pub open spec fn same_shape(a: Entry, b: Entry) -> bool
    decreases a,
{
    match a {
        Entry::File { name, .. } => b matches Entry::File { name: other, .. } && name@ == other@,
        Entry::Directory { name, entries } => {
            &&& b matches Entry::Directory { name: other, entries: held }
            &&& name@ == other@
            &&& entries@.len() == held@.len()
            &&& forall|i: int|
                0 <= i < entries@.len() ==> same_shape(#[trigger] entries@[i], held@[i])
        },
    }
}

/// Whether two trees are the same folder in the same state: the same shape,
/// and every file with the same time of modification.
pub open spec fn same_content(a: Entry, b: Entry) -> bool
    decreases a,
{
    match a {
        Entry::File { name, modified } => {
            &&& b matches Entry::File { name: other, modified: then }
            &&& name@ == other@
            &&& modified == then
        },
        Entry::Directory { name, entries } => {
            &&& b matches Entry::Directory { name: other, entries: held }
            &&& name@ == other@
            &&& entries@.len() == held@.len()
            &&& forall|i: int|
                0 <= i < entries@.len() ==> same_content(#[trigger] entries@[i], held@[i])
        },
    }
}

/// Trees of the same shape list their entries under the same names.
proof fn lemma_same_names(entries: Vec<Entry>, held: Vec<Entry>)
    requires
        entries@.len() == held@.len(),
        forall|i: int| 0 <= i < entries@.len() ==> same_shape(#[trigger] entries@[i], held@[i]),
    ensures
        names_of(entries@) == names_of(held@),
{
    assert forall|i: int| 0 <= i < entries@.len() implies entries@[i].name() == held@[i].name() by {
        assert(same_shape(entries@[i], held@[i]));
    }
    assert(names_of(entries@) =~= names_of(held@));
}

/// The same content is the same shape.
pub proof fn lemma_content_has_shape(a: Entry, b: Entry)
    requires
        same_content(a, b),
    ensures
        same_shape(a, b),
    decreases a,
{
    match a {
        Entry::File { .. } => {},
        Entry::Directory { entries, .. } => {
            let held = b->Directory_entries;
            assert forall|i: int| 0 <= i < entries@.len() implies same_shape(
                #[trigger] entries@[i],
                held@[i],
            ) by {
                lemma_content_has_shape(entries@[i], held@[i]);
            }
        },
    }
}

/// Determinism: a folder in one state has one sequence of modification times,
/// and so one fingerprint, however often and into whatever values it is
/// read.
pub proof fn lemma_fingerprint_deterministic(a: Entry, b: Entry)
    requires
        same_content(a, b),
    ensures
        modification_times(a) == modification_times(b),
        fingerprint_of(a) == fingerprint_of(b),
    decreases a, 0nat,
{
    match a {
        Entry::File { .. } => {},
        Entry::Directory { entries, .. } => {
            let held = b->Directory_entries;
            assert forall|i: int| 0 <= i < entries@.len() implies same_shape(
                #[trigger] entries@[i],
                held@[i],
            ) by {
                lemma_content_has_shape(entries@[i], held@[i]);
            }
            lemma_same_names(entries, held);
            let order = name_order(names_of(entries@), entries@.len());
            lemma_same_times_along(entries, held, order, order.len());
        },
    }
}

/// The step of `lemma_fingerprint_deterministic` through the entries of a
/// directory.
proof fn lemma_same_times_along(entries: Vec<Entry>, held: Vec<Entry>, order: Seq<int>, count: nat)
    requires
        entries@.len() == held@.len(),
        forall|i: int| 0 <= i < entries@.len() ==> same_content(#[trigger] entries@[i], held@[i]),
    ensures
        times_along(entries, order, count) == times_along(held, order, count),
    decreases entries, count,
{
    if count > 0 && count <= order.len() {
        lemma_same_times_along(entries, held, order, (count - 1) as nat);
        let i = order[count - 1];
        if 0 <= i < entries@.len() {
            assert(same_content(entries@[i], held@[i]));
            lemma_fingerprint_deterministic(entries@[i], held@[i]);
        }
    }
}

/// Trees of the same shape have as many modification times.
pub proof fn lemma_shape_fixes_count(a: Entry, b: Entry)
    requires
        same_shape(a, b),
    ensures
        modification_times(a).len() == modification_times(b).len(),
    decreases a, 0nat,
{
    match a {
        Entry::File { .. } => {},
        Entry::Directory { entries, .. } => {
            let held = b->Directory_entries;
            lemma_same_names(entries, held);
            let order = name_order(names_of(entries@), entries@.len());
            lemma_shape_fixes_count_along(entries, held, order, order.len());
        },
    }
}

/// The step of `lemma_shape_fixes_count` through the entries of a directory.
proof fn lemma_shape_fixes_count_along(
    entries: Vec<Entry>,
    held: Vec<Entry>,
    order: Seq<int>,
    count: nat,
)
    requires
        entries@.len() == held@.len(),
        forall|i: int| 0 <= i < entries@.len() ==> same_shape(#[trigger] entries@[i], held@[i]),
    ensures
        times_along(entries, order, count).len() == times_along(held, order, count).len(),
    decreases entries, count,
{
    if count > 0 && count <= order.len() {
        lemma_shape_fixes_count_along(entries, held, order, (count - 1) as nat);
        let i = order[count - 1];
        if 0 <= i < entries@.len() {
            assert(same_shape(entries@[i], held@[i]));
            lemma_shape_fixes_count(entries@[i], held@[i]);
        }
    }
}

/// Sensitivity of what is hashed: when a folder keeps its shape, every change
/// to the time of a file changes the sequence of times that the fingerprint is
/// the hash of. Stated the other way round: two trees of one shape with the
/// same sequence have the same time at every file. Whether the hash itself
/// changes is up to the hash function, which can map two sequences to one
/// hash.
pub proof fn lemma_times_are_sensitive(a: Entry, b: Entry)
    requires
        same_shape(a, b),
        modification_times(a) == modification_times(b),
    ensures
        same_content(a, b),
    decreases a, 0nat,
{
    match a {
        Entry::File { modified, .. } => {
            assert(modification_times(a)[0] == modified);
        },
        Entry::Directory { entries, .. } => {
            let held = b->Directory_entries;
            lemma_same_names(entries, held);
            let names = names_of(entries@);
            let order = name_order(names, entries@.len());
            lemma_name_order_sorts(names, entries@.len());
            lemma_times_split(entries, held, order, order.len());
            assert forall|i: int| 0 <= i < entries@.len() implies same_content(
                #[trigger] entries@[i],
                held@[i],
            ) by {
                assert(lists(order, i));
            }
        },
    }
}

/// The step of `lemma_times_are_sensitive` through the entries of a
/// directory: where the times along two lists of one shape agree, the entries
/// that the order has reached agree in content.
proof fn lemma_times_split(entries: Vec<Entry>, held: Vec<Entry>, order: Seq<int>, count: nat)
    requires
        entries@.len() == held@.len(),
        forall|i: int| 0 <= i < entries@.len() ==> same_shape(#[trigger] entries@[i], held@[i]),
        count <= order.len(),
        times_along(entries, order, count) == times_along(held, order, count),
    ensures
        forall|k: int|
            0 <= k < count && 0 <= #[trigger] order[k] < entries@.len() ==> same_content(
                entries@[order[k]],
                held@[order[k]],
            ),
    decreases entries, count,
{
    if count > 0 {
        let i = order[count - 1];
        let head = times_along(entries, order, (count - 1) as nat);
        let other_head = times_along(held, order, (count - 1) as nat);
        lemma_shape_fixes_count_along(entries, held, order, (count - 1) as nat);
        if 0 <= i < entries@.len() {
            let tail = modification_times(entries@[i]);
            let other_tail = modification_times(held@[i]);
            assert(same_shape(entries@[i], held@[i]));
            lemma_shape_fixes_count(entries@[i], held@[i]);
            assert(head == (head + tail).subrange(0, head.len() as int));
            assert(other_head == (other_head + other_tail).subrange(0, other_head.len() as int));
            assert(tail == (head + tail).subrange(head.len() as int, (head + tail).len() as int));
            assert(other_tail == (other_head + other_tail).subrange(
                other_head.len() as int,
                (other_head + other_tail).len() as int,
            ));
            lemma_times_are_sensitive(entries@[i], held@[i]);
        }
        lemma_times_split(entries, held, order, (count - 1) as nat);
    }
}

/// Whether no two of `entries` have the same name.
pub open spec fn distinct_names(entries: Seq<Entry>) -> bool {
    forall|i: int, j: int|
        0 <= i < j < entries.len() ==> (#[trigger] entries[i]).name() != (
        #[trigger] entries[j]).name()
}

/// Whether two trees are the same folder in the same state, whatever the
/// order in which each of its directories is listed: files agree in name and
/// time, and directories agree in name and hold the same entries, each name
/// once.
pub open spec fn same_folder(a: Entry, b: Entry) -> bool
    decreases a,
{
    match a {
        Entry::File { name, modified } => {
            &&& b matches Entry::File { name: other, modified: then }
            &&& name@ == other@
            &&& modified == then
        },
        Entry::Directory { name, entries } => {
            &&& b matches Entry::Directory { name: other, entries: held }
            &&& name@ == other@
            &&& entries@.len() == held@.len()
            &&& distinct_names(entries@)
            &&& distinct_names(held@)
            &&& forall|i: int|
                0 <= i < entries@.len() ==> exists|j: int|
                    0 <= j < held@.len() && same_folder(#[trigger] entries@[i], held@[j])
            &&& forall|j: int|
                0 <= j < held@.len() ==> exists|i: int|
                    0 <= i < entries@.len() && same_folder(entries@[i], #[trigger] held@[j])
        },
    }
}

/// The same folder has the same name.
proof fn lemma_same_folder_name(a: Entry, b: Entry)
    requires
        same_folder(a, b),
    ensures
        a.name() == b.name(),
{
}

/// The names of `names` in the order `order`.
pub open spec fn names_along(names: Seq<Seq<u8>>, order: Seq<int>) -> Seq<Seq<u8>> {
    Seq::new(order.len(), |k: int| names[order[k]])
}

/// With distinct names, the traversal order lists the names strictly
/// ascending.
proof fn lemma_traversal_strict(entries: Seq<Entry>)
    requires
        distinct_names(entries),
    ensures
        strictly_ascending(
            names_along(names_of(entries), name_order(names_of(entries), entries.len())),
        ),
{
    let names = names_of(entries);
    let order = name_order(names, entries.len());
    let along = names_along(names, order);
    lemma_name_order_sorts(names, entries.len());
    assert forall|j: int, k: int| 0 <= j < k < along.len() implies name_before(
        #[trigger] along[j],
        #[trigger] along[k],
    ) by {
        let x = order[j];
        let y = order[k];
        assert(x != y);
        assert(!name_before(names[y], names[x]));
        if x < y {
            assert(entries[x].name() != entries[y].name());
        } else {
            assert(entries[y].name() != entries[x].name());
        }
        if !name_before(names[x], names[y]) {
            lemma_before_total(names[x], names[y]);
        }
    }
}

/// Whether every name of `entries` is a name of `held`.
pub open spec fn shares_names(entries: Seq<Entry>, held: Seq<Entry>) -> bool {
    forall|i: int|
        0 <= i < entries.len() ==> names_of(held).contains(#[trigger] names_of(entries)[i])
}

/// Every name of the one listing, taken in traversal order, is a name of the
/// other in its traversal order.
proof fn lemma_names_shared(entries: Seq<Entry>, held: Seq<Entry>)
    requires
        shares_names(entries, held),
    ensures
        ({
            let u = names_along(names_of(entries), name_order(names_of(entries), entries.len()));
            let v = names_along(names_of(held), name_order(names_of(held), held.len()));
            forall|k: int| 0 <= k < u.len() ==> v.contains(#[trigger] u[k])
        }),
{
    let names = names_of(entries);
    let order = name_order(names, entries.len());
    let other_names = names_of(held);
    let other_order = name_order(other_names, held.len());
    let u = names_along(names, order);
    let v = names_along(other_names, other_order);
    lemma_name_order_sorts(names, entries.len());
    lemma_name_order_sorts(other_names, held.len());
    assert forall|k: int| 0 <= k < u.len() implies v.contains(#[trigger] u[k]) by {
        let i = order[k];
        assert(0 <= i < entries.len());
        assert(other_names.contains(names[i]));
        let j = choose|j: int| 0 <= j < other_names.len() && other_names[j] == names[i];
        assert(lists(other_order, j));
        let m = choose|m: int| 0 <= m < other_order.len() && other_order[m] == j;
        assert(v[m] == u[k]);
    }
}

/// Whether two listings hold the same entries: as many, each name once, and
/// for every entry of the one the same folder in the other.
pub open spec fn same_entries(entries: Seq<Entry>, held: Seq<Entry>) -> bool {
    &&& entries.len() == held.len()
    &&& distinct_names(entries)
    &&& distinct_names(held)
    &&& forall|i: int|
        0 <= i < entries.len() ==> exists|j: int|
            0 <= j < held.len() && same_folder(#[trigger] entries[i], held[j])
    &&& forall|j: int|
        0 <= j < held.len() ==> exists|i: int|
            0 <= i < entries.len() && same_folder(entries[i], #[trigger] held[j])
}

/// Two listings of the same entries have the same names.
proof fn lemma_same_entries_share_names(entries: Seq<Entry>, held: Seq<Entry>)
    requires
        same_entries(entries, held),
    ensures
        shares_names(entries, held),
        shares_names(held, entries),
{
    assert forall|i: int| 0 <= i < entries.len() implies names_of(held).contains(
        #[trigger] names_of(entries)[i],
    ) by {
        assert(exists|j: int| 0 <= j < held.len() && same_folder(entries[i], held[j]));
        let j = choose|j: int| 0 <= j < held.len() && same_folder(entries[i], held[j]);
        lemma_same_folder_name(entries[i], held[j]);
        assert(names_of(held)[j] == names_of(entries)[i]);
    }
    assert forall|j: int| 0 <= j < held.len() implies names_of(entries).contains(
        #[trigger] names_of(held)[j],
    ) by {
        assert(exists|i: int| 0 <= i < entries.len() && same_folder(entries[i], held[j]));
        let i = choose|i: int| 0 <= i < entries.len() && same_folder(entries[i], held[j]);
        lemma_same_folder_name(entries[i], held[j]);
        assert(names_of(entries)[i] == names_of(held)[j]);
    }
}

/// Two listings with the same names, each name once, have the same names in
/// traversal order, place by place.
proof fn lemma_same_names_in_order(entries: Seq<Entry>, held: Seq<Entry>)
    requires
        entries.len() == held.len(),
        distinct_names(entries),
        distinct_names(held),
        shares_names(entries, held),
        shares_names(held, entries),
    ensures
        names_along(names_of(entries), name_order(names_of(entries), entries.len()))
            == names_along(names_of(held), name_order(names_of(held), held.len())),
{
    let u = names_along(names_of(entries), name_order(names_of(entries), entries.len()));
    let v = names_along(names_of(held), name_order(names_of(held), held.len()));
    lemma_name_order_sorts(names_of(entries), entries.len());
    lemma_name_order_sorts(names_of(held), held.len());
    lemma_traversal_strict(entries);
    lemma_traversal_strict(held);
    lemma_names_shared(entries, held);
    lemma_names_shared(held, entries);
    lemma_ascending_unique(u, v, u.len());
    assert(u =~= v);
}

/// Two listings of the same entries hold the same folder at every place of
/// their traversal orders.
proof fn lemma_same_entries_in_order(entries: Seq<Entry>, held: Seq<Entry>, k: int)
    requires
        same_entries(entries, held),
        0 <= k < entries.len(),
    ensures
        ({
            let order = name_order(names_of(entries), entries.len());
            let other_order = name_order(names_of(held), held.len());
            &&& 0 <= order[k] < entries.len()
            &&& 0 <= other_order[k] < held.len()
            &&& same_folder(entries[order[k]], held[other_order[k]])
        }),
{
    let order = name_order(names_of(entries), entries.len());
    let other_order = name_order(names_of(held), held.len());
    let u = names_along(names_of(entries), order);
    let v = names_along(names_of(held), other_order);
    lemma_name_order_sorts(names_of(entries), entries.len());
    lemma_name_order_sorts(names_of(held), held.len());
    lemma_same_entries_share_names(entries, held);
    lemma_same_names_in_order(entries, held);
    let i = order[k];
    let other = other_order[k];
    assert(0 <= i < entries.len());
    assert(0 <= other < held.len());
    let j = choose|j: int| 0 <= j < held.len() && same_folder(entries[i], held[j]);
    lemma_same_folder_name(entries[i], held[j]);
    assert(u[k] == entries[i].name());
    assert(v[k] == held[other].name());
    if j < other {
        assert(held[j].name() != held[other].name());
    } else if other < j {
        assert(held[other].name() != held[j].name());
    }
}

/// Listing order does not matter: two readings of one folder in one state
/// give the same sequence of modification times, and so the same
/// fingerprint, even where they list the entries of a directory in different
/// orders.
pub proof fn lemma_listing_order_is_irrelevant(a: Entry, b: Entry)
    requires
        same_folder(a, b),
    ensures
        modification_times(a) == modification_times(b),
        fingerprint_of(a) == fingerprint_of(b),
    decreases a, 0nat,
{
    match a {
        Entry::File { .. } => {},
        Entry::Directory { entries, .. } => {
            let held = b->Directory_entries;
            let order = name_order(names_of(entries@), entries@.len());
            let other_order = name_order(names_of(held@), held@.len());
            assert(same_entries(entries@, held@));
            lemma_name_order_sorts(names_of(entries@), entries@.len());
            lemma_name_order_sorts(names_of(held@), held@.len());
            assert forall|k: int| 0 <= k < order.len() implies {
                &&& 0 <= #[trigger] order[k] < entries@.len()
                &&& 0 <= other_order[k] < held@.len()
                &&& same_folder(entries@[order[k]], held@[other_order[k]])
            } by {
                lemma_same_entries_in_order(entries@, held@, k);
            }
            lemma_same_times_in_order(entries, held, order, other_order, order.len());
        },
    }
}

/// The step of `lemma_listing_order_is_irrelevant` through the entries of a
/// directory, each listing in its own traversal order.
proof fn lemma_same_times_in_order(
    entries: Vec<Entry>,
    held: Vec<Entry>,
    order: Seq<int>,
    other_order: Seq<int>,
    count: nat,
)
    requires
        order.len() == other_order.len(),
        forall|k: int|
            0 <= k < order.len() ==> {
                &&& 0 <= #[trigger] order[k] < entries@.len()
                &&& 0 <= other_order[k] < held@.len()
                &&& same_folder(entries@[order[k]], held@[other_order[k]])
            },
    ensures
        times_along(entries, order, count) == times_along(held, other_order, count),
    decreases entries, count,
{
    if count > 0 && count <= order.len() {
        lemma_same_times_in_order(entries, held, order, other_order, (count - 1) as nat);
        let i = order[count - 1];
        lemma_listing_order_is_irrelevant(entries@[i], held@[other_order[count - 1]]);
    }
}

} // verus!
