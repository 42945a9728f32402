//! The fingerprint of a document folder.
//!
//! A folder is handed over as a tree of entries, each file with the time of
//! its last modification in milliseconds since the epoch. The fingerprint is
//! the Fx hash of those times in one fixed traversal order: depth first, the
//! entries of each directory by ascending name, names compared byte by byte.
//! The order in which the operating system lists a directory therefore does
//! not matter.

use vstd::prelude::*;
use std::hash::Hasher;
use crate::error::RenderError;
use crate::store::Fingerprint;

verus! {

/// One entry below a document folder, or the folder itself.
#[derive(Debug)]
pub enum Entry {
    /// A file: its name inside its directory and the time of its last
    /// modification, in milliseconds since the epoch.
    File { name: Vec<u8>, modified: u128 },
    /// A directory: its name and what it holds, in any order.
    Directory { name: Vec<u8>, entries: Vec<Entry> },
}

impl Entry {
    /// The name of this entry inside its directory.
    pub open spec fn name(self) -> Seq<u8> {
        match self {
            Entry::File { name, .. } => name@,
            Entry::Directory { name, .. } => name@,
        }
    }

    /// The name of this entry inside its directory.
    pub fn get_name(&self) -> (name: &Vec<u8>)
        ensures
            name@ == self.name(),
    {
        match self {
            Entry::File { name, .. } => name,
            Entry::Directory { name, .. } => name,
        }
    }
}

/// Whether `a` comes strictly before `b` when both are compared byte by byte:
/// at the first byte that differs the smaller byte decides, and a proper
/// prefix comes before what it is a prefix of.
pub open spec fn name_before(a: Seq<u8>, b: Seq<u8>) -> bool
    decreases a.len(),
{
    if b.len() == 0 {
        false
    } else if a.len() == 0 {
        true
    } else if a[0] != b[0] {
        a[0] < b[0]
    } else {
        name_before(a.drop_first(), b.drop_first())
    }
}

/// The names of `entries`, position by position.
pub open spec fn names_of(entries: Seq<Entry>) -> Seq<Seq<u8>> {
    Seq::new(entries.len(), |i: int| entries[i].name())
}

/// `sorted` with the position `i` put in behind every position whose name
/// does not come after the name at `i`.
pub open spec fn place(names: Seq<Seq<u8>>, sorted: Seq<int>, i: int) -> Seq<int>
    decreases sorted.len(),
{
    if sorted.len() == 0 {
        seq![i]
    } else if name_before(names[i], names[sorted.last()]) {
        place(names, sorted.drop_last(), i).push(sorted.last())
    } else {
        sorted.push(i)
    }
}

/// The first `count` positions of `names` in traversal order: by ascending
/// name, and positions with equal names in the order of the positions.
pub open spec fn name_order(names: Seq<Seq<u8>>, count: nat) -> Seq<int>
    decreases count,
{
    if count == 0 {
        Seq::<int>::empty()
    } else {
        place(names, name_order(names, (count - 1) as nat), count - 1)
    }
}

/// The modification times of the files at and below `entry`, in traversal
/// order.
pub open spec fn modification_times(entry: Entry) -> Seq<u128>
    decreases entry, 0nat,
{
    match entry {
        Entry::File { modified, .. } => seq![modified],
        Entry::Directory { entries, .. } => {
            let order = name_order(names_of(entries@), entries@.len());
            times_along(entries, order, order.len())
        },
    }
}

/// The modification times of the files at and below the first `count`
/// entries that `order` lists of `entries`.
pub open spec fn times_along(entries: Vec<Entry>, order: Seq<int>, count: nat) -> Seq<u128>
    decreases entries, count,
{
    if count == 0 || count > order.len() {
        Seq::<u128>::empty()
    } else {
        let i = order[count - 1];
        let head = times_along(entries, order, (count - 1) as nat);
        if 0 <= i < entries@.len() {
            head + modification_times(entries@[i])
        } else {
            head
        }
    }
}

/// The values that have been written into a hasher since it was made, oldest
/// first.
pub uninterp spec fn absorbed(hasher: fxhash::FxHasher) -> Seq<u128>;

/// The hash that `fxhash::FxHasher` reports after `written` has been written
/// into a fresh hasher, value by value, on the target this crate is built for.
pub uninterp spec fn fx_digest(written: Seq<u128>) -> u64;

/// The Fx hasher of the `fxhash` crate, carried through as an opaque value.
#[verifier::external_type_specification]
#[verifier::external_body]
pub struct ExFxHasher(fxhash::FxHasher);

/// A fresh hasher, from `FxHasher::default`: nothing has been written into it.
#[verifier::external_body]
fn hasher_new() -> (hasher: fxhash::FxHasher)
    ensures
        absorbed(hasher) == Seq::<u128>::empty(),
{
    fxhash::FxHasher::default()
}

/// Writes `value` into the hasher with `Hasher::write_u128`: it becomes the
/// newest of the values written.
#[verifier::external_body]
fn hasher_write(hasher: &mut fxhash::FxHasher, value: u128)
    ensures
        absorbed(*final(hasher)) == absorbed(*old(hasher)).push(value),
{
    hasher.write_u128(value)
}

/// The hash of what has been written so far, from `Hasher::finish`, which
/// leaves the hasher as it is. The hasher has no seed, so the hash depends on
/// the written values alone.
#[verifier::external_body]
fn hasher_finish(hasher: &fxhash::FxHasher) -> (digest: u64)
    ensures
        digest == fx_digest(absorbed(*hasher)),
{
    hasher.finish()
}

/// The fingerprint of the folder `root`.
pub open spec fn fingerprint_of(root: Entry) -> Fingerprint {
    fx_digest(modification_times(root))
}

/// Decides `name_before` on two names.
pub fn is_name_before(a: &Vec<u8>, b: &Vec<u8>) -> (before: bool)
    ensures
        before == name_before(a@, b@),
{
    let mut k: usize = 0;
    proof {
        assert(a@.skip(0) == a@);
        assert(b@.skip(0) == b@);
    }
    while k < a.len() && k < b.len() && a[k] == b[k]
        invariant
            k <= a.len(),
            k <= b.len(),
            name_before(a@, b@) == name_before(a@.skip(k as int), b@.skip(k as int)),
        decreases a.len() - k,
    {
        proof {
            assert(a@.skip(k as int).drop_first() == a@.skip(k + 1));
            assert(b@.skip(k as int).drop_first() == b@.skip(k + 1));
        }
        k = k + 1;
    }
    if k == b.len() {
        false
    } else if k == a.len() {
        true
    } else {
        a[k] < b[k]
    }
}

/// What `place` gives when the position `i` belongs at `at`: everything from
/// `at` on has a name after the name at `i`, and what stands just before `at`
/// has not.
proof fn lemma_place_at(names: Seq<Seq<u8>>, sorted: Seq<int>, i: int, at: int)
    requires
        0 <= at <= sorted.len(),
        forall|k: int| at <= k < sorted.len() ==> name_before(names[i], names[#[trigger] sorted[k]]),
        at > 0 ==> !name_before(names[i], names[sorted[at - 1]]),
    ensures
        place(names, sorted, i) == sorted.insert(at, i),
    decreases sorted.len() - at,
{
    if at == sorted.len() {
        assert(sorted.insert(at, i) == sorted.push(i));
    } else {
        lemma_place_at(names, sorted.drop_last(), i, at);
        assert(sorted.drop_last().insert(at, i).push(sorted.last()) == sorted.insert(at, i));
    }
}

/// The positions of `entries` in traversal order.
pub fn traversal_order(entries: &Vec<Entry>) -> (order: Vec<usize>)
    ensures
        order@.len() == entries@.len(),
        order@.map_values(|i: usize| i as int) == name_order(
            names_of(entries@),
            entries@.len(),
        ),
        forall|k: int| 0 <= k < order@.len() ==> #[trigger] order@[k] < entries@.len(),
{
    let ghost names = names_of(entries@);
    let mut order: Vec<usize> = Vec::new();
    let mut i: usize = 0;
    while i < entries.len()
        invariant
            i <= entries@.len(),
            names == names_of(entries@),
            order@.len() == i,
            order@.map_values(|p: usize| p as int) == name_order(names, i as nat),
            forall|k: int| 0 <= k < order@.len() ==> #[trigger] order@[k] < i,
        decreases entries@.len() - i,
    {
        let ghost before = order@.map_values(|p: usize| p as int);
        let mut at: usize = order.len();
        while at > 0 && is_name_before(entries[i].get_name(), entries[order[at - 1]].get_name())
            invariant
                at <= order@.len(),
                i < entries@.len(),
                order@.len() == i,
                names == names_of(entries@),
                before == order@.map_values(|p: usize| p as int),
                forall|k: int| 0 <= k < order@.len() ==> #[trigger] order@[k] < i,
                forall|k: int|
                    at <= k < before.len() ==> name_before(
                        names[i as int],
                        names[#[trigger] before[k]],
                    ),
            decreases at,
        {
            at = at - 1;
        }
        proof {
            lemma_place_at(names, before, i as int, at as int);
        }
        order.insert(at, i);
        proof {
            assert(order@.map_values(|p: usize| p as int) == before.insert(at as int, i as int));
        }
        i = i + 1;
    }
    order
}

/// Writes the modification times at and below `entry` into `hasher`, in
/// traversal order, behind what the hasher has taken in before.
fn hash_file(hasher: &mut fxhash::FxHasher, entry: &Entry)
    ensures
        absorbed(*final(hasher)) == absorbed(*old(hasher)) + modification_times(*entry),
    decreases *entry,
{
    match entry {
        Entry::File { modified, .. } => {
            hasher_write(hasher, *modified);
            proof {
                assert(absorbed(*old(hasher)).push(*modified) == absorbed(*old(hasher)) + seq![
                    *modified,
                ]);
            }
        },
        Entry::Directory { entries, .. } => {
            let order = traversal_order(entries);
            let ghost listed = order@.map_values(|p: usize| p as int);
            let mut k: usize = 0;
            while k < order.len()
                invariant
                    k <= order@.len(),
                    order@.len() == entries@.len(),
                    listed == order@.map_values(|p: usize| p as int),
                    forall|j: int| 0 <= j < order@.len() ==> #[trigger] order@[j] < entries@.len(),
                    absorbed(*hasher) == absorbed(*old(hasher)) + times_along(
                        *entries,
                        listed,
                        k as nat,
                    ),
                    *entry matches Entry::Directory { entries: held, .. } && held == entries,
                decreases order@.len() - k,
            {
                hash_file(hasher, &entries[order[k]]);
                proof {
                    let head = times_along(*entries, listed, k as nat);
                    let more = modification_times(entries@[order@[k as int] as int]);
                    assert(listed[k as int] == order@[k as int] as int);
                    assert(times_along(*entries, listed, (k + 1) as nat) == head + more);
                    assert(absorbed(*old(hasher)) + head + more == absorbed(*old(hasher)) + (head
                        + more));
                }
                k = k + 1;
            }
        },
    }
}

/// The fingerprint of a document folder, or `DocumentNotFound` where the
/// document has no folder.
pub fn hash_document_files(folder: Option<&Entry>) -> (hash: Result<Fingerprint, RenderError>)
    ensures
        match folder {
            Some(root) => hash == Ok::<Fingerprint, RenderError>(fingerprint_of(*root)),
            None => hash == Err::<Fingerprint, RenderError>(RenderError::DocumentNotFound),
        },
{
    match folder {
        None => Err(RenderError::DocumentNotFound),
        Some(root) => {
            let mut hasher = hasher_new();
            hash_file(&mut hasher, root);
            Ok(hasher_finish(&hasher))
        },
    }
}

} // verus!
