//! The order of names: byte by byte comparison is a strict total order, and
//! the traversal order of a directory sorts by it.

use vstd::prelude::*;
use crate::fingerprint::{name_before, name_order, place};

verus! {

/// No name comes before itself.
pub proof fn lemma_before_irreflexive(a: Seq<u8>)
    ensures
        !name_before(a, a),
    decreases a.len(),
{
    if a.len() > 0 {
        lemma_before_irreflexive(a.drop_first());
    }
}

/// What comes before something that comes before a third comes before the
/// third.
pub proof fn lemma_before_transitive(a: Seq<u8>, b: Seq<u8>, c: Seq<u8>)
    requires
        name_before(a, b),
        name_before(b, c),
    ensures
        name_before(a, c),
    decreases a.len(),
{
    if a.len() > 0 && a[0] == b[0] && b[0] == c[0] {
        lemma_before_transitive(a.drop_first(), b.drop_first(), c.drop_first());
    }
}

/// Of two different names one comes before the other.
pub proof fn lemma_before_total(a: Seq<u8>, b: Seq<u8>)
    requires
        !name_before(a, b),
        !name_before(b, a),
    ensures
        a == b,
    decreases a.len(),
{
    if a.len() > 0 && b.len() > 0 {
        lemma_before_total(a.drop_first(), b.drop_first());
        assert(a =~= seq![a[0]] + a.drop_first());
        assert(b =~= seq![b[0]] + b.drop_first());
    } else {
        assert(a =~= b);
    }
}

/// What does not come after something that does not come after a third does
/// not come after the third.
pub proof fn lemma_not_after_transitive(a: Seq<u8>, b: Seq<u8>, c: Seq<u8>)
    requires
        !name_before(b, a),
        !name_before(c, b),
    ensures
        !name_before(c, a),
{
    if name_before(c, a) {
        if name_before(a, b) {
            lemma_before_transitive(c, a, b);
        } else {
            lemma_before_total(a, b);
        }
    }
}

/// Where `place` puts the position `i` into `sorted`.
pub open spec fn place_at(names: Seq<Seq<u8>>, sorted: Seq<int>, i: int) -> int
    decreases sorted.len(),
{
    if sorted.len() == 0 {
        0
    } else if name_before(names[i], names[sorted.last()]) {
        place_at(names, sorted.drop_last(), i)
    } else {
        sorted.len() as int
    }
}

/// `place` puts the new position in and leaves the others in their order.
pub proof fn lemma_place_inserts(names: Seq<Seq<u8>>, sorted: Seq<int>, i: int)
    ensures
        0 <= place_at(names, sorted, i) <= sorted.len(),
        place(names, sorted, i) == sorted.insert(place_at(names, sorted, i), i),
    decreases sorted.len(),
{
    if sorted.len() == 0 {
        assert(seq![i] =~= sorted.insert(0, i));
    } else if name_before(names[i], names[sorted.last()]) {
        lemma_place_inserts(names, sorted.drop_last(), i);
        let at = place_at(names, sorted.drop_last(), i);
        assert(sorted.drop_last().insert(at, i).push(sorted.last()) =~= sorted.insert(at, i));
    } else {
        assert(sorted.push(i) =~= sorted.insert(sorted.len() as int, i));
    }
}

/// Whether `order` lists positions of `names` so that no name comes before
/// one that is listed earlier.
pub open spec fn ascending(names: Seq<Seq<u8>>, order: Seq<int>) -> bool {
    forall|j: int, k: int|
        0 <= j < k < order.len() ==> !name_before(
            names[#[trigger] order[k]],
            names[#[trigger] order[j]],
        )
}

/// `place` keeps an ascending list ascending.
pub proof fn lemma_place_ascending(names: Seq<Seq<u8>>, sorted: Seq<int>, i: int)
    requires
        ascending(names, sorted),
    ensures
        ascending(names, place(names, sorted, i)),
    decreases sorted.len(),
{
    let placed = place(names, sorted, i);
    lemma_place_inserts(names, sorted, i);
    if sorted.len() == 0 {
    } else if name_before(names[i], names[sorted.last()]) {
        let shorter = sorted.drop_last();
        let inner = place(names, shorter, i);
        assert(ascending(names, shorter)) by {
            assert forall|j: int, k: int| 0 <= j < k < shorter.len() implies !name_before(
                names[#[trigger] shorter[k]],
                names[#[trigger] shorter[j]],
            ) by {
                assert(shorter[k] == sorted[k] && shorter[j] == sorted[j]);
            }
        }
        lemma_place_ascending(names, shorter, i);
        lemma_place_inserts(names, shorter, i);
        let at = place_at(names, shorter, i);
        assert forall|j: int, k: int| 0 <= j < k < placed.len() implies !name_before(
            names[#[trigger] placed[k]],
            names[#[trigger] placed[j]],
        ) by {
            if k < inner.len() {
                assert(placed[k] == inner[k] && placed[j] == inner[j]);
            } else {
                assert(placed[k] == sorted.last());
                assert(placed[j] == inner[j]);
                if j == at {
                    assert(inner[j] == i);
                    if name_before(names[sorted.last()], names[i]) {
                        lemma_before_transitive(names[i], names[sorted.last()], names[i]);
                        lemma_before_irreflexive(names[i]);
                    }
                } else if j < at {
                    assert(inner[j] == sorted[j]);
                } else {
                    assert(inner[j] == sorted[j - 1]);
                }
            }
        }
    } else {
        assert forall|j: int, k: int| 0 <= j < k < placed.len() implies !name_before(
            names[#[trigger] placed[k]],
            names[#[trigger] placed[j]],
        ) by {
            if k < sorted.len() {
                assert(placed[k] == sorted[k] && placed[j] == sorted[j]);
            } else {
                assert(placed[k] == i);
                assert(placed[j] == sorted[j]);
                if j < sorted.len() - 1 {
                    assert(!name_before(names[sorted[sorted.len() - 1]], names[sorted[j]]));
                    lemma_not_after_transitive(
                        names[sorted[j]],
                        names[sorted.last()],
                        names[i],
                    );
                }
            }
        }
    }
}

/// Whether `order` lists the position `i`.
pub open spec fn lists(order: Seq<int>, i: int) -> bool {
    exists|k: int| 0 <= k < order.len() && order[k] == i
}

/// Whether `order` lists every position below `count` once and nothing
/// else.
pub open spec fn lists_each_once(order: Seq<int>, count: nat) -> bool {
    &&& order.len() == count
    &&& forall|k: int| 0 <= k < order.len() ==> 0 <= #[trigger] order[k] < count
    &&& forall|j: int, k: int|
        0 <= j < k < order.len() ==> #[trigger] order[j] != #[trigger] order[k]
    &&& forall|i: int| 0 <= i < count ==> #[trigger] lists(order, i)
}

/// The traversal order is an order: it lists every position once, by
/// ascending name.
pub proof fn lemma_name_order_sorts(names: Seq<Seq<u8>>, count: nat)
    ensures
        lists_each_once(name_order(names, count), count),
        ascending(names, name_order(names, count)),
    decreases count,
{
    if count > 0 {
        let before = name_order(names, (count - 1) as nat);
        let order = name_order(names, count);
        let i = count - 1;
        lemma_name_order_sorts(names, (count - 1) as nat);
        lemma_place_ascending(names, before, i);
        lemma_place_inserts(names, before, i);
        let at = place_at(names, before, i);
        assert(order == before.insert(at, i));
        assert forall|k: int| 0 <= k < order.len() implies 0 <= #[trigger] order[k] < count by {
            if k < at {
                assert(order[k] == before[k]);
            } else if k > at {
                assert(order[k] == before[k - 1]);
            }
        }
        assert forall|j: int, k: int| 0 <= j < k < order.len() implies #[trigger] order[j]
            != #[trigger] order[k] by {
            let a = if j < at {
                j
            } else {
                j - 1
            };
            let b = if k < at {
                k
            } else {
                k - 1
            };
            if j != at {
                assert(order[j] == before[a]);
            }
            if k != at {
                assert(order[k] == before[b]);
            }
        }
        assert forall|wanted: int| 0 <= wanted < count implies #[trigger] lists(order, wanted) by {
            if wanted == i {
                assert(order[at] == wanted);
            } else {
                assert(lists(before, wanted));
                let m = choose|m: int| 0 <= m < before.len() && before[m] == wanted;
                if m < at {
                    assert(order[m] == wanted);
                } else {
                    assert(order[m + 1] == wanted);
                }
            }
        }
    }
}

/// Whether every name of `names` comes before all that follow it.
pub open spec fn strictly_ascending(names: Seq<Seq<u8>>) -> bool {
    forall|j: int, k: int|
        0 <= j < k < names.len() ==> name_before(#[trigger] names[j], #[trigger] names[k])
}

/// Two strictly ascending lists of the same names are the same list, place by
/// place.
pub proof fn lemma_ascending_unique(u: Seq<Seq<u8>>, v: Seq<Seq<u8>>, upto: nat)
    requires
        strictly_ascending(u),
        strictly_ascending(v),
        u.len() == v.len(),
        forall|k: int| 0 <= k < u.len() ==> v.contains(#[trigger] u[k]),
        forall|k: int| 0 <= k < v.len() ==> u.contains(#[trigger] v[k]),
        upto <= u.len(),
    ensures
        forall|k: int| 0 <= k < upto ==> #[trigger] u[k] == v[k],
    decreases upto,
{
    if upto > 0 {
        lemma_ascending_unique(u, v, (upto - 1) as nat);
        let k = upto - 1;
        lemma_not_misplaced(u, v, k);
        lemma_not_misplaced(v, u, k);
        lemma_before_total(u[k], v[k]);
    }
}

/// The step of `lemma_ascending_unique`: where two strictly ascending lists
/// agree before the place `k`, the name of the one at `k` does not come
/// before the name of the other there, for it would have no place in the
/// other.
proof fn lemma_not_misplaced(u: Seq<Seq<u8>>, v: Seq<Seq<u8>>, k: int)
    requires
        strictly_ascending(u),
        strictly_ascending(v),
        u.len() == v.len(),
        0 <= k < u.len(),
        v.contains(u[k]),
        forall|j: int| 0 <= j < k ==> #[trigger] u[j] == v[j] || #[trigger] v[j] == u[j],
    ensures
        !name_before(u[k], v[k]),
{
    if name_before(u[k], v[k]) {
        let m = choose|m: int| 0 <= m < v.len() && v[m] == u[k];
        lemma_before_irreflexive(u[k]);
        if m < k {
            assert(u[m] == v[m]);
            assert(name_before(u[m], u[k]));
        } else if m > k {
            assert(name_before(v[k], v[m]));
            lemma_before_transitive(u[k], v[k], v[m]);
        }
    }
}

} // verus!
