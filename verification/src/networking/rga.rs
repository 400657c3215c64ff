//! RGA (replicated growable array): a replicated sequence.
//!
//! Every element names the element it was inserted after (`None` for the
//! beginning), which makes the elements a forest rooted at the beginning.
//! The sequence is read by walking that tree: the children of a node are
//! ordered by their vector clocks, concurrent ones by inserting node and then
//! by element ID; a walk lists, for the node it stands on, all its children
//! (last first) and then the subtrees of the children in order. Deleted
//! elements stay as tombstones so that later inserts can still name them.

use std::collections::{HashMap, HashSet};
use vstd::prelude::*;
use vstd::std_specs::iter::IteratorSpec;

use crate::ids::{random_id, NodeId};
use crate::networking::orset::faithful_clone;
use crate::networking::vector_clock::{
    clock_lt, lemma_clock_lt_asymmetric, lemma_clock_lt_irreflexive, lemma_clock_lt_transitive, lemma_iter_covers,
    VectorClock,
};

verus! {

broadcast use vstd::std_specs::hash::group_hash_axioms;

/// The abstract content of an element: its ID, value, predecessor, inserting
/// node, vector clock and tombstone flag.
pub type RgaItem<T> = (u128, T, Option<u128>, NodeId, Map<NodeId, u64>, bool);

/// The abstract content of a sequence: its elements by ID.
pub type RgaModel<T> = Map<u128, RgaItem<T>>;

/// An element in an RGA sequence.
#[derive(Clone, Debug)]
pub struct RgaElement<T> {
    /// Unique ID for this element.
    pub id: u128,
    /// The actual value.
    pub value: T,
    /// ID of the element this was inserted after (None = beginning).
    pub after_id: Option<u128>,
    /// Node that performed the insert.
    pub inserting_node: NodeId,
    /// Vector clock when inserted (for ordering concurrent inserts).
    pub vector_clock: VectorClock,
    /// Whether this element has been deleted (tombstone).
    pub is_deleted: bool,
}

impl<T> View for RgaElement<T> {
    type V = RgaItem<T>;

    open spec fn view(&self) -> RgaItem<T> {
        (
            self.id,
            self.value,
            self.after_id,
            self.inserting_node,
            self.vector_clock@,
            self.is_deleted,
        )
    }
}

impl<T: Clone> RgaElement<T> {
    /// A copy of this element with the same content.
    pub fn duplicate(&self) -> (r: Self)
        requires
            faithful_clone::<T>(),
        ensures
            r@ == self@,
    {
        let v = self.value.clone();
        assert(cloned::<T>(self.value, v));
        RgaElement {
            id: self.id,
            value: v,
            after_id: self.after_id,
            inserting_node: self.inserting_node,
            vector_clock: self.vector_clock.clone(),
            is_deleted: self.is_deleted,
        }
    }
}

// ---------------------------------------------------------------------------
// The order of a sequence
// ---------------------------------------------------------------------------

/// The IDs of the elements inserted directly after `p`.
pub open spec fn child_ids<T>(m: RgaModel<T>, p: Option<u128>) -> Set<u128> {
    m.dom().filter(|id: u128| m[id].2 == p)
}

/// The least ID of a set.
pub open spec fn set_min(s: Set<u128>) -> u128 {
    choose|x: u128| s.contains(x) && forall|y: u128| s.contains(y) ==> x <= y
}

/// A finite non-empty set of IDs has a least element.
pub proof fn lemma_set_min(s: Set<u128>)
    requires
        s.finite(),
        s.len() > 0,
    ensures
        s.contains(set_min(s)),
        forall|y: u128| s.contains(y) ==> set_min(s) <= y,
    decreases s.len(),
{
    let x = s.choose();
    assert(s.contains(x));
    let rest = s.remove(x);
    if rest.len() == 0 {
        assert forall|y: u128| s.contains(y) implies x <= y by {
            if y != x {
                assert(rest.contains(y));
            }
        }
    } else {
        lemma_set_min(rest);
        let m = set_min(rest);
        if m < x {
            assert forall|y: u128| s.contains(y) implies m <= y by {
                if y != x {
                    assert(rest.contains(y));
                }
            }
        } else {
            assert forall|y: u128| s.contains(y) implies x <= y by {
                if y != x {
                    assert(rest.contains(y));
                }
            }
        }
    }
}

/// The IDs of a finite set in ascending order.
pub open spec fn ascending(s: Set<u128>) -> Seq<u128>
    decreases s.len(),
    when s.finite()
{
    if s.len() == 0 {
        Seq::empty()
    } else {
        proof {
            lemma_set_min(s);
        }
        seq![set_min(s)] + ascending(s.remove(set_min(s)))
    }
}

/// Strictly increasing.
pub open spec fn increasing(q: Seq<u128>) -> bool {
    forall|i: int, j: int| 0 <= i < j < q.len() ==> q[i] < q[j]
}

/// A strictly increasing sequence is the ascending listing of its elements.
pub proof fn lemma_ascending_unique(q: Seq<u128>)
    requires
        increasing(q),
    ensures
        q.to_set().finite(),
        q == ascending(q.to_set()),
    decreases q.len(),
{
    vstd::seq_lib::seq_to_set_is_finite(q);
    let s = q.to_set();
    if q.len() == 0 {
        assert(s =~= Set::<u128>::empty());
    } else {
        assert(q.no_duplicates());
        q.unique_seq_to_set();
        let rest = q.drop_first();
        assert(s.contains(q[0]));
        lemma_set_min(s);
        let m = set_min(s);
        let k = choose|k: int| 0 <= k < q.len() && q[k] == m;
        assert(m <= q[0]);
        assert(k == 0);
        assert(rest.to_set() =~= s.remove(m)) by {
            assert forall|x: u128| rest.to_set().contains(x) implies s.remove(m).contains(x) by {
                let j = choose|j: int| 0 <= j < rest.len() && rest[j] == x;
                assert(q[j + 1] == x);
            }
            assert forall|x: u128| s.remove(m).contains(x) implies rest.to_set().contains(x) by {
                let j = choose|j: int| 0 <= j < q.len() && q[j] == x;
                assert(j != 0);
                assert(rest[j - 1] == x);
            }
        }
        assert(increasing(rest)) by {
            assert forall|i: int, j: int| 0 <= i < j < rest.len() implies rest[i] < rest[j] by {
                assert(q[i + 1] < q[j + 1]);
            }
        }
        lemma_ascending_unique(rest);
        assert(s.len() > 0);
        assert(q =~= seq![m] + rest);
    }
}

/// `a` comes before its sibling `b`: by happened-before, or, when the clocks
/// are not ordered, by inserting node and then by ID.
pub open spec fn sibling_less<T>(m: RgaModel<T>, a: u128, b: u128) -> bool {
    ||| clock_lt(m[a].4, m[b].4)
    ||| (!clock_lt(m[b].4, m[a].4) && (m[a].3 < m[b].3 || (m[a].3 == m[b].3 && a < b)))
}

/// The first index of `r` whose entry `x` comes before (`r.len()` if none).
pub open spec fn first_after<T>(m: RgaModel<T>, r: Seq<u128>, x: u128) -> int
    decreases r.len(),
{
    if r.len() == 0 {
        0
    } else if sibling_less(m, x, r[0]) {
        0
    } else {
        1 + first_after(m, r.drop_first(), x)
    }
}

/// Insertion sort of `s` by `sibling_less`, each element placed before the
/// first one that it comes before.
pub open spec fn sibling_sort<T>(m: RgaModel<T>, s: Seq<u128>) -> Seq<u128>
    decreases s.len(),
{
    if s.len() == 0 {
        s
    } else {
        let r = sibling_sort(m, s.drop_last());
        r.insert(first_after(m, r, s.last()), s.last())
    }
}

/// The children of `p` in sequence order.
pub open spec fn ordered_children<T>(m: RgaModel<T>, p: Option<u128>) -> Seq<u128> {
    sibling_sort(m, ascending(child_ids(m, p)))
}

/// What a walk below `p` lists, for walks at most `fuel` levels deep: the
/// children of `p` (last first), then the walks below each child in order.
pub open spec fn walk_below<T>(m: RgaModel<T>, p: Option<u128>, fuel: nat) -> Seq<u128>
    decreases fuel, 0nat,
{
    if fuel == 0 {
        Seq::empty()
    } else {
        let c = ordered_children(m, p);
        c.reverse() + walk_children(m, c, (fuel - 1) as nat)
    }
}

/// The walks below each element of `c`, concatenated in order.
pub open spec fn walk_children<T>(m: RgaModel<T>, c: Seq<u128>, fuel: nat) -> Seq<u128>
    decreases fuel, c.len() + 1,
{
    if c.len() == 0 {
        Seq::empty()
    } else {
        walk_children(m, c.drop_last(), fuel) + walk_below(m, Some(c.last()), fuel)
    }
}

/// The IDs of a sequence in order, tombstones included. A walk from the
/// beginning never needs more levels than there are elements.
pub open spec fn rga_order<T>(m: RgaModel<T>) -> Seq<u128> {
    walk_below(m, None, m.dom().len())
}

/// The IDs of the elements that are not deleted, in sequence order.
pub open spec fn visible_ids<T>(m: RgaModel<T>) -> Seq<u128> {
    rga_order(m).filter(visible_pred(m))
}

/// The values of the elements that are not deleted, in sequence order.
pub open spec fn visible_values<T>(m: RgaModel<T>) -> Seq<T> {
    visible_ids(m).map_values(|id: u128| m[id].1)
}

/// Index of the first occurrence of `x` in `s` (`s.len()` if none).
pub open spec fn first_index(s: Seq<u128>, x: u128) -> int
    decreases s.len(),
{
    if s.len() == 0 {
        0
    } else if s[0] == x {
        0
    } else {
        1 + first_index(s.drop_first(), x)
    }
}

/// Index of `id` among the visible elements, or 0 when it is not one of them.
pub open spec fn visible_position<T>(m: RgaModel<T>, id: u128) -> int {
    if visible_ids(m).contains(id) {
        first_index(visible_ids(m), id)
    } else {
        0
    }
}

/// `first_index` is the index of the first occurrence.
pub proof fn lemma_first_index(s: Seq<u128>, x: u128, j: int)
    requires
        0 <= j <= s.len(),
        forall|k: int| 0 <= k < j ==> s[k] != x,
        j == s.len() || s[j] == x,
    ensures
        first_index(s, x) == j,
    decreases j,
{
    if j > 0 {
        lemma_first_index(s.drop_first(), x, j - 1);
    }
}

/// `first_after` is the first index whose entry `x` comes before.
pub proof fn lemma_first_after<T>(m: RgaModel<T>, r: Seq<u128>, x: u128, j: int)
    requires
        0 <= j <= r.len(),
        forall|k: int| 0 <= k < j ==> !sibling_less(m, x, r[k]),
        j == r.len() || sibling_less(m, x, r[j]),
    ensures
        first_after(m, r, x) == j,
    decreases j,
{
    if j > 0 {
        lemma_first_after(m, r.drop_first(), x, j - 1);
    }
}

/// `first_after` is a valid insertion index.
pub proof fn lemma_first_after_bounds<T>(m: RgaModel<T>, r: Seq<u128>, x: u128)
    ensures
        0 <= first_after(m, r, x) <= r.len(),
    decreases r.len(),
{
    if r.len() > 0 {
        lemma_first_after_bounds(m, r.drop_first(), x);
    }
}

/// Sorting keeps exactly the elements it was given.
pub proof fn lemma_sibling_sort_elements<T>(m: RgaModel<T>, s: Seq<u128>)
    ensures
        sibling_sort(m, s).len() == s.len(),
        forall|x: u128| sibling_sort(m, s).contains(x) <==> s.contains(x),
    decreases s.len(),
{
    if s.len() > 0 {
        let r = sibling_sort(m, s.drop_last());
        lemma_sibling_sort_elements(m, s.drop_last());
        lemma_first_after_bounds(m, r, s.last());
        let j = first_after(m, r, s.last());
        assert forall|x: u128| sibling_sort(m, s).contains(x) <==> s.contains(x) by {
            let q = r.insert(j, s.last());
            if q.contains(x) {
                let k = choose|k: int| 0 <= k < q.len() && q[k] == x;
                if k < j {
                    assert(r[k] == x);
                    assert(r.contains(x));
                } else if k > j {
                    assert(r[k - 1] == x);
                    assert(r.contains(x));
                }
                if x != s.last() {
                    assert(r.contains(x));
                    assert(s.drop_last().contains(x));
                    let i = choose|i: int| 0 <= i < s.drop_last().len() && s.drop_last()[i] == x;
                    assert(s.drop_last()[i] == s[i]);
                }
            }
            if s.contains(x) {
                let i = choose|i: int| 0 <= i < s.len() && s[i] == x;
                if i == s.len() - 1 {
                    assert(q[j] == x);
                } else {
                    assert(s.drop_last()[i] == x);
                    assert(s.drop_last().contains(x));
                    assert(r.contains(x));
                    let k = choose|k: int| 0 <= k < r.len() && r[k] == x;
                    if k < j {
                        assert(q[k] == x);
                    } else {
                        assert(q[k + 1] == x);
                    }
                }
            }
        }
    }
}

/// The walks below a prefix grow by one walk per element.
pub proof fn lemma_walk_children_push<T>(m: RgaModel<T>, c: Seq<u128>, i: int, fuel: nat)
    requires
        0 <= i < c.len(),
    ensures
        walk_children(m, c.take(i + 1), fuel) == walk_children(m, c.take(i), fuel) + walk_below(
            m,
            Some(c[i]),
            fuel,
        ),
{
    assert(c.take(i + 1).drop_last() =~= c.take(i));
}


/// Whether `id` names an element that is present and not deleted.
pub open spec fn visible_pred<T>(m: RgaModel<T>) -> spec_fn(u128) -> bool {
    |id: u128| m.contains_key(id) && !m[id].5
}

/// The IDs of the elements that are not deleted, reachable or not.
pub open spec fn live_ids<T>(m: RgaModel<T>) -> Set<u128> {
    m.dom().filter(|id: u128| !m[id].5)
}

/// The element a fresh insert creates.
pub open spec fn new_item<T>(
    id: u128,
    value: T,
    after: Option<u128>,
    node: NodeId,
    clock: Map<NodeId, u64>,
) -> RgaItem<T> {
    (id, value, after, node, clock, false)
}

/// The element `x` with its tombstone flag set.
pub open spec fn tombstoned<T>(x: RgaItem<T>) -> RgaItem<T> {
    (x.0, x.1, x.2, x.3, x.4, true)
}

/// Merge of two sequences: every element of either; an element both hold
/// keeps the first one's content, deleted if either deleted it.
pub open spec fn rga_join<T>(a: RgaModel<T>, b: RgaModel<T>) -> RgaModel<T> {
    Map::new(
        |id: u128| a.contains_key(id) || b.contains_key(id),
        |id: u128|
            if a.contains_key(id) {
                if b.contains_key(id) && b[id].5 {
                    tombstoned(a[id])
                } else {
                    a[id]
                }
            } else {
                b[id]
            },
    )
}

/// Whether some element of `m` was inserted directly after `id`.
pub open spec fn is_referenced<T>(m: RgaModel<T>, id: u128) -> bool {
    exists|j: u128| m.contains_key(j) && m[j].2 == Some(id)
}

/// The sequence without the tombstones that no element was inserted after.
pub open spec fn rga_collected<T>(m: RgaModel<T>) -> RgaModel<T> {
    m.restrict(m.dom().filter(|id: u128| !m[id].5 || is_referenced(m, id)))
}


/// One step of a merge: adding element `id` of `b` to the merge of `a` with
/// the part of `b` seen so far.
proof fn lemma_join_step<T>(a: RgaModel<T>, b: RgaModel<T>, seen: Set<u128>, id: u128, cur: RgaModel<T>)
    requires
        b.contains_key(id),
        cur == rga_join(a, b.restrict(seen)),
    ensures
        cur.contains_key(id) && b[id].5 ==> cur.insert(id, tombstoned(cur[id])) == rga_join(
            a,
            b.restrict(seen.insert(id)),
        ),
        cur.contains_key(id) && !b[id].5 ==> cur == rga_join(a, b.restrict(seen.insert(id))),
        !cur.contains_key(id) ==> cur.insert(id, b[id]) == rga_join(a, b.restrict(seen.insert(id))),
{
    let next = rga_join(a, b.restrict(seen.insert(id)));
    if cur.contains_key(id) && b[id].5 {
        let x = b[id];
        assert(tombstoned(x) == x);
        assert(cur.insert(id, tombstoned(cur[id])) =~= next);
    }
    if cur.contains_key(id) && !b[id].5 {
        assert(cur =~= next);
    }
    if !cur.contains_key(id) {
        assert(cur.insert(id, b[id]) =~= next);
    }
}


// ---------------------------------------------------------------------------
// Laws of merging
// ---------------------------------------------------------------------------

/// Two sequences agree on every element they share, tombstone flags aside.
pub open spec fn rga_compatible<T>(a: RgaModel<T>, b: RgaModel<T>) -> bool {
    forall|id: u128|
        a.contains_key(id) && b.contains_key(id) ==> tombstoned(a[id]) == tombstoned(b[id])
}

/// Merging sequences that agree on their shared elements gives the same
/// sequence in either order, and so the same visible values.
pub proof fn lemma_rga_join_commutative<T>(a: RgaModel<T>, b: RgaModel<T>)
    requires
        rga_compatible(a, b),
    ensures
        rga_join(a, b) == rga_join(b, a),
        visible_values(rga_join(a, b)) == visible_values(rga_join(b, a)),
{
    assert forall|id: u128| a.contains_key(id) && b.contains_key(id) implies rga_join(a, b)[id]
        == rga_join(b, a)[id] by {
        assert(tombstoned(a[id]) == tombstoned(b[id]));
    }
    assert(rga_join(a, b) =~= rga_join(b, a));
}

/// Merging is associative.
pub proof fn lemma_rga_join_associative<T>(a: RgaModel<T>, b: RgaModel<T>, c: RgaModel<T>)
    ensures
        rga_join(rga_join(a, b), c) == rga_join(a, rga_join(b, c)),
{
    assert(rga_join(rga_join(a, b), c) =~= rga_join(a, rga_join(b, c)));
}

/// Merging a sequence with itself changes nothing.
pub proof fn lemma_rga_join_idempotent<T>(a: RgaModel<T>)
    ensures
        rga_join(a, a) == a,
{
    assert forall|id: u128| a.contains_key(id) implies rga_join(a, a)[id] == a[id] by {
        if a[id].5 {
            let x = a[id];
            assert(tombstoned(x) == x);
        }
    }
    assert(rga_join(a, a) =~= a);
}

/// What a merge keeps of each element: it holds every element of either
/// side; an element is deleted after the merge exactly when either side
/// deleted it; an element the receiving side held keeps its value, position
/// and stamp; and merging a replica with itself leaves its visible values
/// unchanged.
pub proof fn lemma_rga_merge<T>(a: RgaModel<T>, b: RgaModel<T>, id: u128)
    ensures
        rga_join(a, b).contains_key(id) == (a.contains_key(id) || b.contains_key(id)),
        rga_join(a, b).contains_key(id) ==> rga_join(a, b)[id].5 == ((a.contains_key(id) && a[id].5) || (
        b.contains_key(id) && b[id].5)),
        a.contains_key(id) ==> {
            &&& rga_join(a, b)[id].0 == a[id].0
            &&& rga_join(a, b)[id].1 == a[id].1
            &&& rga_join(a, b)[id].2 == a[id].2
            &&& rga_join(a, b)[id].3 == a[id].3
            &&& rga_join(a, b)[id].4 == a[id].4
        },
        live_ids(rga_join(a, b)).contains(id) == (rga_join(a, b).contains_key(id) && !rga_join(a, b)[id].5),
        visible_values(rga_join(a, a)) == visible_values(a),
{
    lemma_rga_join_idempotent(a);
}

/// A fresh replica that merges another holds exactly the other's elements,
/// and so lists the same visible values: replicas with the same elements
/// converge.
pub proof fn lemma_rga_fresh_merge_converges<T>(a: RgaModel<T>)
    ensures
        rga_join(Map::<u128, RgaItem<T>>::empty(), a) == a,
        visible_values(rga_join(Map::<u128, RgaItem<T>>::empty(), a)) == visible_values(a),
{
    assert(rga_join(Map::<u128, RgaItem<T>>::empty(), a) =~= a);
}

/// A merge holds every element of both sides.
pub proof fn lemma_rga_join_keeps_elements<T>(a: RgaModel<T>, b: RgaModel<T>)
    ensures
        rga_join(a, b).dom() == a.dom().union(b.dom()),
{
    assert(rga_join(a, b).dom() =~= a.dom().union(b.dom()));
}

/// An element deleted on either side is deleted after a merge, and hidden
/// from the visible sequence.
pub proof fn lemma_rga_delete_wins<T>(a: RgaModel<T>, b: RgaModel<T>, id: u128)
    requires
        (a.contains_key(id) && a[id].5) || (b.contains_key(id) && b[id].5),
    ensures
        rga_join(a, b).contains_key(id),
        rga_join(a, b)[id].5,
        !visible_ids(rga_join(a, b)).contains(id),
{
    let m = rga_join(a, b);
    if visible_ids(m).contains(id) {
        let i = choose|i: int| 0 <= i < visible_ids(m).len() && visible_ids(m)[i] == id;
        rga_order(m).lemma_filter_pred(visible_pred(m), i);
    }
}

/// Garbage collection keeps every element that is not deleted, unchanged.
pub proof fn lemma_rga_collect_keeps_live<T>(m: RgaModel<T>, id: u128)
    requires
        m.contains_key(id),
        !m[id].5,
    ensures
        rga_collected(m).contains_key(id),
        rga_collected(m)[id] == m[id],
{
}

/// A deleted element leaves the visible sequence.
pub proof fn lemma_rga_deleted_invisible<T>(m: RgaModel<T>, id: u128)
    requires
        m.contains_key(id),
    ensures
        !visible_ids(m.insert(id, tombstoned(m[id]))).contains(id),
{
    let n = m.insert(id, tombstoned(m[id]));
    if visible_ids(n).contains(id) {
        let i = choose|i: int| 0 <= i < visible_ids(n).len() && visible_ids(n)[i] == id;
        rga_order(n).lemma_filter_pred(visible_pred(n), i);
    }
}


// ---------------------------------------------------------------------------
// Order of siblings
// ---------------------------------------------------------------------------

/// The order of the elements inserted after `p` is consistent: it is
/// transitive among them.
pub open spec fn siblings_consistent<T>(m: RgaModel<T>, p: Option<u128>) -> bool {
    forall|x: u128, y: u128, z: u128|
        #![trigger sibling_less(m, x, y), sibling_less(m, y, z)]
        child_ids(m, p).contains(x) && child_ids(m, p).contains(y) && child_ids(m, p).contains(z)
            && sibling_less(m, x, y) && sibling_less(m, y, z) ==> sibling_less(m, x, z)
}

/// Whether every occurrence of `x` in `s` lies before every occurrence of `y`.
pub open spec fn all_before(s: Seq<u128>, x: u128, y: u128) -> bool {
    forall|i: int, j: int| 0 <= i < s.len() && 0 <= j < s.len() && s[i] == x && s[j] == y ==> i < j
}

/// What `first_after` finds: every earlier entry is not after `x`, and the
/// entry found (if any) is.
proof fn lemma_first_after_props<T>(m: RgaModel<T>, r: Seq<u128>, x: u128)
    ensures
        forall|k: int| 0 <= k < first_after(m, r, x) ==> !sibling_less(m, x, #[trigger] r[k]),
        first_after(m, r, x) < r.len() ==> sibling_less(m, x, r[first_after(m, r, x)]),
    decreases r.len(),
{
    lemma_first_after_bounds(m, r, x);
    if r.len() > 0 && !sibling_less(m, x, r[0]) {
        lemma_first_after_props(m, r.drop_first(), x);
        lemma_first_after_bounds(m, r.drop_first(), x);
        let k0 = first_after(m, r.drop_first(), x);
        assert(first_after(m, r, x) == 1 + k0);
        if k0 < r.drop_first().len() {
            assert(r[1 + k0] == r.drop_first()[k0]);
        }
        assert forall|k: int| 0 <= k < first_after(m, r, x) implies !sibling_less(m, x, #[trigger] r[k]) by {
            if k > 0 {
                assert(r[k] == r.drop_first()[k - 1]);
            }
        }
    }
}

/// Sorting the elements inserted after `p` puts them in order when that
/// order is consistent: of two entries, the earlier is equal to or comes
/// before the later.
proof fn lemma_sibling_sort_sorted<T>(m: RgaModel<T>, p: Option<u128>, s: Seq<u128>)
    requires
        siblings_consistent(m, p),
        forall|i: int| 0 <= i < s.len() ==> child_ids(m, p).contains(#[trigger] s[i]),
    ensures
        forall|i: int, j: int|
            0 <= i < j < sibling_sort(m, s).len() ==> sibling_sort(m, s)[i] == sibling_sort(m, s)[j]
                || sibling_less(m, #[trigger] sibling_sort(m, s)[i], #[trigger] sibling_sort(m, s)[j]),
    decreases s.len(),
{
    if s.len() > 0 {
        let s0 = s.drop_last();
        lemma_sibling_sort_sorted(m, p, s0);
        lemma_sibling_sort_elements(m, s0);
        let r0 = sibling_sort(m, s0);
        let x = s.last();
        assert(child_ids(m, p).contains(x));
        lemma_first_after_bounds(m, r0, x);
        lemma_first_after_props(m, r0, x);
        let k = first_after(m, r0, x);
        let r = sibling_sort(m, s);
        assert(r == r0.insert(k, x));
        assert forall|t: int| 0 <= t < r0.len() implies child_ids(m, p).contains(#[trigger] r0[t]) by {
            assert(r0.contains(r0[t]));
            assert(s0.contains(r0[t]));
        }
        assert forall|i: int, j: int| 0 <= i < j < r.len() implies r[i] == r[j] || sibling_less(
            m,
            #[trigger] r[i],
            #[trigger] r[j],
        ) by {
            if i < k && j < k {
                assert(r[i] == r0[i] && r[j] == r0[j]);
            } else if i < k && j == k {
                assert(r[i] == r0[i] && r[j] == x);
                assert(!sibling_less(m, x, r0[i]));
            } else if i < k && j > k {
                assert(r[i] == r0[i] && r[j] == r0[j - 1]);
            } else if i == k {
                assert(r[i] == x && r[j] == r0[j - 1]);
                assert(sibling_less(m, x, r0[k]));
                if j - 1 > k {
                    assert(r0[k] == r0[j - 1] || sibling_less(m, r0[k], r0[j - 1]));
                    assert(child_ids(m, p).contains(r0[k]));
                    assert(child_ids(m, p).contains(r0[j - 1]));
                }
            } else {
                assert(r[i] == r0[i - 1] && r[j] == r0[j - 1]);
            }
        }
    }
}

/// Of two elements inserted after `p` whose clocks are causally ordered,
/// the earlier one is listed first among the children of `p`, when their
/// order is consistent.
#[verifier::rlimit(40)]
proof fn lemma_children_clock_order<T>(m: RgaModel<T>, p: Option<u128>, a: u128, b: u128)
    requires
        m.dom().finite(),
        siblings_consistent(m, p),
        child_ids(m, p).contains(a),
        child_ids(m, p).contains(b),
        clock_lt(m[a].4, m[b].4),
    ensures
        ordered_children(m, p).contains(a),
        ordered_children(m, p).contains(b),
        all_before(ordered_children(m, p), a, b),
{
    let c = child_ids(m, p);
    vstd::set_lib::lemma_set_subset_finite(m.dom(), c);
    lemma_ascending_contains(c);
    let asc = ascending(c);
    lemma_sibling_sort_elements(m, asc);
    assert forall|i: int| 0 <= i < asc.len() implies child_ids(m, p).contains(#[trigger] asc[i]) by {
        assert(asc.contains(asc[i]));
    }
    lemma_sibling_sort_sorted(m, p, asc);
    let o = ordered_children(m, p);
    lemma_clock_lt_asymmetric(m[a].4, m[b].4);
    lemma_clock_lt_irreflexive(m[a].4);
    assert(a != b);
    assert forall|i: int, j: int| 0 <= i < o.len() && 0 <= j < o.len() && o[i] == a && o[j] == b implies i
        < j by {
        if j < i {
            assert(o[j] == o[i] || sibling_less(m, o[j], o[i]));
        }
    }
}

/// The first occurrence of `x` in a concatenation.
proof fn lemma_first_index_concat(s1: Seq<u128>, s2: Seq<u128>, x: u128)
    ensures
        (s1 + s2).contains(x) <==> (s1.contains(x) || s2.contains(x)),
        s1.contains(x) ==> first_index(s1 + s2, x) == first_index(s1, x),
        !s1.contains(x) ==> first_index(s1 + s2, x) == s1.len() + first_index(s2, x),
{
    let s = s1 + s2;
    lemma_first_index_props(s1, x);
    lemma_first_index_props(s2, x);
    if s1.contains(x) {
        lemma_first_index(s, x, first_index(s1, x));
    } else {
        assert forall|k: int| 0 <= k < s1.len() + first_index(s2, x) implies s[k] != x by {
            if k < s1.len() {
                assert(s[k] == s1[k]);
                assert(!s1.contains(x));
                if s1[k] == x {
                    assert(s1.contains(x));
                }
            } else {
                assert(s[k] == s2[k - s1.len()]);
            }
        }
        lemma_first_index(s, x, s1.len() + first_index(s2, x));
    }
    if s.contains(x) {
        let k = choose|k: int| 0 <= k < s.len() && s[k] == x;
        if k < s1.len() {
            assert(s1[k] == x);
        } else {
            assert(s2[k - s1.len()] == x);
        }
    }
    if s1.contains(x) {
        let k = choose|k: int| 0 <= k < s1.len() && s1[k] == x;
        assert(s[k] == x);
    }
    if s2.contains(x) {
        let k = choose|k: int| 0 <= k < s2.len() && s2[k] == x;
        assert(s[k + s1.len()] == x);
    }
}

/// Among the children of `q` listed last first, a child is preceded by each
/// sibling with a later clock.
#[verifier::rlimit(40)]
proof fn lemma_rc_sibling_order<T>(m: RgaModel<T>, q: Option<u128>, a: u128, b: u128)
    requires
        m.dom().finite(),
        m.contains_key(a),
        m.contains_key(b),
        m[a].2 == m[b].2,
        siblings_consistent(m, m[a].2),
        clock_lt(m[a].4, m[b].4),
        ordered_children(m, q).reverse().contains(a),
    ensures
        ordered_children(m, q).reverse().contains(b),
        first_index(ordered_children(m, q).reverse(), b) < first_index(ordered_children(m, q).reverse(), a),
{
    let c = ordered_children(m, q);
    let rc = c.reverse();
    lemma_ordered_children_are_children(m, q);
    let ka = choose|k: int| 0 <= k < rc.len() && rc[k] == a;
    assert(c[c.len() - 1 - ka] == a);
    assert(m[a].2 == q);
    assert(child_ids(m, q).contains(a));
    assert(child_ids(m, q).contains(b));
    lemma_children_clock_order(m, q, a, b);
    let kb = choose|k: int| 0 <= k < c.len() && c[k] == b;
    assert(rc[c.len() - 1 - kb] == b);
    lemma_first_index_props(rc, a);
    lemma_first_index_props(rc, b);
    let ia = first_index(rc, a);
    let ib = first_index(rc, b);
    assert(c[c.len() - 1 - ia] == a);
    assert(c[c.len() - 1 - ib] == b);
    assert(ib < ia) by {
        if ib >= ia {
            assert(ib != ia);
            assert(all_before(c, a, b));
        }
    }
}

/// In a walk below `q`, a listed element is preceded by each sibling with a
/// later clock, when the order of their siblings is consistent.
#[verifier::rlimit(60)]
proof fn lemma_walk_sibling_order<T>(m: RgaModel<T>, q: Option<u128>, f: nat, a: u128, b: u128)
    requires
        m.dom().finite(),
        m.contains_key(a),
        m.contains_key(b),
        m[a].2 == m[b].2,
        siblings_consistent(m, m[a].2),
        clock_lt(m[a].4, m[b].4),
        walk_below(m, q, f).contains(a),
    ensures
        walk_below(m, q, f).contains(b),
        first_index(walk_below(m, q, f), b) < first_index(walk_below(m, q, f), a),
    decreases f, 0nat,
{
    if f == 0 {
        assert(walk_below(m, q, f) =~= Seq::<u128>::empty());
        assert(false);
    }
    let c = ordered_children(m, q);
    let rc = c.reverse();
    let w = walk_children(m, c, (f - 1) as nat);
    assert(walk_below(m, q, f) == rc + w);
    lemma_first_index_concat(rc, w, a);
    lemma_first_index_concat(rc, w, b);
    lemma_ordered_children_are_children(m, q);
    if rc.contains(a) {
        lemma_rc_sibling_order(m, q, a, b);
        assert(rc.contains(b));
    } else {
        assert(w.contains(a));
        if rc.contains(b) {
            let kb = choose|k: int| 0 <= k < rc.len() && rc[k] == b;
            assert(c[c.len() - 1 - kb] == b);
            assert(m[b].2 == q);
            assert(child_ids(m, q).contains(a));
            lemma_children_clock_order(m, q, a, b);
            let ka = choose|k: int| 0 <= k < c.len() && c[k] == a;
            assert(rc[c.len() - 1 - ka] == a);
            assert(false);
        }
        lemma_walk_children_sibling_order(m, c, (f - 1) as nat, a, b);
    }
}

/// In the walks below the elements of `c`, a listed element is preceded by
/// each sibling with a later clock, when the order of their siblings is
/// consistent.
proof fn lemma_walk_children_sibling_order<T>(m: RgaModel<T>, c: Seq<u128>, f: nat, a: u128, b: u128)
    requires
        m.dom().finite(),
        m.contains_key(a),
        m.contains_key(b),
        m[a].2 == m[b].2,
        siblings_consistent(m, m[a].2),
        clock_lt(m[a].4, m[b].4),
        walk_children(m, c, f).contains(a),
    ensures
        walk_children(m, c, f).contains(b),
        first_index(walk_children(m, c, f), b) < first_index(walk_children(m, c, f), a),
    decreases f, c.len() + 1,
{
    if c.len() == 0 {
        assert(walk_children(m, c, f) =~= Seq::<u128>::empty());
        assert(false);
    } else {
        let w0 = walk_children(m, c.drop_last(), f);
        let wl = walk_below(m, Some(c.last()), f);
        assert(walk_children(m, c, f) == w0 + wl);
        lemma_first_index_concat(w0, wl, a);
        lemma_first_index_concat(w0, wl, b);
        lemma_first_index_props(w0, b);
        lemma_first_index_props(w0, a);
        if w0.contains(a) {
            lemma_walk_children_sibling_order(m, c.drop_last(), f, a, b);
            assert(w0.contains(b));
            assert(first_index(w0 + wl, b) == first_index(w0, b));
            assert(first_index(w0 + wl, a) == first_index(w0, a));
            assert(first_index(w0 + wl, b) < first_index(w0 + wl, a));
        } else {
            lemma_walk_sibling_order(m, Some(c.last()), f, a, b);
            assert(wl.contains(b));
            lemma_first_index_props(wl, a);
            lemma_first_index_props(wl, b);
            if w0.contains(b) {
                assert(first_index(w0 + wl, b) == first_index(w0, b));
                assert(first_index(w0, b) < w0.len());
                assert(first_index(w0 + wl, a) == w0.len() + first_index(wl, a));
            } else {
                assert(first_index(w0 + wl, b) == w0.len() + first_index(wl, b));
                assert(first_index(w0 + wl, a) == w0.len() + first_index(wl, a));
            }
            assert(first_index(w0 + wl, b) < first_index(w0 + wl, a));
        }
        assert(first_index(walk_children(m, c, f), b) == first_index(w0 + wl, b));
        assert(first_index(walk_children(m, c, f), a) == first_index(w0 + wl, a));
    }
}

/// Causal order among siblings: of two elements inserted after the same
/// element, with causally ordered clocks, the one with the later clock is
/// listed first, in the sequence and among the visible elements, when the
/// order of their siblings is consistent (always so when no two of them
/// have concurrent clocks, see `lemma_siblings_consistent_when_ordered`).
pub proof fn lemma_rga_later_sibling_first<T>(m: RgaModel<T>, a: u128, b: u128)
    requires
        m.dom().finite(),
        m.contains_key(a),
        m.contains_key(b),
        m[a].2 == m[b].2,
        siblings_consistent(m, m[a].2),
        clock_lt(m[a].4, m[b].4),
        rga_order(m).contains(a),
    ensures
        rga_order(m).contains(b),
        first_index(rga_order(m), b) < first_index(rga_order(m), a),
        !m[a].5 && !m[b].5 ==> visible_ids(m).contains(b) && visible_ids(m).contains(a) && first_index(
            visible_ids(m),
            b,
        ) < first_index(visible_ids(m), a),
{
    let o = rga_order(m);
    lemma_walk_sibling_order(m, None, m.dom().len(), a, b);
    if !m[a].5 && !m[b].5 {
        let pr = visible_pred(m);
        lemma_first_index_props(o, a);
        lemma_filter_keeps_first_order(o, pr, b, a);
        lemma_first_index_props(visible_ids(m), a);
        lemma_first_index_props(visible_ids(m), b);
    }
}

/// Causal order among siblings whose clocks are never concurrent: of two
/// elements inserted after the same element, the one with the later clock
/// is listed first, in the sequence and among the visible elements, when no
/// two elements inserted after that element have concurrent clocks.
pub proof fn lemma_rga_later_sibling_first_ordered_clocks<T>(m: RgaModel<T>, a: u128, b: u128)
    requires
        m.dom().finite(),
        m.contains_key(a),
        m.contains_key(b),
        m[a].2 == m[b].2,
        clock_lt(m[a].4, m[b].4),
        rga_order(m).contains(a),
        forall|x: u128, y: u128|
            #![trigger child_ids(m, m[a].2).contains(x), child_ids(m, m[a].2).contains(y)]
            child_ids(m, m[a].2).contains(x) && child_ids(m, m[a].2).contains(y) ==> clock_lt(m[x].4, m[y].4)
                || clock_lt(m[y].4, m[x].4) || m[x].4 == m[y].4,
    ensures
        rga_order(m).contains(b),
        first_index(rga_order(m), b) < first_index(rga_order(m), a),
        !m[a].5 && !m[b].5 ==> visible_ids(m).contains(b) && visible_ids(m).contains(a) && first_index(
            visible_ids(m),
            b,
        ) < first_index(visible_ids(m), a),
{
    lemma_siblings_consistent_when_ordered(m, m[a].2);
    lemma_rga_later_sibling_first(m, a, b);
}

/// When no two elements inserted after `p` have concurrent clocks, their
/// order is consistent.
pub proof fn lemma_siblings_consistent_when_ordered<T>(m: RgaModel<T>, p: Option<u128>)
    requires
        forall|x: u128, y: u128|
            #![trigger child_ids(m, p).contains(x), child_ids(m, p).contains(y)]
            child_ids(m, p).contains(x) && child_ids(m, p).contains(y) ==> clock_lt(m[x].4, m[y].4)
                || clock_lt(m[y].4, m[x].4) || m[x].4 == m[y].4,
    ensures
        siblings_consistent(m, p),
{
    assert forall|x: u128, y: u128, z: u128|
        child_ids(m, p).contains(x) && child_ids(m, p).contains(y) && child_ids(m, p).contains(z)
            && #[trigger] sibling_less(m, x, y) && #[trigger] sibling_less(m, y, z) implies sibling_less(
        m,
        x,
        z,
    ) by {
        lemma_clock_lt_asymmetric(m[x].4, m[y].4);
        lemma_clock_lt_asymmetric(m[y].4, m[z].4);
        lemma_clock_lt_asymmetric(m[x].4, m[z].4);
        lemma_clock_lt_irreflexive(m[x].4);
        if clock_lt(m[x].4, m[y].4) && clock_lt(m[y].4, m[z].4) {
            lemma_clock_lt_transitive(m[x].4, m[y].4, m[z].4);
        } else if clock_lt(m[x].4, m[y].4) {
            assert(m[y].4 == m[z].4);
        } else if clock_lt(m[y].4, m[z].4) {
            assert(m[x].4 == m[y].4);
        } else {
            assert(m[x].4 == m[y].4);
            assert(m[y].4 == m[z].4);
        }
    }
}

// ---------------------------------------------------------------------------
// Causal order
// ---------------------------------------------------------------------------

/// The ascending listing of a finite set holds exactly its elements.
#[verifier::rlimit(40)]
pub proof fn lemma_ascending_contains(s: Set<u128>)
    requires
        s.finite(),
    ensures
        forall|x: u128| ascending(s).contains(x) <==> s.contains(x),
    decreases s.len(),
{
    if s.len() > 0 {
        lemma_set_min(s);
        let m = set_min(s);
        let rest = s.remove(m);
        lemma_ascending_contains(rest);
        let t = ascending(rest);
        let a = ascending(s);
        assert(a == seq![m] + t);
        assert forall|x: u128| a.contains(x) implies s.contains(x) by {
            let i = choose|i: int| 0 <= i < a.len() && a[i] == x;
            if i > 0 {
                assert(t[i - 1] == x);
                assert(t.contains(x));
            }
        }
        assert forall|x: u128| s.contains(x) implies a.contains(x) by {
            if x == m {
                assert(a[0] == x);
            } else {
                assert(rest.contains(x));
                assert(t.contains(x));
                let i = choose|i: int| 0 <= i < t.len() && t[i] == x;
                assert(a[i + 1] == x);
            }
        }
    } else {
        assert(ascending(s) =~= Seq::<u128>::empty());
    }
}

/// Every element listed as a child of `p` is an element of the sequence
/// inserted directly after `p`.
pub proof fn lemma_ordered_children_are_children<T>(m: RgaModel<T>, p: Option<u128>)
    requires
        m.dom().finite(),
    ensures
        forall|i: int|
            0 <= i < ordered_children(m, p).len() ==> m.contains_key(#[trigger] ordered_children(m, p)[i])
                && m[ordered_children(m, p)[i]].2 == p,
{
    let c = child_ids(m, p);
    vstd::set_lib::lemma_set_subset_finite(m.dom(), c);
    lemma_ascending_contains(c);
    lemma_sibling_sort_elements(m, ascending(c));
    assert forall|i: int| 0 <= i < ordered_children(m, p).len() implies m.contains_key(
        #[trigger] ordered_children(m, p)[i],
    ) && m[ordered_children(m, p)[i]].2 == p by {
        let x = ordered_children(m, p)[i];
        assert(ordered_children(m, p).contains(x));
        assert(ascending(c).contains(x));
        assert(c.contains(x));
    }
}

/// In a walk below `q`, each element is a child of `q` or comes after its
/// predecessor.
pub proof fn lemma_walk_parent_first<T>(m: RgaModel<T>, q: Option<u128>, f: nat)
    requires
        m.dom().finite(),
    ensures
        forall|j: int|
            0 <= j < walk_below(m, q, f).len() ==> m.contains_key(#[trigger] walk_below(m, q, f)[j]) && (
            m[walk_below(m, q, f)[j]].2 == q || exists|i: int|
                0 <= i < j && Some(walk_below(m, q, f)[i]) == m[walk_below(m, q, f)[j]].2),
    decreases f, 0nat,
{
    if f > 0 {
        let c = ordered_children(m, q);
        let w = walk_below(m, q, f);
        let r = c.reverse();
        let wc = walk_children(m, c, (f - 1) as nat);
        lemma_ordered_children_are_children(m, q);
        lemma_walk_children_parent_first(m, c, (f - 1) as nat);
        assert(w == r + wc);
        assert forall|j: int| 0 <= j < w.len() implies m.contains_key(#[trigger] w[j]) && (m[w[j]].2 == q
            || exists|i: int| 0 <= i < j && Some(w[i]) == m[w[j]].2) by {
            if j < r.len() {
                assert(w[j] == c[c.len() - 1 - j]);
            } else {
                let jj = j - r.len();
                assert(w[j] == wc[jj]);
                if exists|k: int| 0 <= k < c.len() && m[wc[jj]].2 == Some(c[k]) {
                    let k = choose|k: int| 0 <= k < c.len() && m[wc[jj]].2 == Some(c[k]);
                    let i = c.len() - 1 - k;
                    assert(w[i] == c[k]);
                } else {
                    let i = choose|i: int| 0 <= i < jj && Some(wc[i]) == m[wc[jj]].2;
                    assert(w[i + r.len()] == wc[i]);
                }
            }
        }
    }
}

/// In the walks below the elements of `c`, each element is a child of one
/// of them or comes after its predecessor.
pub proof fn lemma_walk_children_parent_first<T>(m: RgaModel<T>, c: Seq<u128>, f: nat)
    requires
        m.dom().finite(),
    ensures
        forall|j: int|
            0 <= j < walk_children(m, c, f).len() ==> m.contains_key(#[trigger] walk_children(m, c, f)[j])
                && ((exists|k: int| 0 <= k < c.len() && m[walk_children(m, c, f)[j]].2 == Some(c[k]))
                || exists|i: int|
                0 <= i < j && Some(walk_children(m, c, f)[i]) == m[walk_children(m, c, f)[j]].2),
    decreases f, c.len() + 1,
{
    if c.len() > 0 {
        let a = walk_children(m, c.drop_last(), f);
        let b = walk_below(m, Some(c.last()), f);
        let w = walk_children(m, c, f);
        lemma_walk_children_parent_first(m, c.drop_last(), f);
        lemma_walk_parent_first(m, Some(c.last()), f);
        assert(w == a + b);
        assert forall|j: int| 0 <= j < w.len() implies m.contains_key(#[trigger] w[j]) && ((exists|k: int|
            0 <= k < c.len() && m[w[j]].2 == Some(c[k])) || exists|i: int|
            0 <= i < j && Some(w[i]) == m[w[j]].2) by {
            if j < a.len() {
                assert(w[j] == a[j]);
                if exists|k: int| 0 <= k < c.drop_last().len() && m[a[j]].2 == Some(c.drop_last()[k]) {
                    let k = choose|k: int| 0 <= k < c.drop_last().len() && m[a[j]].2 == Some(c.drop_last()[k]);
                    assert(c[k] == c.drop_last()[k]);
                } else {
                    let i = choose|i: int| 0 <= i < j && Some(a[i]) == m[a[j]].2;
                    assert(w[i] == a[i]);
                }
            } else {
                let jj = j - a.len();
                assert(w[j] == b[jj]);
                if m[b[jj]].2 == Some(c.last()) {
                    assert(c[c.len() - 1] == c.last());
                } else {
                    let i = choose|i: int| 0 <= i < jj && Some(b[i]) == m[b[jj]].2;
                    assert(w[i + a.len()] == b[i]);
                }
            }
        }
    }
}

/// Causal order: an element inserted after another is listed after it.
pub proof fn lemma_rga_predecessor_first<T>(m: RgaModel<T>, j: int)
    requires
        m.dom().finite(),
        0 <= j < rga_order(m).len(),
        m[rga_order(m)[j]].2 is Some,
    ensures
        exists|i: int| 0 <= i < j && rga_order(m)[i] == m[rga_order(m)[j]].2->0,
{
    lemma_walk_parent_first(m, None, m.dom().len());
    let w = rga_order(m);
    assert(m.contains_key(w[j]));
    let i = choose|i: int| 0 <= i < j && Some(w[i]) == m[w[j]].2;
    assert(w[i] == m[w[j]].2->0);
}


/// The first index of `x` in `s` lies in range, holds `x` when `x` occurs,
/// and no earlier index holds it.
pub proof fn lemma_first_index_props(s: Seq<u128>, x: u128)
    ensures
        0 <= first_index(s, x) <= s.len(),
        first_index(s, x) < s.len() <==> s.contains(x),
        first_index(s, x) < s.len() ==> s[first_index(s, x)] == x,
        forall|k: int| 0 <= k < first_index(s, x) ==> s[k] != x,
    decreases s.len(),
{
    if s.len() > 0 && s[0] != x {
        lemma_first_index_props(s.drop_first(), x);
        assert forall|k: int| 0 <= k < first_index(s, x) implies s[k] != x by {
            if k > 0 {
                assert(s[k] == s.drop_first()[k - 1]);
            }
        }
        if s.contains(x) {
            let k = choose|k: int| 0 <= k < s.len() && s[k] == x;
            assert(s.drop_first()[k - 1] == x);
        }
        if s.drop_first().contains(x) {
            let k = choose|k: int| 0 <= k < s.drop_first().len() && s.drop_first()[k] == x;
            assert(s[k + 1] == x);
        }
    } else if s.len() > 0 {
        assert(s.contains(x)) by {
            assert(s[0] == x);
        }
    }
}

/// Filtering keeps the order of first occurrences of kept elements.
pub proof fn lemma_filter_keeps_first_order(s: Seq<u128>, pr: spec_fn(u128) -> bool, a: u128, b: u128)
    requires
        pr(a),
        pr(b),
        first_index(s, a) < first_index(s, b),
        first_index(s, b) < s.len(),
    ensures
        first_index(s.filter(pr), a) < first_index(s.filter(pr), b),
        first_index(s.filter(pr), b) < s.filter(pr).len(),
    decreases s.len(),
{
    lemma_first_index_props(s, a);
    let h = s[0];
    let t = s.drop_first();
    assert(s =~= seq![h] + t);
    t.lemma_filter_prepend(h, pr);
    let ft = t.filter(pr);
    let fs = s.filter(pr);
    if h == a {
        assert(fs == seq![a] + ft);
        assert(fs[0] == a);
        lemma_first_index_props(t, b);
        assert(b != a);
        assert(t.contains(b));
        let k = first_index(t, b);
        t.lemma_filter_contains(pr, k);
        lemma_first_index_props(ft, b);
        assert(fs.drop_first() =~= ft);
    } else {
        assert(h != b);
        lemma_filter_keeps_first_order(t, pr, a, b);
        if pr(h) {
            assert(fs == seq![h] + ft);
            assert(fs.drop_first() =~= ft);
        } else {
            assert(fs =~= ft);
        }
    }
}

/// Causal order among visible elements: a visible element whose predecessor
/// is visible comes after it in the visible sequence.
pub proof fn lemma_rga_visible_predecessor_first<T>(m: RgaModel<T>, x: u128)
    requires
        m.dom().finite(),
        visible_ids(m).contains(x),
        m[x].2 is Some,
        visible_ids(m).contains(m[x].2->0),
    ensures
        visible_position(m, m[x].2->0) < visible_position(m, x),
{
    let o = rga_order(m);
    let p = m[x].2->0;
    let pr = visible_pred(m);
    o.lemma_filter_contains_rev(pr, x);
    lemma_first_index_props(o, x);
    let j = first_index(o, x);
    lemma_rga_predecessor_first(m, j);
    let i = choose|i: int| 0 <= i < j && o[i] == p;
    lemma_first_index_props(o, p);
    assert(first_index(o, p) <= i) by {
        if first_index(o, p) > i {
            assert(o[i] != p);
        }
    }
    let vi = choose|k: int| 0 <= k < visible_ids(m).len() && visible_ids(m)[k] == x;
    o.lemma_filter_pred(pr, vi);
    let vp = choose|k: int| 0 <= k < visible_ids(m).len() && visible_ids(m)[k] == p;
    o.lemma_filter_pred(pr, vp);
    lemma_filter_keeps_first_order(o, pr, p, x);
}

// ---------------------------------------------------------------------------
// The sequence
// ---------------------------------------------------------------------------

/// RGA (Replicated Growable Array) CRDT.
#[derive(Clone, Debug)]
pub struct Rga<T> {
    /// Map from element ID to element.
    elements: HashMap<u128, RgaElement<T>>,
}

impl<T> View for Rga<T> {
    type V = RgaModel<T>;

    closed spec fn view(&self) -> RgaModel<T> {
        self.elements@.map_values(|e: RgaElement<T>| e@)
    }
}

/// The sequence of IDs is strictly increasing after inserting `x` at the first
/// place whose entry is greater.
fn sort_ascending(v: &Vec<u128>) -> (r: Vec<u128>)
    ensures
        increasing(r@),
        r@.to_set() == v@.to_set(),
{
    let mut r: Vec<u128> = Vec::new();
    let mut i: usize = 0;
    while i < v.len()
        invariant
            i <= v.len(),
            increasing(r@),
            r@.to_set() == v@.take(i as int).to_set(),
        decreases v.len() - i,
    {
        let x = v[i];
        let mut j: usize = 0;
        while j < r.len() && r[j] < x
            invariant
                j <= r.len(),
                forall|k: int| 0 <= k < j ==> r@[k] < x,
            decreases r.len() - j,
        {
            j = j + 1;
        }
        let ghost before = r@;
        if j < r.len() && r[j] == x {
        } else {
            r.insert(j, x);
            assert(increasing(r@)) by {
                assert forall|a: int, b: int| 0 <= a < b < r@.len() implies r@[a] < r@[b] by {
                    if b < j {
                    } else if a < j && b == j {
                    } else if a < j {
                        assert(r@[b] == before[b - 1]);
                    } else if a == j {
                        assert(r@[b] == before[b - 1]);
                        assert(x < before[j as int]);
                        assert(before[j as int] <= before[b - 1]);
                    } else {
                        assert(r@[a] == before[a - 1]);
                        assert(r@[b] == before[b - 1]);
                    }
                }
            }
        }
        proof {
            assert(v@.take(i + 1) =~= v@.take(i as int).push(x));
            v@.take(i as int).lemma_push_to_set_commute(x);
            assert(r@.to_set() =~= before.to_set().insert(x)) by {
                assert forall|y: u128| #[trigger] r@.to_set().contains(y) == r@.contains(y) by {}
                assert forall|y: u128| #[trigger] before.to_set().contains(y) == before.contains(y) by {}
                assert forall|y: u128| r@.contains(y) <==> (before.contains(y) || y == x) by {
                    if r@.contains(y) {
                        let k = choose|k: int| 0 <= k < r@.len() && r@[k] == y;
                        if r@.len() != before.len() {
                            if k < j {
                                assert(before[k] == y);
                            } else if k > j {
                                assert(before[k - 1] == y);
                            }
                        } else {
                            assert(before[k] == y);
                        }
                    }
                    if before.contains(y) {
                        let k = choose|k: int| 0 <= k < before.len() && before[k] == y;
                        if r@.len() != before.len() {
                            if k < j {
                                assert(r@[k] == y);
                            } else {
                                assert(r@[k + 1] == y);
                            }
                        } else {
                            assert(r@[k] == y);
                        }
                    }
                    if y == x {
                        assert(r@[j as int] == x);
                    }
                }
                assert forall|y: u128| r@.to_set().contains(y) == before.to_set().insert(x).contains(y) by {
                    assert(r@.to_set().contains(y) == r@.contains(y));
                    assert(before.to_set().contains(y) == before.contains(y));
                }
            }
        }
        i = i + 1;
    }
    assert(v@.take(v.len() as int) =~= v@);
    r
}

impl<T: Clone> Rga<T> {
    /// Create a new empty RGA sequence.
    pub fn new() -> (s: Self)
        ensures
            s@ == Map::<u128, RgaItem<T>>::empty(),
    {
        Rga { elements: HashMap::new() }
    }

    /// The element with this ID, as the sequence holds it.
    proof fn lemma_view_get(&self, id: u128)
        requires
            self.elements@.contains_key(id),
        ensures
            self@.contains_key(id),
            self@[id] == self.elements@[id]@,
    {
    }

    /// The IDs of the elements inserted directly after `p`, ascending.
    fn children_of(&self, p: Option<u128>) -> (r: Vec<u128>)
        ensures
            r@ == ascending(child_ids(self@, p)),
            r@.to_set() == child_ids(self@, p),
    {
        let mut found: Vec<u128> = Vec::new();
        let ghost v = vstd::std_specs::hash::spec_hash_map_iter(&self.elements).remaining();
        let ghost mut visited: int = 0;
        for pair in it: self.elements.iter()
            invariant
                it.seq() == v,
                v == vstd::std_specs::hash::spec_hash_map_iter(&self.elements).remaining(),
                visited == it.index(),
                forall|id: u128|
                    found@.contains(id) <==> (child_ids(self@, p).contains(id) && exists|i: int|
                        0 <= i < visited && *v[i].0 == id),
        {
            let (id, e) = pair;
            proof {
                assert(pair == v[visited]);
                assert(self.elements@.contains_key(*v[visited].0) && self.elements@[*v[visited].0]
                    == *v[visited].1);
                self.lemma_view_get(*id);
            }
            let ghost before = found@;
            if e.after_id == p {
                found.push(*id);
            }
            proof {
                assert forall|k: u128|
                    found@.contains(k) <==> (child_ids(self@, p).contains(k) && exists|i: int|
                        0 <= i < visited + 1 && *v[i].0 == k) by {
                    if k == *id {
                        assert(*v[visited].0 == k);
                        assert(self@[k].2 == e.after_id);
                        assert(child_ids(self@, p).contains(k) == (e.after_id == p));
                        if e.after_id == p {
                            assert(found@[found@.len() - 1] == k);
                        } else {
                            assert(found@ == before);
                            if before.contains(k) {
                                assert(child_ids(self@, p).contains(k));
                            }
                        }
                    } else {
                        assert(found@.contains(k) == before.contains(k)) by {
                            if found@.contains(k) {
                                let j = choose|j: int| 0 <= j < found@.len() && found@[j] == k;
                                assert(before[j] == k);
                            }
                            if before.contains(k) {
                                let j = choose|j: int| 0 <= j < before.len() && before[j] == k;
                                assert(found@[j] == k);
                            }
                        }
                        if exists|i: int| 0 <= i < visited + 1 && *v[i].0 == k {
                            let i = choose|i: int| 0 <= i < visited + 1 && *v[i].0 == k;
                            assert(i < visited);
                        }
                    }
                }
                visited = visited + 1;
            }
        }
        proof {
            assert forall|id: u128| child_ids(self@, p).contains(id) implies found@.contains(id) by {
                lemma_iter_covers(&self.elements, id);
            }
            assert(found@.to_set() =~= child_ids(self@, p));
        }
        let r = sort_ascending(&found);
        proof {
            lemma_ascending_unique(r@);
        }
        r
    }

    /// Whether `a` comes before its sibling `b`.
    fn sibling_precedes(&self, a: u128, b: u128) -> (r: bool)
        requires
            self@.contains_key(a),
            self@.contains_key(b),
        ensures
            r == sibling_less(self@, a, b),
    {
        let ea = self.elements.get(&a).unwrap();
        let eb = self.elements.get(&b).unwrap();
        proof {
            self.lemma_view_get(a);
            self.lemma_view_get(b);
        }
        if ea.vector_clock.happened_before(&eb.vector_clock) {
            return true;
        }
        if eb.vector_clock.happened_before(&ea.vector_clock) {
            return false;
        }
        ea.inserting_node < eb.inserting_node || (ea.inserting_node == eb.inserting_node && a < b)
    }

    /// Insertion sort of siblings by `sibling_less`.
    fn sort_siblings(&self, s: &Vec<u128>) -> (r: Vec<u128>)
        requires
            forall|i: int| 0 <= i < s@.len() ==> self@.contains_key(#[trigger] s@[i]),
        ensures
            r@ == sibling_sort(self@, s@),
    {
        let mut r: Vec<u128> = Vec::new();
        let mut i: usize = 0;
        while i < s.len()
            invariant
                i <= s.len(),
                forall|k: int| 0 <= k < s@.len() ==> self@.contains_key(#[trigger] s@[k]),
                r@ == sibling_sort(self@, s@.take(i as int)),
            decreases s.len() - i,
        {
            let x = s[i];
            proof {
                lemma_sibling_sort_elements(self@, s@.take(i as int));
                assert forall|k: int| 0 <= k < r@.len() implies self@.contains_key(#[trigger] r@[k]) by {
                    assert(sibling_sort(self@, s@.take(i as int)).contains(r@[k]));
                    assert(s@.take(i as int).contains(r@[k]));
                    let q = choose|q: int| 0 <= q < i && s@.take(i as int)[q] == r@[k];
                    assert(s@[q] == r@[k]);
                }
            }
            let mut j: usize = 0;
            while j < r.len() && !self.sibling_precedes(x, r[j])
                invariant
                    j <= r.len(),
                    self@.contains_key(x),
                    forall|k: int| 0 <= k < r@.len() ==> self@.contains_key(#[trigger] r@[k]),
                    forall|k: int| 0 <= k < j ==> !sibling_less(self@, x, r@[k]),
                decreases r.len() - j,
            {
                j = j + 1;
            }
            proof {
                lemma_first_after(self@, r@, x, j as int);
                assert(s@.take(i + 1).drop_last() =~= s@.take(i as int));
            }
            r.insert(j, x);
            i = i + 1;
        }
        assert(s@.take(s.len() as int) =~= s@);
        r
    }

    /// The children of `p` in sequence order.
    fn ordered_children_of(&self, p: Option<u128>) -> (r: Vec<u128>)
        ensures
            r@ == ordered_children(self@, p),
    {
        let c = self.children_of(p);
        proof {
            assert forall|i: int| 0 <= i < c@.len() implies self@.contains_key(#[trigger] c@[i]) by {
                assert(c@.to_set().contains(c@[i]));
                assert(child_ids(self@, p).contains(c@[i]));
            }
        }
        self.sort_siblings(&c)
    }

    /// Appends the walk below `p`, at most `fuel` levels deep, to `out`.
    fn walk(&self, p: Option<u128>, fuel: usize, out: &mut Vec<u128>)
        ensures
            final(out)@ == old(out)@ + walk_below(self@, p, fuel as nat),
        decreases fuel,
    {
        if fuel == 0 {
            assert(walk_below(self@, p, 0) =~= Seq::<u128>::empty());
            assert(old(out)@ + Seq::<u128>::empty() =~= old(out)@);
            return;
        }
        let ghost start = out@;
        let c = self.ordered_children_of(p);
        let mut k: usize = c.len();
        while k > 0
            invariant
                k <= c.len(),
                out@ == start + c@.subrange(k as int, c@.len() as int).reverse(),
            decreases k,
        {
            k = k - 1;
            let ghost before = out@;
            out.push(c[k]);
            proof {
                assert(c@.subrange(k as int, c@.len() as int).reverse() =~= c@.subrange(
                    k + 1,
                    c@.len() as int,
                ).reverse().push(c@[k as int]));
                assert(out@ =~= start + c@.subrange(k as int, c@.len() as int).reverse());
            }
        }
        assert(c@.subrange(0, c@.len() as int) =~= c@);
        let ghost mid = out@;
        let mut i: usize = 0;
        while i < c.len()
            invariant
                i <= c.len(),
                fuel > 0,
                out@ == mid + walk_children(self@, c@.take(i as int), (fuel - 1) as nat),
            decreases c.len() - i,
        {
            let ghost before = out@;
            self.walk(Some(c[i]), fuel - 1, out);
            proof {
                lemma_walk_children_push(self@, c@, i as int, (fuel - 1) as nat);
                assert(out@ =~= mid + walk_children(self@, c@.take(i + 1), (fuel - 1) as nat));
            }
            i = i + 1;
        }
        assert(c@.take(c@.len() as int) =~= c@);
        assert(out@ =~= start + walk_below(self@, p, fuel as nat));
    }

    /// Every ID of the sequence in order, tombstones included.
    fn ordered_ids(&self) -> (r: Vec<u128>)
        ensures
            r@ == rga_order(self@),
    {
        let mut out: Vec<u128> = Vec::new();
        let n = self.elements.len();
        assert(self@.dom() =~= self.elements@.dom());
        self.walk(None, n, &mut out);
        assert(Seq::<u128>::empty() + walk_below(self@, None, n as nat) =~= walk_below(
            self@,
            None,
            n as nat,
        ));
        out
    }


    /// The IDs of the visible elements, in sequence order.
    fn visible_order(&self) -> (r: Vec<u128>)
        ensures
            r@ == visible_ids(self@),
    {
        let ordered = self.ordered_ids();
        let ghost pred = visible_pred(self@);
        let mut r: Vec<u128> = Vec::new();
        let mut i: usize = 0;
        while i < ordered.len()
            invariant
                i <= ordered.len(),
                pred == visible_pred(self@),
                r@ == ordered@.take(i as int).filter(pred),
            decreases ordered.len() - i,
        {
            let id = ordered[i];
            let ghost before = r@;
            match self.elements.get(&id) {
                Some(e) => {
                    proof {
                        self.lemma_view_get(id);
                    }
                    if !e.is_deleted {
                        r.push(id);
                    }
                },
                None => {},
            }
            proof {
                ordered@.take(i as int).lemma_filter_push(id, pred);
                assert(ordered@.take(i + 1) =~= ordered@.take(i as int).push(id));
            }
            i = i + 1;
        }
        assert(ordered@.take(ordered.len() as int) =~= ordered@);
        r
    }

    /// Index of an element among the visible ones (0 when it is not visible).
    fn calculate_position(&self, element_id: u128) -> (pos: usize)
        ensures
            pos == visible_position(self@, element_id),
    {
        let vis = self.visible_order();
        let mut i: usize = 0;
        while i < vis.len()
            invariant
                i <= vis.len(),
                vis@ == visible_ids(self@),
                forall|k: int| 0 <= k < i ==> vis@[k] != element_id,
            decreases vis.len() - i,
        {
            if vis[i] == element_id {
                proof {
                    lemma_first_index(vis@, element_id, i as int);
                }
                return i;
            }
            i = i + 1;
        }
        proof {
            if vis@.contains(element_id) {
                let k = choose|k: int| 0 <= k < vis@.len() && vis@[k] == element_id;
                assert(vis@[k] != element_id);
            }
        }
        0
    }

    /// Insert an element at the beginning of the sequence.
    ///
    /// Returns the new element's ID and its index in the visible sequence.
    pub fn insert_at_beginning(&mut self, value: T, node_id: NodeId) -> (r: (u128, usize))
        ensures
            final(self)@ == old(self)@.insert(
                r.0,
                new_item(r.0, value, None, node_id, map![node_id => 1u64]),
            ),
            r.1 == visible_position(final(self)@, r.0),
    {
        self.insert_after(None, value, node_id)
    }

    /// Insert an element after a specific element ID (`None`: at the
    /// beginning).
    ///
    /// Returns the new element's ID and its index in the visible sequence.
    pub fn insert_after(&mut self, after_id: Option<u128>, value: T, node_id: NodeId) -> (r: (
        u128,
        usize,
    ))
        ensures
            final(self)@ == old(self)@.insert(
                r.0,
                new_item(r.0, value, after_id, node_id, map![node_id => 1u64]),
            ),
            r.1 == visible_position(final(self)@, r.0),
    {
        let id = random_id();
        let mut clock = VectorClock::new();
        clock.increment(node_id);
        assert(clock@ =~= map![node_id => 1u64]);
        let pos = self.insert_with_clock(id, after_id, value, node_id, clock);
        (id, pos)
    }

    /// Insert an element with an explicit vector clock, as a remote operation
    /// delivers it.
    ///
    /// Returns the element's index in the visible sequence.
    pub fn insert_with_clock(
        &mut self,
        id: u128,
        after_id: Option<u128>,
        value: T,
        node_id: NodeId,
        vector_clock: VectorClock,
    ) -> (pos: usize)
        ensures
            final(self)@ == old(self)@.insert(
                id,
                new_item(id, value, after_id, node_id, vector_clock@),
            ),
            pos == visible_position(final(self)@, id),
    {
        let element = RgaElement {
            id,
            value,
            after_id,
            inserting_node: node_id,
            vector_clock,
            is_deleted: false,
        };
        self.elements.insert(id, element);
        assert(self@ =~= old(self)@.insert(id, new_item(id, value, after_id, node_id, vector_clock@)));
        self.calculate_position(id)
    }

    /// Delete an element by ID: it stays as a tombstone, hidden from the
    /// visible sequence. An unknown ID changes nothing.
    pub fn delete(&mut self, element_id: u128)
        ensures
            final(self)@ == if old(self)@.contains_key(element_id) {
                old(self)@.insert(element_id, tombstoned(old(self)@[element_id]))
            } else {
                old(self)@
            },
    {
        match self.elements.remove(&element_id) {
            Some(mut e) => {
                e.is_deleted = true;
                self.elements.insert(element_id, e);
                assert(self@ =~= old(self)@.insert(
                    element_id,
                    tombstoned(old(self)@[element_id]),
                ));
            },
            None => {
                assert(self@ =~= old(self)@);
            },
        }
    }

    /// The number of elements held, tombstones included.
    pub fn num_elements(&self) -> (n: usize)
        ensures
            n == self@.dom().len(),
    {
        assert(self@.dom() =~= self.elements@.dom());
        self.elements.len()
    }

    /// Whether an element is held, tombstone or not.
    pub fn contains_element(&self, element_id: u128) -> (r: bool)
        ensures
            r == self@.contains_key(element_id),
    {
        self.elements.contains_key(&element_id)
    }

    /// Whether an element is present and deleted.
    pub fn is_deleted(&self, element_id: u128) -> (r: bool)
        ensures
            r == (self@.contains_key(element_id) && self@[element_id].5),
    {
        match self.elements.get(&element_id) {
            Some(e) => e.is_deleted,
            None => false,
        }
    }

    /// The number of elements that are not deleted.
    pub fn len(&self) -> (n: usize)
        ensures
            n == live_ids(self@).len(),
    {
        let mut count: usize = 0;
        let ghost v = vstd::std_specs::hash::spec_keys_iter(&self.elements).remaining();
        let ghost mut seen: Set<u128> = Set::empty();
        let ghost mut visited: int = 0;
        proof {
            assert(self.elements.len() == self.elements@.len());
        }
        for k in it: self.elements.keys()
            invariant
                it.seq() == v,
                v == vstd::std_specs::hash::spec_keys_iter(&self.elements).remaining(),
                v.len() == self.elements@.dom().len(),
                v.no_duplicates(),
                v.unref().to_set() == self.elements@.dom(),
                self.elements@.len() <= usize::MAX,
                visited == it.index(),
                0 <= visited <= v.len(),
                seen.finite(),
                count == seen.len(),
                count <= visited,
                forall|id: u128|
                    seen.contains(id) <==> (live_ids(self@).contains(id) && exists|i: int|
                        0 <= i < visited && *v[i] == id),
        {
            proof {
                assert(*k == *v[visited]);
                assert(v.unref()[visited] == *v[visited]);
                assert(v.unref().to_set().contains(*k));
            }
            let e = self.elements.get(k).unwrap();
            proof {
                self.lemma_view_get(*k);
            }
            let ghost before = seen;
            if !e.is_deleted {
                proof {
                    if before.contains(*k) {
                        let i = choose|i: int| 0 <= i < visited && *v[i] == *k;
                        assert(v[i] == v[visited]);
                    }
                    seen = seen.insert(*k);
                }
                count = count + 1;
            }
            proof {
                assert forall|id: u128|
                    seen.contains(id) <==> (live_ids(self@).contains(id) && exists|i: int|
                        0 <= i < visited + 1 && *v[i] == id) by {
                    if id == *k {
                        assert(*v[visited] == id);
                    } else if exists|i: int| 0 <= i < visited + 1 && *v[i] == id {
                        let i = choose|i: int| 0 <= i < visited + 1 && *v[i] == id;
                        assert(i < visited);
                    }
                }
                visited = visited + 1;
            }
        }
        proof {
            assert forall|id: u128| live_ids(self@).contains(id) implies seen.contains(id) by {
                assert(v.unref().to_set().contains(id));
                let i = choose|i: int| 0 <= i < v.unref().len() && v.unref()[i] == id;
                assert(*v[i] == id);
            }
            assert(seen =~= live_ids(self@));
        }
        count
    }

    /// Whether no element is visible.
    pub fn is_empty(&self) -> (r: bool)
        ensures
            r == (live_ids(self@).len() == 0),
    {
        self.len() == 0
    }

    /// The visible values in sequence order.
    pub fn values(&self) -> (r: Vec<T>)
        requires
            faithful_clone::<T>(),
        ensures
            r@ == visible_values(self@),
    {
        let ids = self.visible_order();
        let mut r: Vec<T> = Vec::new();
        let mut i: usize = 0;
        while i < ids.len()
            invariant
                i <= ids.len(),
                faithful_clone::<T>(),
                ids@ == visible_ids(self@),
                r@ == ids@.take(i as int).map_values(|id: u128| self@[id].1),
            decreases ids.len() - i,
        {
            let id = ids[i];
            proof {
                rga_order(self@).lemma_filter_pred(visible_pred(self@), i as int);
            }
            let e = self.elements.get(&id).unwrap();
            proof {
                self.lemma_view_get(id);
            }
            let v = e.value.clone();
            proof {
                assert(cloned::<T>(e.value, v));
            }
            r.push(v);
            proof {
                assert(ids@.take(i + 1) =~= ids@.take(i as int).push(id));
                assert(r@ =~= ids@.take(i + 1).map_values(|id: u128| self@[id].1));
            }
            i = i + 1;
        }
        assert(ids@.take(ids.len() as int) =~= ids@);
        r
    }


    /// The visible elements with their IDs, in sequence order.
    pub fn elements_with_ids(&self) -> (r: Vec<(u128, T)>)
        requires
            faithful_clone::<T>(),
        ensures
            r@ == visible_ids(self@).map_values(|id: u128| (id, self@[id].1)),
    {
        let ids = self.visible_order();
        let mut r: Vec<(u128, T)> = Vec::new();
        let mut i: usize = 0;
        while i < ids.len()
            invariant
                i <= ids.len(),
                faithful_clone::<T>(),
                ids@ == visible_ids(self@),
                r@ == ids@.take(i as int).map_values(|id: u128| (id, self@[id].1)),
            decreases ids.len() - i,
        {
            let id = ids[i];
            proof {
                rga_order(self@).lemma_filter_pred(visible_pred(self@), i as int);
            }
            let e = self.elements.get(&id).unwrap();
            proof {
                self.lemma_view_get(id);
            }
            let v = e.value.clone();
            proof {
                assert(cloned::<T>(e.value, v));
            }
            r.push((id, v));
            proof {
                assert(ids@.take(i + 1) =~= ids@.take(i as int).push(id));
                assert(r@ =~= ids@.take(i + 1).map_values(|id: u128| (id, self@[id].1)));
            }
            i = i + 1;
        }
        assert(ids@.take(ids.len() as int) =~= ids@);
        r
    }

    /// Merge another sequence into this one: every element of `other` that
    /// this one lacks is added, and an element deleted in `other` is deleted
    /// here too.
    pub fn merge(&mut self, other: &Rga<T>)
        requires
            faithful_clone::<T>(),
        ensures
            final(self)@ == rga_join(old(self)@, other@),
    {
        let ghost start = self@;
        let ghost v = vstd::std_specs::hash::spec_hash_map_iter(&other.elements).remaining();
        let ghost mut seen: Set<u128> = Set::empty();
        let ghost mut visited: int = 0;
        for pair in it: other.elements.iter()
            invariant
                it.seq() == v,
                v == vstd::std_specs::hash::spec_hash_map_iter(&other.elements).remaining(),
                visited == it.index(),
                faithful_clone::<T>(),
                seen.subset_of(other@.dom()),
                forall|id: u128|
                    seen.contains(id) <==> exists|i: int| 0 <= i < visited && *v[i].0 == id,
                self@ == rga_join(start, other@.restrict(seen)),
        {
            let (id, e) = pair;
            proof {
                assert(pair == v[visited]);
                assert(other.elements@.contains_key(*v[visited].0) && other.elements@[*v[visited].0]
                    == *v[visited].1);
                other.lemma_view_get(*id);
            }
            let ghost before = self@;
            let ghost after_seen = seen.insert(*id);
            if self.elements.contains_key(id) {
                if e.is_deleted {
                    let mut existing = self.elements.remove(id).unwrap();
                    existing.is_deleted = true;
                    self.elements.insert(*id, existing);
                    proof {
                        assert(self@ =~= before.insert(*id, tombstoned(before[*id])));
                        lemma_join_step(start, other@, seen, *id, before);
                    }
                } else {
                    proof {
                        lemma_join_step(start, other@, seen, *id, before);
                    }
                }
            } else {
                let copy = e.duplicate();
                self.elements.insert(*id, copy);
                proof {
                    assert(self@ =~= before.insert(*id, other@[*id]));
                    lemma_join_step(start, other@, seen, *id, before);
                }
            }
            proof {
                assert forall|k: u128|
                    after_seen.contains(k) <==> exists|i: int| 0 <= i < visited + 1 && *v[i].0 == k by {
                    if k == *id {
                        assert(*v[visited].0 == k);
                    } else if exists|i: int| 0 <= i < visited + 1 && *v[i].0 == k {
                        let i = choose|i: int| 0 <= i < visited + 1 && *v[i].0 == k;
                        assert(i < visited);
                    }
                }
                seen = after_seen;
                visited = visited + 1;
            }
        }
        proof {
            assert forall|id: u128| other@.contains_key(id) implies seen.contains(id) by {
                assert(other.elements@.contains_key(id));
                lemma_iter_covers(&other.elements, id);
            }
            assert(other@.restrict(seen) =~= other@);
        }
    }

    /// Remove every element and tombstone.
    pub fn clear(&mut self)
        ensures
            final(self)@ == Map::<u128, RgaItem<T>>::empty(),
    {
        self.elements.clear();
        assert(self@ =~= Map::<u128, RgaItem<T>>::empty());
    }

    /// The IDs that some element was inserted directly after.
    fn referenced_ids(&self) -> (r: HashSet<u128>)
        ensures
            forall|id: u128| r@.contains(id) <==> is_referenced(self@, id),
    {
        let mut referenced: HashSet<u128> = HashSet::new();
        let ghost v = vstd::std_specs::hash::spec_hash_map_iter(&self.elements).remaining();
        let ghost mut visited: int = 0;
        for pair in it: self.elements.iter()
            invariant
                it.seq() == v,
                v == vstd::std_specs::hash::spec_hash_map_iter(&self.elements).remaining(),
                visited == it.index(),
                forall|x: u128|
                    referenced@.contains(x) <==> exists|i: int|
                        0 <= i < visited && (*v[i].1).after_id == Some(x),
        {
            let (id, e) = pair;
            proof {
                assert(pair == v[visited]);
            }
            let ghost before = referenced@;
            match e.after_id {
                Some(a) => {
                    referenced.insert(a);
                },
                None => {},
            }
            proof {
                assert forall|x: u128|
                    referenced@.contains(x) <==> exists|i: int|
                        0 <= i < visited + 1 && (*v[i].1).after_id == Some(x) by {
                    if (*v[visited].1).after_id == Some(x) {
                    } else if exists|i: int| 0 <= i < visited + 1 && (*v[i].1).after_id == Some(x) {
                        let i = choose|i: int| 0 <= i < visited + 1 && (*v[i].1).after_id == Some(x);
                        assert(i < visited);
                    }
                }
                visited = visited + 1;
            }
        }
        proof {
            assert forall|x: u128| referenced@.contains(x) <==> is_referenced(self@, x) by {
                if referenced@.contains(x) {
                    let i = choose|i: int| 0 <= i < v.len() && (*v[i].1).after_id == Some(x);
                    assert(self.elements@.contains_key(*v[i].0) && self.elements@[*v[i].0] == *v[i].1);
                    self.lemma_view_get(*v[i].0);
                    assert(self@.contains_key(*v[i].0) && self@[*v[i].0].2 == Some(x));
                }
                if is_referenced(self@, x) {
                    let j = choose|j: u128| self@.contains_key(j) && self@[j].2 == Some(x);
                    assert(self.elements@.contains_key(j));
                    lemma_iter_covers(&self.elements, j);
                    let i = choose|i: int| 0 <= i < v.len() && *v[i].0 == j;
                    assert(self.elements@[*v[i].0] == *v[i].1);
                    self.lemma_view_get(j);
                }
            }
        }
        referenced
    }

    /// Remove the tombstones that no element was inserted directly after;
    /// the sequence reads the same without them.
    pub fn garbage_collect(&mut self)
        ensures
            final(self)@ == rga_collected(old(self)@),
    {
        let referenced = self.referenced_ids();
        let mut doomed: Vec<u128> = Vec::new();
        let ghost m = self@;
        let ghost v = vstd::std_specs::hash::spec_hash_map_iter(&self.elements).remaining();
        let ghost mut visited: int = 0;
        for pair in it: self.elements.iter()
            invariant
                it.seq() == v,
                v == vstd::std_specs::hash::spec_hash_map_iter(&self.elements).remaining(),
                visited == it.index(),
                m == self@,
                forall|x: u128| referenced@.contains(x) <==> is_referenced(m, x),
                forall|x: u128|
                    doomed@.contains(x) <==> (m.contains_key(x) && m[x].5 && !is_referenced(m, x)
                        && exists|i: int| 0 <= i < visited && *v[i].0 == x),
        {
            let (id, e) = pair;
            proof {
                assert(pair == v[visited]);
                assert(self.elements@.contains_key(*v[visited].0) && self.elements@[*v[visited].0]
                    == *v[visited].1);
                self.lemma_view_get(*id);
            }
            let ghost before = doomed@;
            if e.is_deleted && !referenced.contains(id) {
                doomed.push(*id);
            }
            proof {
                assert forall|x: u128|
                    doomed@.contains(x) <==> (m.contains_key(x) && m[x].5 && !is_referenced(m, x)
                        && exists|i: int| 0 <= i < visited + 1 && *v[i].0 == x) by {
                    assert(doomed@.contains(x) <==> (before.contains(x) || (x == *id && e.is_deleted
                        && !referenced@.contains(x)))) by {
                        if doomed@.contains(x) && doomed@.len() > before.len() {
                            let j = choose|j: int| 0 <= j < doomed@.len() && doomed@[j] == x;
                            if j < before.len() {
                                assert(before[j] == x);
                            }
                        }
                        if doomed@.contains(x) && doomed@.len() == before.len() {
                            assert(doomed@ == before);
                        }
                        if before.contains(x) {
                            let j = choose|j: int| 0 <= j < before.len() && before[j] == x;
                            assert(doomed@[j] == x);
                        }
                        if x == *id && e.is_deleted && !referenced@.contains(x) {
                            assert(doomed@[doomed@.len() - 1] == x);
                        }
                    }
                    if x == *id {
                        assert(*v[visited].0 == x);
                    } else if exists|i: int| 0 <= i < visited + 1 && *v[i].0 == x {
                        let i = choose|i: int| 0 <= i < visited + 1 && *v[i].0 == x;
                        assert(i < visited);
                    }
                }
                visited = visited + 1;
            }
        }
        proof {
            assert(self.elements@.dom() =~= m.dom());
            assert forall|x: u128|
                m.contains_key(x) && m[x].5 && !is_referenced(m, x) implies doomed@.contains(x) by {
                lemma_iter_covers(&self.elements, x);
            }
        }
        let mut j: usize = 0;
        while j < doomed.len()
            invariant
                j <= doomed.len(),
                self@ == m.remove_keys(doomed@.take(j as int).to_set()),
            decreases doomed.len() - j,
        {
            let k = doomed[j];
            let ghost before = self@;
            self.elements.remove(&k);
            proof {
                assert(self@ =~= before.remove(k));
                assert(doomed@.take(j + 1) =~= doomed@.take(j as int).push(k));
                doomed@.take(j as int).lemma_push_to_set_commute(k);
                assert(m.remove_keys(doomed@.take(j as int).to_set().insert(k)) =~= m.remove_keys(
                    doomed@.take(j as int).to_set(),
                ).remove(k));
            }
            j = j + 1;
        }
        proof {
            assert(doomed@.take(doomed.len() as int) =~= doomed@);
            assert(m.remove_keys(doomed@.to_set()) =~= rga_collected(m));
        }
    }

}

impl<T: Clone> Default for Rga<T> {
    fn default() -> (s: Self)
        ensures
            s@ == Map::<u128, RgaItem<T>>::empty(),
    {
        Rga::new()
    }
}

} // verus!
