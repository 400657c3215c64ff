//! OR-Set (observed-remove set): a replicated set with add-wins semantics.
//!
//! Each add is tagged with a unique operation ID. A remove names the IDs it
//! observed; those IDs become tombstones. A value is present while one of its
//! IDs is not tombstoned, so a concurrent add (with a fresh ID) wins over a
//! remove.

use std::collections::{HashMap, HashSet};
use vstd::prelude::*;
use vstd::std_specs::iter::IteratorSpec;

use crate::ids::{random_id, NodeId};
use crate::networking::vector_clock::lemma_iter_covers;

verus! {

broadcast use {vstd::std_specs::hash::group_hash_axioms, vstd::seq_lib::group_seq_properties};

/// The abstract state of an OR-Set: the adds by operation ID (value and adding
/// node) and the tombstoned operation IDs.
pub type OrSetModel<T> = (Map<u128, (T, NodeId)>, Set<u128>);

/// Cloning a `T` yields an equal value.
pub open spec fn faithful_clone<T: Clone>() -> bool {
    forall|a: T, b: T| #[trigger] cloned::<T>(a, b) ==> a == b
}

/// Equality on `T` is spec equality, and cloning a `T` yields an equal value.
pub open spec fn value_semantics<T: Clone + PartialEq>() -> bool {
    &&& vstd::laws_eq::obeys_concrete_eq::<T>()
    &&& faithful_clone::<T>()
}

/// The add with this ID exists and is not tombstoned.
pub open spec fn live<T>(s: OrSetModel<T>, id: u128) -> bool {
    s.0.contains_key(id) && !s.1.contains(id)
}

/// `x` is in the set: some live add carries it.
pub open spec fn present<T>(s: OrSetModel<T>, x: T) -> bool {
    exists|id: u128| live(s, id) && #[trigger] s.0[id].0 == x
}

/// The distinct values present in the set.
pub open spec fn present_values<T>(s: OrSetModel<T>) -> Set<T> {
    Set::new(|x: T| present(s, x))
}

/// The CRDT merge: the union of the adds (an ID already known keeps its entry)
/// and the union of the tombstones.
pub open spec fn orset_join<T>(a: OrSetModel<T>, b: OrSetModel<T>) -> OrSetModel<T> {
    (b.0.union_prefer_right(a.0), a.1.union(b.1))
}

/// Two states agree on every operation ID that both know.
pub open spec fn adds_agree<T>(a: OrSetModel<T>, b: OrSetModel<T>) -> bool {
    forall|id: u128| a.0.contains_key(id) && b.0.contains_key(id) ==> a.0[id] == b.0[id]
}

/// The state after dropping the adds whose IDs are tombstoned.
pub open spec fn orset_collected<T>(s: OrSetModel<T>) -> OrSetModel<T> {
    (Map::new(|id: u128| s.0.contains_key(id) && !s.1.contains(id), |id: u128| s.0[id]), s.1)
}

/// OR-Set (Observed-Remove Set) CRDT.
#[derive(Debug)]
pub struct OrSet<T> {
    /// Map from operation ID to (value, adding node).
    elements: HashMap<u128, (T, NodeId)>,
    /// Set of removed operation IDs.
    tombstones: HashSet<u128>,
}

impl<T> View for OrSet<T> {
    type V = OrSetModel<T>;

    closed spec fn view(&self) -> OrSetModel<T> {
        (self.elements@, self.tombstones@)
    }
}

impl<T: Clone + PartialEq> OrSet<T> {
    /// Create a new empty OR-Set.
    pub fn new() -> (s: Self)
        ensures
            s@.0 == Map::<u128, (T, NodeId)>::empty(),
            s@.1 == Set::<u128>::empty(),
    {
        OrSet { elements: HashMap::new(), tombstones: HashSet::new() }
    }

    /// Add an element under the operation ID `operation_id`, which no add of
    /// the set carries and no remove names; returns whether the value was
    /// absent before. The value is present afterwards, its live operation IDs
    /// gain exactly the new one, and no other value changes.
    pub fn add_with_id(&mut self, operation_id: u128, value: T, node_id: NodeId) -> (was_new: bool)
        requires
            value_semantics::<T>(),
            !old(self)@.0.contains_key(operation_id),
            !old(self)@.1.contains(operation_id),
        ensures
            was_new == !present(old(self)@, value),
            final(self)@.0 == old(self)@.0.insert(operation_id, (value, node_id)),
            final(self)@.1 == old(self)@.1,
            present(final(self)@, value),
            forall|id: u128|
                (live(final(self)@, id) && #[trigger] final(self)@.0[id].0 == value) <==> (id == operation_id
                    || (live(old(self)@, id) && old(self)@.0[id].0 == value)),
            forall|x: T| x != value ==> (#[trigger] present(final(self)@, x) == present(old(self)@, x)),
            present_values(final(self)@) == present_values(old(self)@).insert(value),
            present_values(old(self)@).finite() ==> present_values(final(self)@).len() == present_values(
                old(self)@,
            ).len() + (if was_new {
                1int
            } else {
                0int
            }),
    {
        let was_new = !self.contains(&value);
        self.elements.insert(operation_id, (value, node_id));
        proof {
            let s0 = old(self)@;
            let s1 = self@;
            assert(live(s1, operation_id) && s1.0[operation_id].0 == value);
            assert forall|x: T| x != value implies (#[trigger] present(s1, x) == present(s0, x)) by {
                if present(s1, x) {
                    let id = choose|id: u128| live(s1, id) && #[trigger] s1.0[id].0 == x;
                    assert(id != operation_id);
                    assert(live(s0, id) && s0.0[id].0 == x);
                }
                if present(s0, x) {
                    let id = choose|id: u128| live(s0, id) && #[trigger] s0.0[id].0 == x;
                    assert(id != operation_id);
                    assert(live(s1, id) && s1.0[id].0 == x);
                }
            }
            assert(present_values(s1) =~= present_values(s0).insert(value)) by {
                assert forall|x: T| present_values(s1).contains(x) == present_values(s0).insert(value).contains(
                    x,
                ) by {
                    if x != value {
                        assert(present(s1, x) == present(s0, x));
                    }
                }
            }
        }
        was_new
    }

    /// Add an element under a freshly drawn operation ID; returns the ID and
    /// whether the value was absent before. When the drawn ID is fresh (no
    /// add carries it and no remove names it), everything that
    /// `add_with_id` states holds of it.
    pub fn add(&mut self, value: T, node_id: NodeId) -> (r: (u128, bool))
        requires
            value_semantics::<T>(),
        ensures
            r.1 == !present(old(self)@, value),
            final(self)@.0 == old(self)@.0.insert(r.0, (value, node_id)),
            final(self)@.1 == old(self)@.1,
            !old(self)@.0.contains_key(r.0) && !old(self)@.1.contains(r.0) ==> {
                &&& present(final(self)@, value)
                &&& forall|id: u128|
                    (live(final(self)@, id) && #[trigger] final(self)@.0[id].0 == value) <==> (id == r.0 || (
                    live(old(self)@, id) && old(self)@.0[id].0 == value))
                &&& forall|x: T| x != value ==> (#[trigger] present(final(self)@, x) == present(old(self)@, x))
                &&& present_values(final(self)@) == present_values(old(self)@).insert(value)
                &&& present_values(old(self)@).finite() ==> present_values(final(self)@).len()
                    == present_values(old(self)@).len() + (if r.1 {
                    1int
                } else {
                    0int
                })
            },
    {
        let operation_id = random_id();
        if !self.elements.contains_key(&operation_id) && !self.tombstones.contains(&operation_id) {
            let was_new = self.add_with_id(operation_id, value, node_id);
            (operation_id, was_new)
        } else {
            let was_new = !self.contains(&value);
            self.elements.insert(operation_id, (value, node_id));
            (operation_id, was_new)
        }
    }

    /// Remove the adds with the given operation IDs (observed remove).
    pub fn remove(&mut self, operation_ids: Vec<u128>)
        ensures
            final(self)@.0 == old(self)@.0,
            final(self)@.1 == old(self)@.1.union(operation_ids@.to_set()),
    {
        let ghost start = self@.1;
        let mut i: usize = 0;
        while i < operation_ids.len()
            invariant
                i <= operation_ids.len(),
                self@.0 == old(self)@.0,
                self@.1 == start.union(operation_ids@.take(i as int).to_set()),
            decreases operation_ids.len() - i,
        {
            self.tombstones.insert(operation_ids[i]);
            proof {
                assert(operation_ids@.take(i + 1) == operation_ids@.take(i as int).push(
                    operation_ids@[i as int],
                ));
                operation_ids@.take(i as int).lemma_push_to_set_commute(operation_ids@[i as int]);
            }
            i = i + 1;
        }
        assert(operation_ids@.take(i as int) == operation_ids@);
    }

    /// Whether a value is present: it has an add that is not tombstoned.
    pub fn contains(&self, value: &T) -> (r: bool)
        requires
            value_semantics::<T>(),
        ensures
            r == present(self@, *value),
    {
        proof {
            reveal(vstd::laws_eq::obeys_concrete_eq);
        }
        let ghost v = vstd::std_specs::hash::spec_hash_map_iter(&self.elements).remaining();
        let ghost mut visited: int = 0;
        for pair in it: self.elements.iter()
            invariant
                value_semantics::<T>(),
                it.seq() == v,
                v == vstd::std_specs::hash::spec_hash_map_iter(&self.elements).remaining(),
                visited == it.index(),
                forall|i: int|
                    0 <= i < visited ==> !(live(self@, *#[trigger] v[i].0) && self@.0[*v[i].0].0
                        == *value),
        {
            let (id, entry) = pair;
            proof {
                reveal(vstd::laws_eq::obeys_concrete_eq);
                assert(pair == v[visited]);
                assert(self@.0.contains_key(*v[visited].0) && self@.0[*v[visited].0]
                    == *v[visited].1);
            }
            if entry.0 == *value && !self.tombstones.contains(id) {
                return true;
            }
            proof {
                visited = visited + 1;
            }
        }
        proof {
            if present(self@, *value) {
                let id = choose|id: u128| live(self@, id) && #[trigger] self@.0[id].0 == *value;
                lemma_iter_covers(&self.elements, id);
                let i = choose|i: int| 0 <= i < v.len() && *v[i].0 == id;
                assert(!(live(self@, *v[i].0) && self@.0[*v[i].0].0 == *value));
            }
        }
        false
    }

    /// Whether `x` occurs in `items`.
    fn vec_contains(items: &Vec<T>, x: &T) -> (r: bool)
        requires
            value_semantics::<T>(),
        ensures
            r == items@.contains(*x),
    {
        proof {
            reveal(vstd::laws_eq::obeys_concrete_eq);
        }
        let mut i: usize = 0;
        while i < items.len()
            invariant
                value_semantics::<T>(),
                i <= items.len(),
                forall|j: int| 0 <= j < i ==> items@[j] != *x,
            decreases items.len() - i,
        {
            proof {
                reveal(vstd::laws_eq::obeys_concrete_eq);
            }
            if items[i] == *x {
                return true;
            }
            i = i + 1;
        }
        false
    }

    /// All present values, one per live add (a value added twice under two
    /// live IDs is listed twice), in no particular order.
    pub fn values(&self) -> (r: Vec<T>)
        requires
            value_semantics::<T>(),
        ensures
            exists|ids: Seq<u128>|
                {
                    &&& ids.no_duplicates()
                    &&& forall|id: u128| ids.contains(id) <==> live(self@, id)
                    &&& r@.len() == ids.len()
                    &&& forall|i: int| 0 <= i < ids.len() ==> r@[i] == self@.0[#[trigger] ids[i]].0
                },
    {
        let r = self.live_entries(None);
        r.0
    }

    /// Operation IDs of the live adds that carry `value`, in no particular
    /// order; removing all of them removes the value.
    pub fn get_operation_ids(&self, value: &T) -> (r: Vec<u128>)
        requires
            value_semantics::<T>(),
        ensures
            r@.no_duplicates(),
            forall|id: u128| r@.contains(id) <==> (live(self@, id) && self@.0[id].0 == *value),
    {
        let r = self.live_entries(Some(value));
        r.1
    }

    /// The live adds (restricted to those carrying `only` when given): their
    /// values and their IDs, in the same order.
    fn live_entries(&self, only: Option<&T>) -> (r: (Vec<T>, Vec<u128>))
        requires
            value_semantics::<T>(),
        ensures
            r.1@.no_duplicates(),
            forall|id: u128|
                r.1@.contains(id) <==> (live(self@, id) && (only matches Some(x) ==> self@.0[id].0
                    == *x)),
            r.0@.len() == r.1@.len(),
            forall|i: int| 0 <= i < r.1@.len() ==> r.0@[i] == self@.0[#[trigger] r.1@[i]].0,
    {
        proof {
            reveal(vstd::laws_eq::obeys_concrete_eq);
        }
        let mut vals: Vec<T> = Vec::new();
        let mut ids: Vec<u128> = Vec::new();
        let ghost v = vstd::std_specs::hash::spec_hash_map_iter(&self.elements).remaining();
        let ghost mut visited: int = 0;
        for pair in it: self.elements.iter()
            invariant
                value_semantics::<T>(),
                it.seq() == v,
                v == vstd::std_specs::hash::spec_hash_map_iter(&self.elements).remaining(),
                v.no_duplicates(),
                visited == it.index(),
                ids@.no_duplicates(),
                forall|id: u128|
                    ids@.contains(id) <==> (live(self@, id) && (only matches Some(x) ==> self@.0[id].0
                        == *x) && exists|i: int| 0 <= i < visited && *v[i].0 == id),
                vals@.len() == ids@.len(),
                forall|i: int| 0 <= i < ids@.len() ==> vals@[i] == self@.0[#[trigger] ids@[i]].0,
        {
            let (id, entry) = pair;
            proof {
                reveal(vstd::laws_eq::obeys_concrete_eq);
                assert(pair == v[visited]);
                assert(self@.0.contains_key(*v[visited].0) && self@.0[*v[visited].0]
                    == *v[visited].1);
                assert forall|i: int| 0 <= i < visited implies *v[i].0 != *id by {
                    if *v[i].0 == *id {
                        assert(self@.0[*v[i].0] == *v[i].1);
                        assert(v[i] == v[visited]);
                    }
                }
            }
            let wanted = match only {
                Some(x) => entry.0 == *x,
                None => true,
            };
            let ghost ids_before = ids@;
            proof {
                if ids@.contains(*id) {
                    let i = choose|i: int| 0 <= i < visited && *v[i].0 == *id;
                }
            }
            if wanted && !self.tombstones.contains(id) {
                let c = entry.0.clone();
                assert(cloned::<T>(entry.0, c));
                vals.push(c);
                ids.push(*id);
            }
            proof {
                assert forall|k: u128|
                    ids@.contains(k) <==> (live(self@, k) && (only matches Some(x) ==> self@.0[k].0
                        == *x) && exists|i: int| 0 <= i < visited + 1 && *v[i].0 == k) by {
                    if k == *id {
                        assert(*v[visited].0 == k);
                    } else {
                        assert(ids@.contains(k) == ids_before.contains(k));
                        if exists|i: int| 0 <= i < visited + 1 && *v[i].0 == k {
                            let i = choose|i: int| 0 <= i < visited + 1 && *v[i].0 == k;
                            assert(i < visited);
                        }
                    }
                }
                visited = visited + 1;
            }
        }
        proof {
            assert forall|id: u128|
                live(self@, id) && (only matches Some(x) ==> self@.0[id].0 == *x) implies ids@.contains(
                id,
            ) by {
                lemma_iter_covers(&self.elements, id);
            }
        }
        (vals, ids)
    }

    /// Number of distinct values present.
    pub fn len(&self) -> (n: usize)
        requires
            value_semantics::<T>(),
        ensures
            present_values(self@).finite(),
            n == present_values(self@).len(),
    {
        let (vals, ids) = self.live_entries(None);
        let mut seen: Vec<T> = Vec::new();
        let mut i: usize = 0;
        while i < vals.len()
            invariant
                value_semantics::<T>(),
                i <= vals.len(),
                vals@.len() == ids@.len(),
                forall|j: int| 0 <= j < ids@.len() ==> vals@[j] == self@.0[#[trigger] ids@[j]].0,
                forall|id: u128| ids@.contains(id) <==> live(self@, id),
                seen@.no_duplicates(),
                forall|x: T| seen@.contains(x) <==> exists|j: int| 0 <= j < i && vals@[j] == x,
            decreases vals.len() - i,
        {
            let ghost seen_before = seen@;
            if !Self::vec_contains(&seen, &vals[i]) {
                let c = vals[i].clone();
                assert(cloned::<T>(vals@[i as int], c));
                seen.push(c);
            }
            proof {
                assert forall|x: T| seen@.contains(x) <==> exists|j: int|
                    0 <= j < i + 1 && vals@[j] == x by {
                    if x == vals@[i as int] {
                        assert(seen@.contains(x));
                    } else {
                        assert(seen@.contains(x) == seen_before.contains(x));
                        if exists|j: int| 0 <= j < i + 1 && vals@[j] == x {
                            let j = choose|j: int| 0 <= j < i + 1 && vals@[j] == x;
                            assert(j < i);
                        }
                    }
                }
            }
            i = i + 1;
        }
        proof {
            assert forall|x: T| seen@.contains(x) <==> present(self@, x) by {
                if seen@.contains(x) {
                    let j = choose|j: int| 0 <= j < i && vals@[j] == x;
                    assert(ids@.contains(ids@[j]));
                    assert(live(self@, ids@[j]) && self@.0[ids@[j]].0 == x);
                }
                if present(self@, x) {
                    let id = choose|id: u128| live(self@, id) && #[trigger] self@.0[id].0 == x;
                    assert(ids@.contains(id));
                    let j = choose|j: int| 0 <= j < ids@.len() && ids@[j] == id;
                    assert(vals@[j] == x);
                }
            }
            assert(seen@.to_set() =~= present_values(self@));
            seen@.unique_seq_to_set();
        }
        seen.len()
    }

    /// Whether no value is present.
    pub fn is_empty(&self) -> (r: bool)
        requires
            value_semantics::<T>(),
        ensures
            r == (present_values(self@).len() == 0),
            r == (forall|x: T| !present(self@, x)),
    {
        let n = self.len();
        proof {
            if n == 0 {
                assert forall|x: T| !present(self@, x) by {
                    if present(self@, x) {
                        assert(present_values(self@).contains(x));
                    }
                }
            } else {
                let x = present_values(self@).choose();
                assert(present_values(self@).contains(x));
            }
        }
        n == 0
    }

    /// Merge another OR-Set into this one: union of adds (an ID already known
    /// here keeps its entry) and union of tombstones.
    pub fn merge(&mut self, other: &OrSet<T>)
        requires
            value_semantics::<T>(),
        ensures
            final(self)@ == orset_join(old(self)@, other@),
    {
        let ghost start = self@;
        let ghost v = vstd::std_specs::hash::spec_hash_map_iter(&other.elements).remaining();
        let ghost mut visited: int = 0;
        let ghost mut seen: Set<u128> = Set::empty();
        for pair in it: other.elements.iter()
            invariant
                value_semantics::<T>(),
                it.seq() == v,
                v == vstd::std_specs::hash::spec_hash_map_iter(&other.elements).remaining(),
                visited == it.index(),
                forall|i: int| 0 <= i < visited ==> seen.contains(*#[trigger] v[i].0),
                forall|id: u128| seen.contains(id) ==> other@.0.contains_key(id),
                self@.1 == start.1,
                forall|id: u128|
                    #![trigger self@.0.contains_key(id)]
                    self@.0.contains_key(id) <==> (start.0.contains_key(id) || seen.contains(id)),
                forall|id: u128|
                    #![trigger self@.0[id]]
                    start.0.contains_key(id) ==> self@.0[id] == start.0[id],
                forall|id: u128|
                    #![trigger self@.0[id]]
                    !start.0.contains_key(id) && seen.contains(id) ==> self@.0[id] == other@.0[id],
        {
            let (id, entry) = pair;
            proof {
                assert(pair == v[visited]);
                assert(other@.0.contains_key(*v[visited].0) && other@.0[*v[visited].0]
                    == *v[visited].1);
            }
            let ghost before = self@.0;
            if !self.elements.contains_key(id) {
                let c = entry.0.clone();
                assert(cloned::<T>(entry.0, c));
                self.elements.insert(*id, (c, entry.1));
            }
            proof {
                assert forall|k: u128| k != *id implies #[trigger] self@.0.contains_key(k)
                    == before.contains_key(k) && (before.contains_key(k) ==> self@.0[k] == before[k]) by {}
                seen = seen.insert(*id);
                visited = visited + 1;
            }
        }
        proof {
            assert forall|id: u128| other@.0.contains_key(id) implies seen.contains(id) by {
                lemma_iter_covers(&other.elements, id);
                let i = choose|i: int| 0 <= i < v.len() && *v[i].0 == id;
                assert(seen.contains(*v[i].0));
            }
            assert(self@.0 =~= other@.0.union_prefer_right(start.0));
        }
        let ghost w = vstd::std_specs::hash::spec_hash_keys_iter(&other.tombstones).remaining();
        let ghost mut done: int = 0;
        let ghost mut added: Set<u128> = Set::empty();
        for id in jt: other.tombstones.iter()
            invariant
                jt.seq() == w,
                w == vstd::std_specs::hash::spec_hash_keys_iter(&other.tombstones).remaining(),
                done == jt.index(),
                forall|i: int| 0 <= i < done ==> added.contains(*#[trigger] w[i]),
                added.subset_of(other@.1),
                self@.0 == other@.0.union_prefer_right(start.0),
                self@.1 == start.1.union(added),
        {
            proof {
                assert(w.unref().to_set().contains(*w[done]));
            }
            self.tombstones.insert(*id);
            proof {
                added = added.insert(*id);
                done = done + 1;
            }
        }
        proof {
            assert forall|id: u128| other@.1.contains(id) implies added.contains(id) by {
                assert(w.unref().to_set().contains(id));
                let i = choose|i: int| 0 <= i < w.unref().len() && w.unref()[i] == id;
                assert(added.contains(*w[i]));
            }
            assert(self@.1 =~= start.1.union(other@.1));
        }
    }

    /// The number of adds held, tombstoned or not.
    pub fn num_adds(&self) -> (n: usize)
        ensures
            n == self@.0.dom().len(),
    {
        self.elements.len()
    }

    /// The number of tombstoned add IDs.
    pub fn num_tombstones(&self) -> (n: usize)
        ensures
            n == self@.1.len(),
    {
        self.tombstones.len()
    }

    /// Remove all adds and tombstones.
    pub fn clear(&mut self)
        ensures
            final(self)@.0 == Map::<u128, (T, NodeId)>::empty(),
            final(self)@.1 == Set::<u128>::empty(),
    {
        self.elements.clear();
        self.tombstones.clear();
    }

    /// Drop the adds that are tombstoned; the tombstones stay.
    pub fn garbage_collect(&mut self)
        ensures
            final(self)@.1 == old(self)@.1,
            final(self)@ == orset_collected(old(self)@),
    {
        let mut dead: Vec<u128> = Vec::new();
        let ghost v = vstd::std_specs::hash::spec_hash_map_iter(&self.elements).remaining();
        let ghost mut visited: int = 0;
        for pair in it: self.elements.iter()
            invariant
                it.seq() == v,
                v == vstd::std_specs::hash::spec_hash_map_iter(&self.elements).remaining(),
                visited == it.index(),
                forall|id: u128|
                    dead@.contains(id) <==> (self@.0.contains_key(id) && self@.1.contains(id)
                        && exists|i: int| 0 <= i < visited && *v[i].0 == id),
        {
            let (id, _entry) = pair;
            proof {
                assert(pair == v[visited]);
                assert(self@.0.contains_key(*v[visited].0));
            }
            let ghost dead_before = dead@;
            if self.tombstones.contains(id) {
                dead.push(*id);
            }
            proof {
                assert forall|k: u128|
                    dead@.contains(k) <==> (self@.0.contains_key(k) && self@.1.contains(k)
                        && exists|i: int| 0 <= i < visited + 1 && *v[i].0 == k) by {
                    if k == *id {
                        assert(*v[visited].0 == k);
                    } else {
                        assert(dead@.contains(k) == dead_before.contains(k));
                        if exists|i: int| 0 <= i < visited + 1 && *v[i].0 == k {
                            let i = choose|i: int| 0 <= i < visited + 1 && *v[i].0 == k;
                            assert(i < visited);
                        }
                    }
                }
                visited = visited + 1;
            }
        }
        proof {
            assert forall|id: u128| self@.0.contains_key(id) && self@.1.contains(id) implies dead@.contains(
                id,
            ) by {
                lemma_iter_covers(&self.elements, id);
            }
        }
        let ghost start = self@;
        let mut i: usize = 0;
        while i < dead.len()
            invariant
                i <= dead.len(),
                self@.1 == start.1,
                forall|id: u128| dead@.contains(id) <==> (start.0.contains_key(id) && start.1.contains(id)),
                forall|id: u128|
                    #![trigger self@.0.contains_key(id)]
                    self@.0.contains_key(id) <==> (start.0.contains_key(id) && !exists|j: int|
                        0 <= j < i && dead@[j] == id),
                forall|id: u128| self@.0.contains_key(id) ==> self@.0[id] == start.0[id],
            decreases dead.len() - i,
        {
            let ghost before = self@.0;
            self.elements.remove(&dead[i]);
            proof {
                assert forall|k: u128|
                    #[trigger] self@.0.contains_key(k) <==> (start.0.contains_key(k) && !exists|j: int|
                        0 <= j < i + 1 && dead@[j] == k) by {
                    if k == dead@[i as int] {
                    } else {
                        assert(self@.0.contains_key(k) == before.contains_key(k));
                        if exists|j: int| 0 <= j < i + 1 && dead@[j] == k {
                            let j = choose|j: int| 0 <= j < i + 1 && dead@[j] == k;
                            assert(j < i);
                        }
                    }
                }
            }
            i = i + 1;
        }
        proof {
            assert(self@.0 =~= orset_collected(start).0);
        }
    }
}

impl<T: Clone> Clone for OrSet<T> {
    fn clone(&self) -> (r: Self)
        ensures
            r@.1 == self@.1,
            r@.0.dom() == self@.0.dom(),
    {
        let mut tombstones: HashSet<u128> = HashSet::new();
        let ghost v = vstd::std_specs::hash::spec_hash_keys_iter(&self.tombstones).remaining();
        for id in it: self.tombstones.iter()
            invariant
                it.seq() == v,
                v == vstd::std_specs::hash::spec_hash_keys_iter(&self.tombstones).remaining(),
                tombstones@ == v.take(it.index()).unref().to_set(),
        {
            proof {
                assert(v.take(it.index() + 1).unref() =~= v.take(it.index()).unref().push(*id));
                v.take(it.index()).unref().lemma_push_to_set_commute(*id);
            }
            tombstones.insert(*id);
        }
        proof {
            assert(v.take(v.len() as int) =~= v);
        }
        OrSet { elements: self.elements.clone(), tombstones }
    }
}

impl<T: Clone + PartialEq> Default for OrSet<T> {
    fn default() -> (s: Self)
        ensures
            s@.0 == Map::<u128, (T, NodeId)>::empty(),
            s@.1 == Set::<u128>::empty(),
    {
        OrSet::new()
    }
}

/// Merging is commutative when the two replicas agree on every add they both
/// know (as they do when operation IDs are unique).
pub proof fn lemma_orset_join_commutative<T>(a: OrSetModel<T>, b: OrSetModel<T>)
    requires
        adds_agree(a, b),
    ensures
        orset_join(a, b) == orset_join(b, a),
{
    assert(orset_join(a, b).0 =~= orset_join(b, a).0);
    assert(orset_join(a, b).1 =~= orset_join(b, a).1);
}

/// Merging is associative.
pub proof fn lemma_orset_join_associative<T>(a: OrSetModel<T>, b: OrSetModel<T>, c: OrSetModel<T>)
    ensures
        orset_join(orset_join(a, b), c) == orset_join(a, orset_join(b, c)),
{
    assert(orset_join(orset_join(a, b), c).0 =~= orset_join(a, orset_join(b, c)).0);
    assert(orset_join(orset_join(a, b), c).1 =~= orset_join(a, orset_join(b, c)).1);
}

/// Merging a replica with itself changes nothing.
pub proof fn lemma_orset_join_idempotent<T>(a: OrSetModel<T>)
    ensures
        orset_join(a, a) == a,
{
    assert(orset_join(a, a).0 =~= a.0);
    assert(orset_join(a, a).1 =~= a.1);
}

/// Add wins: an add that one replica holds and that the other never removed
/// keeps its value present after the merge.
pub proof fn lemma_orset_add_wins<T>(a: OrSetModel<T>, b: OrSetModel<T>, id: u128)
    requires
        live(b, id),
        !a.1.contains(id),
        adds_agree(a, b),
    ensures
        live(orset_join(a, b), id),
        present(orset_join(a, b), b.0[id].0),
{
    assert(orset_join(a, b).0[id] == b.0[id]);
}

/// Observed remove: an add that either replica removed stays removed after
/// the merge.
pub proof fn lemma_orset_remove_sticks<T>(a: OrSetModel<T>, b: OrSetModel<T>, id: u128)
    requires
        a.1.contains(id) || b.1.contains(id),
    ensures
        !live(orset_join(a, b), id),
{
}

/// Removing every live add of a value removes the value.
pub proof fn lemma_orset_remove_all_ids<T>(s: OrSetModel<T>, x: T, ids: Set<u128>)
    requires
        forall|id: u128| live(s, id) && s.0[id].0 == x ==> ids.contains(id),
    ensures
        !present((s.0, s.1.union(ids)), x),
{
}

/// Garbage collection does not change which values are present.
pub proof fn lemma_orset_collect_keeps_values<T>(s: OrSetModel<T>, x: T)
    ensures
        present(orset_collected(s), x) == present(s, x),
{
    if present(s, x) {
        let id = choose|id: u128| live(s, id) && #[trigger] s.0[id].0 == x;
        assert(live(orset_collected(s), id));
        assert(orset_collected(s).0[id].0 == x);
    }
    if present(orset_collected(s), x) {
        let id = choose|id: u128| live(orset_collected(s), id) && #[trigger] orset_collected(s).0[id].0 == x;
        assert(live(s, id) && s.0[id].0 == x);
    }
}

} // verus!
