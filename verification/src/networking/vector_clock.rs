//! Vector clocks: causality between events of different peers.
//!
//! A vector clock maps each node to the number of operations of that node that
//! the holder has seen. A node absent from the map counts as zero.

use std::collections::HashMap;
use vstd::prelude::*;
use vstd::std_specs::iter::IteratorSpec;

use crate::ids::NodeId;
use crate::networking::error::NetworkingError;

verus! {

broadcast use vstd::std_specs::hash::group_hash_axioms;

/// The counter that a clock map holds for a node (zero when absent).
pub open spec fn count(m: Map<NodeId, u64>, n: NodeId) -> nat {
    if m.contains_key(n) {
        m[n] as nat
    } else {
        0
    }
}

/// Every counter of `a` is at most the matching counter of `b`.
pub open spec fn clock_le(a: Map<NodeId, u64>, b: Map<NodeId, u64>) -> bool {
    forall|n: NodeId| count(a, n) <= count(b, n)
}

/// `a` happened before `b`: no counter of `a` exceeds `b`'s and one is smaller.
pub open spec fn clock_lt(a: Map<NodeId, u64>, b: Map<NodeId, u64>) -> bool {
    &&& clock_le(a, b)
    &&& exists|n: NodeId| count(a, n) < count(b, n)
}

/// Neither clock happened before the other and they differ.
pub open spec fn clock_concurrent(a: Map<NodeId, u64>, b: Map<NodeId, u64>) -> bool {
    a != b && !clock_lt(a, b) && !clock_lt(b, a)
}

/// The join of two clocks: every node of either, with the larger counter.
pub open spec fn clock_join(a: Map<NodeId, u64>, b: Map<NodeId, u64>) -> Map<NodeId, u64> {
    Map::new(
        |n: NodeId| a.contains_key(n) || b.contains_key(n),
        |n: NodeId|
            if count(a, n) >= count(b, n) {
                count(a, n) as u64
            } else {
                count(b, n) as u64
            },
    )
}

/// Every key of a hash map appears in the sequence that its iterator walks;
pub proof fn lemma_iter_covers<V>(m: &HashMap<NodeId, V>, k: NodeId)
    requires
        m@.contains_key(k),
    ensures
        exists|i: int|
            0 <= i < vstd::std_specs::hash::spec_hash_map_iter(m).remaining().len()
                && *vstd::std_specs::hash::spec_hash_map_iter(m).remaining()[i].0 == k,
{
    let v = vstd::std_specs::hash::spec_hash_map_iter(m).remaining();
    assert(v.contains((&k, &m@[k])));
}

/// Vector clock for tracking causality in distributed operations.
#[derive(Debug)]
pub struct VectorClock {
    /// Map from node ID to logical timestamp.
    pub timestamps: HashMap<NodeId, u64>,
}

impl View for VectorClock {
    type V = Map<NodeId, u64>;

    open spec fn view(&self) -> Map<NodeId, u64> {
        self.timestamps@
    }
}

impl VectorClock {
    /// Create a new empty vector clock.
    pub fn new() -> (clock: Self)
        ensures
            clock@ == Map::<NodeId, u64>::empty(),
    {
        VectorClock { timestamps: HashMap::new() }
    }

    /// Number of nodes tracked in this clock.
    pub fn node_count(&self) -> (n: usize)
        ensures
            n == self@.dom().len(),
    {
        self.timestamps.len()
    }

    /// Current counter for a node; zero if the node was never seen.
    pub fn get(&self, node_id: NodeId) -> (c: u64)
        ensures
            c == count(self@, node_id),
    {
        match self.timestamps.get(&node_id) {
            Some(c) => *c,
            None => 0,
        }
    }

    /// Increment the counter of `node_id` and return its new value.
    pub fn increment(&mut self, node_id: NodeId) -> (c: u64)
        requires
            count(old(self)@, node_id) < u64::MAX,
        ensures
            c == count(old(self)@, node_id) + 1,
            final(self)@ == old(self)@.insert(node_id, c),
    {
        let c = self.get(node_id) + 1;
        self.timestamps.insert(node_id, c);
        c
    }

    /// Merge another clock into this one, keeping the larger counter per node.
    pub fn merge(&mut self, other: &VectorClock)
        ensures
            final(self)@ == clock_join(old(self)@, other@),
    {
        let ghost start = self@;
        let ghost mut seen: Set<NodeId> = Set::empty();
        let ghost v = vstd::std_specs::hash::spec_hash_map_iter(&other.timestamps).remaining();
        let ghost mut visited: int = 0;
        for pair in it: other.timestamps.iter()
            invariant
                it.seq() == v,
                v == vstd::std_specs::hash::spec_hash_map_iter(&other.timestamps).remaining(),
                visited == it.index(),
                forall|i: int| 0 <= i < visited ==> seen.contains(*#[trigger] v[i].0),
                forall|n: NodeId| seen.contains(n) ==> other@.contains_key(n),
                forall|n: NodeId|
                    #![trigger self@.contains_key(n)]
                    self@.contains_key(n) <==> (start.contains_key(n) || seen.contains(n)),
                forall|n: NodeId|
                    #![trigger count(self@, n)]
                    seen.contains(n) ==> count(self@, n) == if count(start, n) >= count(
                        other@,
                        n,
                    ) {
                        count(start, n)
                    } else {
                        count(other@, n)
                    },
                forall|n: NodeId|
                    #![trigger count(self@, n)]
                    !seen.contains(n) ==> count(self@, n) == count(start, n),
        {
            let (node_id, counter) = pair;
            proof {
                assert(pair == v[visited]);
                assert(other@.contains_key(*v[visited].0) && other@[*v[visited].0] == *v[visited].1);
            }
            let current = self.get(*node_id);
            let ghost before = self@;
            let joined = if *counter > current {
                *counter
            } else {
                current
            };
            self.timestamps.insert(*node_id, joined);
            proof {
                assert(self@ == before.insert(*node_id, joined));
                assert(count(self@, *node_id) == joined);
                assert(!seen.contains(*node_id) ==> count(before, *node_id) == count(start, *node_id));
                assert forall|n: NodeId| #![trigger count(self@, n)] n != *node_id implies count(self@, n) == count(before, n) by {}
                seen = seen.insert(*node_id);
                visited = visited + 1;

            }
        }
        assert forall|n: NodeId| other@.contains_key(n) implies seen.contains(n) by {
            lemma_iter_covers(&other.timestamps, n);
            let i = choose|i: int| 0 <= i < v.len() && *v[i].0 == n;
            assert(seen.contains(*v[i].0));
        }
        assert forall|n: NodeId| self@.contains_key(n) implies self@[n] == clock_join(
            start,
            other@,
        )[n] by {
            assert(count(self@, n) == self@[n]);
        }
        assert(self@ =~= clock_join(start, other@));
    }

    /// True if this clock happened before `other`: no counter of ours is
    /// greater than theirs and at least one is strictly smaller.
    pub fn happened_before(&self, other: &VectorClock) -> (r: bool)
        ensures
            r == clock_lt(self@, other@),
    {
        let ghost v = vstd::std_specs::hash::spec_hash_map_iter(&self.timestamps).remaining();
        let ghost mut visited: int = 0;
        let ghost mut witness: NodeId = 0;
        let mut any_strictly_less = false;
        for pair in it: self.timestamps.iter()
            invariant
                it.seq() == v,
                v == vstd::std_specs::hash::spec_hash_map_iter(&self.timestamps).remaining(),
                visited == it.index(),
                forall|i: int|
                    0 <= i < visited ==> count(self@, *#[trigger] v[i].0) <= count(
                        other@,
                        *v[i].0,
                    ),
                any_strictly_less ==> count(self@, witness) < count(other@, witness),
                !any_strictly_less ==> forall|i: int|
                    0 <= i < visited ==> count(self@, *#[trigger] v[i].0) == count(
                        other@,
                        *v[i].0,
                    ),
        {
            let (node_id, our_counter) = pair;
            proof {
                assert(pair == v[visited]);
                assert(self@.contains_key(*v[visited].0) && self@[*v[visited].0] == *v[visited].1);
            }
            let their_counter = other.get(*node_id);
            if *our_counter > their_counter {
                return false;
            }
            if *our_counter < their_counter {
                any_strictly_less = true;
                proof {
                    witness = *node_id;
                }
            }
            proof {
                visited = visited + 1;
            }
        }
        assert(clock_le(self@, other@)) by {
            assert forall|n: NodeId| count(self@, n) <= count(other@, n) by {
                if self@.contains_key(n) {
                    lemma_iter_covers(&self.timestamps, n);
                    let i = choose|i: int| 0 <= i < v.len() && *v[i].0 == n;
                    assert(count(self@, *v[i].0) <= count(other@, *v[i].0));
                }
            }
        }
        if any_strictly_less {
            return true;
        }
        assert forall|n: NodeId| self@.contains_key(n) implies count(self@, n) == count(other@, n) by {
            lemma_iter_covers(&self.timestamps, n);
            let i = choose|i: int| 0 <= i < v.len() && *v[i].0 == n;
            assert(count(self@, *v[i].0) == count(other@, *v[i].0));
        }
        let ghost w = vstd::std_specs::hash::spec_hash_map_iter(&other.timestamps).remaining();
        let ghost mut seen: int = 0;
        for pair in jt: other.timestamps.iter()
            invariant
                jt.seq() == w,
                w == vstd::std_specs::hash::spec_hash_map_iter(&other.timestamps).remaining(),
                seen == jt.index(),
                forall|i: int|
                    0 <= i < seen ==> count(self@, *#[trigger] w[i].0) == count(
                        other@,
                        *w[i].0,
                    ),
                forall|n: NodeId|
                    self@.contains_key(n) ==> count(self@, n) == count(other@, n),
                clock_le(self@, other@),
        {
            let (node_id, their_counter) = pair;
            proof {
                assert(pair == w[seen]);
                assert(other@.contains_key(*w[seen].0) && other@[*w[seen].0] == *w[seen].1);
            }
            if !self.timestamps.contains_key(node_id) && *their_counter > 0 {
                assert(count(self@, *node_id) < count(other@, *node_id));
                return true;
            }
            proof {
                seen = seen + 1;
            }
        }
        assert forall|n: NodeId| count(self@, n) == count(other@, n) by {
            if other@.contains_key(n) {
                lemma_iter_covers(&other.timestamps, n);
                let i = choose|i: int| 0 <= i < w.len() && *w[i].0 == n;
                assert(count(self@, *w[i].0) == count(other@, *w[i].0));
            }
        }
        false
    }

    /// True if the two clocks differ and neither happened before the other.
    pub fn is_concurrent_with(&self, other: &VectorClock) -> (r: bool)
        ensures
            r == clock_concurrent(self@, other@),
    {
        if self.same_as(other) {
            return false;
        }
        !self.happened_before(other) && !other.happened_before(self)
    }

    /// Compare two clocks: `Less` if this one happened before `other`,
    /// `Greater` if `other` happened before this one, `Equal` if they are
    /// identical, and an error if they are concurrent.
    pub fn compare(&self, other: &VectorClock) -> (r: Result<std::cmp::Ordering, NetworkingError>)
        ensures
            (r matches Ok(std::cmp::Ordering::Equal)) <==> self@ == other@,
            (r matches Ok(std::cmp::Ordering::Less)) <==> clock_lt(self@, other@),
            (r matches Ok(std::cmp::Ordering::Greater)) <==> clock_lt(other@, self@),
            (r is Err) <==> clock_concurrent(self@, other@),
            r matches Err(e) ==> e is VectorClockError,
    {
        proof {
            lemma_clock_lt_irreflexive(self@);
            lemma_clock_lt_asymmetric(self@, other@);
        }
        if self.same_as(other) {
            return Ok(std::cmp::Ordering::Equal);
        }
        if self.happened_before(other) {
            return Ok(std::cmp::Ordering::Less);
        }
        if other.happened_before(self) {
            return Ok(std::cmp::Ordering::Greater);
        }
        Err(NetworkingError::VectorClockError("Clocks are concurrent".to_string()))
    }

    /// True if both clocks hold exactly the same entries.
    pub fn same_as(&self, other: &VectorClock) -> (r: bool)
        ensures
            r == (self@ == other@),
    {
        if self.timestamps.len() != other.timestamps.len() {
            return false;
        }
        let ghost v = vstd::std_specs::hash::spec_hash_map_iter(&self.timestamps).remaining();
        let ghost mut visited: int = 0;
        for pair in it: self.timestamps.iter()
            invariant
                it.seq() == v,
                v == vstd::std_specs::hash::spec_hash_map_iter(&self.timestamps).remaining(),
                visited == it.index(),
                forall|i: int|
                    0 <= i < visited ==> other@.contains_key(*#[trigger] v[i].0) && other@[*v[i].0]
                        == self@[*v[i].0],
        {
            let (node_id, counter) = pair;
            proof {
                assert(pair == v[visited]);
                assert(self@.contains_key(*v[visited].0) && self@[*v[visited].0] == *v[visited].1);
            }
            match other.timestamps.get(node_id) {
                Some(c) => {
                    if *c != *counter {
                        return false;
                    }
                },
                None => {
                    return false;
                },
            }
            proof {
                visited = visited + 1;
            }
        }
        proof {
            assert forall|n: NodeId| self@.contains_key(n) implies other@.contains_key(n)
                && other@[n] == self@[n] by {
                lemma_iter_covers(&self.timestamps, n);
                let i = choose|i: int| 0 <= i < v.len() && *v[i].0 == n;
                assert(other@.contains_key(*v[i].0));
            }
            vstd::set_lib::lemma_subset_equality(self@.dom(), other@.dom());
            assert(self@ =~= other@);
        }
        true
    }
}

impl Clone for VectorClock {
    fn clone(&self) -> (r: Self)
        ensures
            r@ == self@,
    {
        VectorClock { timestamps: self.timestamps.clone() }
    }
}

impl PartialEq for VectorClock {
    fn eq(&self, other: &Self) -> (r: bool) {
        self.same_as(other)
    }
}

impl vstd::std_specs::cmp::PartialEqSpecImpl for VectorClock {
    open spec fn obeys_eq_spec() -> bool {
        true
    }

    open spec fn eq_spec(&self, other: &Self) -> bool {
        self@ == other@
    }
}

impl Default for VectorClock {
    fn default() -> (clock: Self)
        ensures
            clock@ == Map::<NodeId, u64>::empty(),
    {
        VectorClock::new()
    }
}

/// A clock never happened before itself.
pub proof fn lemma_clock_lt_irreflexive(a: Map<NodeId, u64>)
    ensures
        !clock_lt(a, a),
{
}

/// If `a` happened before `b`, then `b` did not happen before `a`.
pub proof fn lemma_clock_lt_asymmetric(a: Map<NodeId, u64>, b: Map<NodeId, u64>)
    ensures
        clock_lt(a, b) ==> !clock_lt(b, a),
{
    if clock_lt(a, b) && clock_lt(b, a) {
        let n = choose|n: NodeId| count(a, n) < count(b, n);
        assert(count(b, n) <= count(a, n));
    }
}

/// The counter of a join is the larger of the two counters.
pub proof fn lemma_count_join(a: Map<NodeId, u64>, b: Map<NodeId, u64>, n: NodeId)
    ensures
        count(clock_join(a, b), n) == if count(a, n) >= count(b, n) {
            count(a, n)
        } else {
            count(b, n)
        },
{
}

/// Happened-before is transitive.
pub proof fn lemma_clock_lt_transitive(
    a: Map<NodeId, u64>,
    b: Map<NodeId, u64>,
    c: Map<NodeId, u64>,
)
    requires
        clock_lt(a, b),
        clock_lt(b, c),
    ensures
        clock_lt(a, c),
{
    let n = choose|n: NodeId| count(a, n) < count(b, n);
    assert(count(b, n) <= count(c, n));
    assert forall|m: NodeId| count(a, m) <= count(c, m) by {
        assert(count(a, m) <= count(b, m));
        assert(count(b, m) <= count(c, m));
    }
}

/// Concurrency is symmetric.
pub proof fn lemma_concurrent_symmetric(a: Map<NodeId, u64>, b: Map<NodeId, u64>)
    ensures
        clock_concurrent(a, b) == clock_concurrent(b, a),
{
}

/// Any two clocks are equal, ordered one way, ordered the other way, or
/// concurrent, and exactly one of these holds.
pub proof fn lemma_clock_trichotomy(a: Map<NodeId, u64>, b: Map<NodeId, u64>)
    ensures
        a == b || clock_lt(a, b) || clock_lt(b, a) || clock_concurrent(a, b),
        a == b ==> !clock_lt(a, b) && !clock_lt(b, a) && !clock_concurrent(a, b),
        clock_lt(a, b) ==> a != b && !clock_lt(b, a) && !clock_concurrent(a, b),
{
    lemma_clock_lt_irreflexive(a);
    lemma_clock_lt_asymmetric(a, b);
}

/// Merging clocks is commutative.
pub proof fn lemma_join_commutative(a: Map<NodeId, u64>, b: Map<NodeId, u64>)
    ensures
        clock_join(a, b) == clock_join(b, a),
{
    assert(clock_join(a, b) =~= clock_join(b, a));
}

/// Merging clocks is associative.
pub proof fn lemma_join_associative(
    a: Map<NodeId, u64>,
    b: Map<NodeId, u64>,
    c: Map<NodeId, u64>,
)
    ensures
        clock_join(clock_join(a, b), c) == clock_join(a, clock_join(b, c)),
{
    assert forall|n: NodeId| #[trigger]
        clock_join(clock_join(a, b), c).contains_key(n) implies clock_join(clock_join(a, b), c)[n]
        == clock_join(a, clock_join(b, c))[n] by {
        lemma_count_join(a, b, n);
        lemma_count_join(b, c, n);
    }
    assert(clock_join(clock_join(a, b), c) =~= clock_join(a, clock_join(b, c)));
}

/// Merging a clock with itself changes nothing.
pub proof fn lemma_join_idempotent(a: Map<NodeId, u64>)
    ensures
        clock_join(a, a) == a,
{
    assert(clock_join(a, a) =~= a);
}

/// The merge of two clocks is the least clock that both are at most:
/// each clock is at most the merge, and any clock that both are at most is
/// at least the merge.
pub proof fn lemma_join_least_upper_bound(
    a: Map<NodeId, u64>,
    b: Map<NodeId, u64>,
    c: Map<NodeId, u64>,
)
    ensures
        clock_le(a, clock_join(a, b)),
        clock_le(b, clock_join(a, b)),
        clock_le(a, c) && clock_le(b, c) ==> clock_le(clock_join(a, b), c),
{
    assert forall|n: NodeId| count(a, n) <= count(clock_join(a, b), n) by {
        lemma_count_join(a, b, n);
    }
    assert forall|n: NodeId| count(b, n) <= count(clock_join(a, b), n) by {
        lemma_count_join(a, b, n);
    }
    if clock_le(a, c) && clock_le(b, c) {
        assert forall|n: NodeId| count(clock_join(a, b), n) <= count(c, n) by {
            lemma_count_join(a, b, n);
            assert(count(a, n) <= count(c, n));
            assert(count(b, n) <= count(c, n));
        }
    }
}

/// After merging `b` into `a`, the result did not happen before `b`.
pub proof fn lemma_join_not_before(a: Map<NodeId, u64>, b: Map<NodeId, u64>)
    ensures
        !clock_lt(clock_join(a, b), b),
{
    lemma_join_least_upper_bound(a, b, b);
    if clock_lt(clock_join(a, b), b) {
        let n = choose|n: NodeId| count(clock_join(a, b), n) < count(b, n);
        assert(count(b, n) <= count(clock_join(a, b), n));
    }
}

/// Incrementing a node's counter yields a clock that the old one happened
/// before.
pub proof fn lemma_increment_happens_after(a: Map<NodeId, u64>, n: NodeId, c: u64)
    requires
        c == count(a, n) + 1,
    ensures
        clock_lt(a, a.insert(n, c)),
{
    assert(count(a, n) < count(a.insert(n, c), n));
    assert forall|m: NodeId| count(a, m) <= count(a.insert(n, c), m) by {
        if m != n {
            assert(count(a, m) == count(a.insert(n, c), m));
        }
    }
}

} // verus!
