//! A last-write-wins register.
//!
//! A value carries the time it was written and the node that wrote it; of
//! two writes the later one wins, and between writes at the same time the
//! one of the greater node ID wins, so that every replica settles on the
//! same value.

use vstd::prelude::*;

use crate::ids::NodeId;
use crate::networking::orset::faithful_clone;
use crate::time::unix_now_micros;

verus! {


/// Whether a write stamped `(t2, n2)` wins over one stamped `(t1, n1)`.
pub open spec fn stamp_wins(t2: i64, n2: NodeId, t1: i64, n1: NodeId) -> bool {
    t2 > t1 || (t2 == t1 && n2 > n1)
}

/// The abstract register: value, write time (microseconds) and writer.
pub type Lww<T> = (T, i64, NodeId);

/// The register after a write `(v, t, n)` is offered to `r`.
pub open spec fn lww_apply<T>(r: Lww<T>, w: Lww<T>) -> Lww<T> {
    if stamp_wins(w.1, w.2, r.1, r.2) {
        w
    } else {
        r
    }
}

/// A value with last-write-wins semantics.
#[derive(Clone, Debug)]
pub struct SyncedValue<T: Clone> {
    value: T,
    timestamp: i64,
    node_id: NodeId,
}

impl<T: Clone> View for SyncedValue<T> {
    type V = Lww<T>;

    closed spec fn view(&self) -> Lww<T> {
        (self.value, self.timestamp, self.node_id)
    }
}

impl<T: Clone> SyncedValue<T> {
    /// A register holding `value`, written at time `timestamp` by `node_id`.
    pub fn new_at(value: T, timestamp: i64, node_id: NodeId) -> (s: Self)
        ensures
            s@ == (value, timestamp, node_id),
    {
        SyncedValue { value, timestamp, node_id }
    }

    /// A register holding `value`, written now by `node_id`.
    pub fn new(value: T, node_id: NodeId) -> (s: Self)
        ensures
            s@.0 == value,
            s@.2 == node_id,
            s@.1 >= 0,
    {
        SyncedValue::new_at(value, unix_now_micros(), node_id)
    }

    /// The value.
    pub fn get(&self) -> (v: &T)
        ensures
            *v == self@.0,
    {
        &self.value
    }

    /// The write time, in microseconds since the Unix epoch.
    pub fn timestamp(&self) -> (t: i64)
        ensures
            t == self@.1,
    {
        self.timestamp
    }

    /// The node that wrote the value.
    pub fn node_id(&self) -> (n: NodeId)
        ensures
            n == self@.2,
    {
        self.node_id
    }

    /// Write a value locally at time `timestamp`, unconditionally.
    pub fn set_at(&mut self, value: T, timestamp: i64, node_id: NodeId)
        ensures
            final(self)@ == (value, timestamp, node_id),
    {
        self.value = value;
        self.timestamp = timestamp;
        self.node_id = node_id;
    }

    /// Write a value locally now, unconditionally: the write is stamped with
    /// the clock reading taken by the call, a Unix time in microseconds, never
    /// before the epoch.
    pub fn set(&mut self, value: T, node_id: NodeId)
        ensures
            final(self)@.0 == value,
            final(self)@.2 == node_id,
            final(self)@.1 >= 0,
    {
        self.set_at(value, unix_now_micros(), node_id);
    }

    /// Offer a remote write: it replaces the value when its stamp wins.
    pub fn apply_lww(&mut self, value: T, timestamp: i64, node_id: NodeId)
        ensures
            final(self)@ == lww_apply(old(self)@, (value, timestamp, node_id)),
    {
        if timestamp > self.timestamp || (timestamp == self.timestamp && node_id > self.node_id) {
            self.value = value;
            self.timestamp = timestamp;
            self.node_id = node_id;
        }
    }

    /// Merge another replica's register: its write replaces ours when its
    /// stamp wins.
    pub fn merge(&mut self, other: &Self)
        requires
            faithful_clone::<T>(),
        ensures
            final(self)@ == lww_apply(old(self)@, other@),
    {
        if other.timestamp > self.timestamp || (other.timestamp == self.timestamp && other.node_id
            > self.node_id) {
            let v = other.value.clone();
            assert(cloned::<T>(other.value, v));
            self.value = v;
            self.timestamp = other.timestamp;
            self.node_id = other.node_id;
        }
    }
}

/// Two registers agree: writes with the same stamp carry the same value.
pub open spec fn lww_consistent<T>(a: Lww<T>, b: Lww<T>) -> bool {
    a.1 == b.1 && a.2 == b.2 ==> a.0 == b.0
}

/// Merging is commutative: replicas that exchange their writes in either
/// order hold the same value.
pub proof fn lemma_lww_commutative<T>(a: Lww<T>, b: Lww<T>)
    requires
        lww_consistent(a, b),
    ensures
        lww_apply(a, b) == lww_apply(b, a),
{
}

/// Merging is associative.
pub proof fn lemma_lww_associative<T>(a: Lww<T>, b: Lww<T>, c: Lww<T>)
    requires
        lww_consistent(a, b),
        lww_consistent(b, c),
        lww_consistent(a, c),
    ensures
        lww_apply(lww_apply(a, b), c) == lww_apply(a, lww_apply(b, c)),
{
}

/// Merging a register with itself changes nothing.
pub proof fn lemma_lww_idempotent<T>(a: Lww<T>)
    ensures
        lww_apply(a, a) == a,
{
}

/// An older write never replaces a newer one.
pub proof fn lemma_lww_older_loses<T>(r: Lww<T>, w: Lww<T>)
    requires
        w.1 < r.1,
    ensures
        lww_apply(r, w) == r,
{
}

/// Between writes at the same time, the greater node ID wins.
pub proof fn lemma_lww_tiebreak<T>(r: Lww<T>, w: Lww<T>)
    requires
        w.1 == r.1,
        w.2 > r.2,
    ensures
        lww_apply(r, w) == w,
{
}

} // verus!
