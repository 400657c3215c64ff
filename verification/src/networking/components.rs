//! Components that mark entities for synchronization, and the local
//! selection.

use std::collections::HashSet;
use vstd::prelude::*;
use vstd::std_specs::iter::IteratorSpec;

use crate::ids::{random_id, NodeId};

verus! {

broadcast use vstd::std_specs::hash::group_hash_axioms;

/// Marks an entity whose next change should not produce a delta (the change
/// came from the network).
#[derive(Clone, Copy, PartialEq, Eq, Structural, Debug)]
pub struct SkipNextDeltaGeneration;

/// Marks an entity as networked: it has a network-wide identity and an
/// owner.
#[derive(Clone, Copy, PartialEq, Eq, Structural, Debug)]
pub struct NetworkedEntity {
    /// Network-wide identity of the entity.
    pub network_id: u128,
    /// Node that created the entity.
    pub owner_node_id: NodeId,
}

impl NetworkedEntity {
    /// A new networked entity with a fresh random identity.
    pub fn new(owner_node_id: NodeId) -> (e: Self)
        ensures
            e.owner_node_id == owner_node_id,
    {
        NetworkedEntity { network_id: random_id(), owner_node_id }
    }

    /// A networked entity with a given identity (as received from a peer).
    pub fn with_id(network_id: u128, owner_node_id: NodeId) -> (e: Self)
        ensures
            e == (NetworkedEntity { network_id, owner_node_id }),
    {
        NetworkedEntity { network_id, owner_node_id }
    }

    /// Whether `node_id` owns the entity.
    pub fn is_owned_by(&self, node_id: NodeId) -> (r: bool)
        ensures
            r == (self.owner_node_id == node_id),
    {
        self.owner_node_id == node_id
    }
}

impl Default for NetworkedEntity {
    /// A networked entity with a fresh identity and a fresh owner.
    fn default() -> (e: Self) {
        NetworkedEntity { network_id: random_id(), owner_node_id: random_id() }
    }
}

/// Marks an entity whose transform is synchronized.
#[derive(Clone, Copy, PartialEq, Eq, Structural, Debug, Default)]
pub struct NetworkedTransform;

/// The entities selected on this node.
#[derive(Debug)]
pub struct LocalSelection {
    selected_ids: HashSet<u128>,
}

impl View for LocalSelection {
    type V = Set<u128>;

    closed spec fn view(&self) -> Set<u128> {
        self.selected_ids@
    }
}

impl LocalSelection {
    /// An empty selection.
    pub fn new() -> (s: Self)
        ensures
            s@ == Set::<u128>::empty(),
    {
        LocalSelection { selected_ids: HashSet::new() }
    }

    /// Select an entity; true when it was not selected before.
    pub fn insert(&mut self, entity_id: u128) -> (r: bool)
        ensures
            r == !old(self)@.contains(entity_id),
            final(self)@ == old(self)@.insert(entity_id),
    {
        self.selected_ids.insert(entity_id)
    }

    /// Deselect an entity; true when it was selected.
    pub fn remove(&mut self, entity_id: u128) -> (r: bool)
        ensures
            r == old(self)@.contains(entity_id),
            final(self)@ == old(self)@.remove(entity_id),
    {
        self.selected_ids.remove(&entity_id)
    }

    /// Whether an entity is selected.
    pub fn contains(&self, entity_id: u128) -> (r: bool)
        ensures
            r == self@.contains(entity_id),
    {
        self.selected_ids.contains(&entity_id)
    }

    /// Deselect everything.
    pub fn clear(&mut self)
        ensures
            final(self)@ == Set::<u128>::empty(),
    {
        self.selected_ids.clear();
    }

    /// The number of selected entities.
    pub fn len(&self) -> (n: usize)
        ensures
            n == self@.len(),
    {
        self.selected_ids.len()
    }

    /// Whether nothing is selected.
    pub fn is_empty(&self) -> (r: bool)
        ensures
            r == (self@.len() == 0),
    {
        self.selected_ids.len() == 0
    }

    /// The selected entities, each once, in no particular order.
    pub fn iter(&self) -> (r: Vec<u128>)
        ensures
            r@.no_duplicates(),
            r@.to_set() == self@,
    {
        let mut out: Vec<u128> = Vec::new();
        let ghost v = vstd::std_specs::hash::spec_hash_keys_iter(&self.selected_ids).remaining();
        for id in it: self.selected_ids.iter()
            invariant
                it.seq() == v,
                v == vstd::std_specs::hash::spec_hash_keys_iter(&self.selected_ids).remaining(),
                v.unref().no_duplicates(),
                out@ == v.take(it.index()).unref(),
        {
            proof {
                assert(v.take(it.index() + 1).unref() =~= v.take(it.index()).unref().push(*id));
            }
            out.push(*id);
        }
        proof {
            assert(v.take(v.len() as int) =~= v);
        }
        out
    }

    /// The selected entities as a set.
    pub fn selected(&self) -> (r: &HashSet<u128>)
        ensures
            r@ == self@,
    {
        &self.selected_ids
    }
}

impl Default for LocalSelection {
    fn default() -> (s: Self)
        ensures
            s@ == Set::<u128>::empty(),
    {
        LocalSelection::new()
    }
}

} // verus!
