//! Which entity versions have already been sent.

use std::collections::HashMap;
use vstd::prelude::*;

verus! {

broadcast use vstd::std_specs::hash::group_hash_axioms;

/// The last version of each entity that was synchronized.
pub struct LastSyncVersions {
    versions: HashMap<u128, u64>,
}

impl View for LastSyncVersions {
    type V = Map<u128, u64>;

    closed spec fn view(&self) -> Map<u128, u64> {
        self.versions@
    }
}

/// Whether version `version` of `id` is to be sent: the entity was never
/// sent, or only an older version was.
pub open spec fn needs_sync(m: Map<u128, u64>, id: u128, version: u64) -> bool {
    !m.contains_key(id) || version > m[id]
}

impl LastSyncVersions {
    /// No entity synchronized yet.
    pub fn new() -> (r: Self)
        ensures
            r@ == Map::<u128, u64>::empty(),
    {
        LastSyncVersions { versions: HashMap::new() }
    }

    /// Whether version `version` of an entity is newer than what was sent.
    pub fn should_sync(&self, network_id: u128, version: u64) -> (r: bool)
        ensures
            r == needs_sync(self@, network_id, version),
    {
        match self.versions.get(&network_id) {
            Some(last) => version > *last,
            None => true,
        }
    }

    /// Record that version `version` of an entity was sent.
    pub fn update(&mut self, network_id: u128, version: u64)
        ensures
            final(self)@ == old(self)@.insert(network_id, version),
    {
        self.versions.insert(network_id, version);
    }

    /// Forget an entity.
    pub fn remove(&mut self, network_id: u128)
        ensures
            final(self)@ == old(self)@.remove(network_id),
    {
        self.versions.remove(&network_id);
    }
}

impl Default for LastSyncVersions {
    fn default() -> (r: Self)
        ensures
            r@ == Map::<u128, u64>::empty(),
    {
        LastSyncVersions::new()
    }
}

/// Once a version is recorded as sent, neither it nor any older version is
/// sent again, and every newer one is.
pub proof fn lemma_sent_version_not_resent(m: Map<u128, u64>, id: u128, sent: u64, version: u64)
    ensures
        needs_sync(m.insert(id, sent), id, version) == (version > sent),
{
}

} // verus!
