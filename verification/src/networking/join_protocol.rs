//! The join protocol: a joining node asks for the world state, and applies
//! the full state it receives.

use vstd::prelude::*;

use crate::ids::NodeId;
use crate::networking::delta_generation::NodeVectorClock;
use crate::networking::components::NetworkedEntity;
use crate::networking::messages::{
    ComponentState,
    EntityState,
    JoinType,
    SyncMessage,
    VersionedMessage,
    CURRENT_VERSION,
};
use crate::networking::session::SessionId;
use crate::networking::tombstones::{recorded_deletion, TombstoneRegistry, TombstoneView};
use crate::networking::vector_clock::{clock_join, VectorClock};
use crate::text::{ends_with, str_ends_with};
use crate::time::now_millis;

verus! {

broadcast use vstd::std_specs::vec::axiom_spec_into_iter;

/// Build a join request.
pub fn build_join_request(
    node_id: NodeId,
    session_id: SessionId,
    session_secret: Option<Vec<u8>>,
    last_known_clock: Option<VectorClock>,
    join_type: JoinType,
) -> (m: VersionedMessage)
    ensures
        m.version == CURRENT_VERSION,
        m.nonce == 0,
        m.message == (SyncMessage::JoinRequest {
            node_id,
            session_id,
            session_secret,
            last_known_clock,
            join_type,
        }),
{
    VersionedMessage::with_nonce_inputs(
        SyncMessage::JoinRequest { node_id, session_id, session_secret, last_known_clock, join_type },
        0,
        0,
    )
}

/// Whether an entity of a full state is to be spawned: it is not deleted.
pub open spec fn is_live(e: EntityState) -> bool {
    !e.is_deleted
}

/// The tombstones after the deleted entities of a full state were recorded,
/// in order, at time `now`.
pub open spec fn full_state_tombstones(
    m: Map<u128, TombstoneView>,
    entities: Seq<EntityState>,
    now: u64,
) -> Map<u128, TombstoneView>
    decreases entities.len(),
{
    if entities.len() == 0 {
        m
    } else {
        let before = full_state_tombstones(m, entities.drop_last(), now);
        let e = entities.last();
        if e.is_deleted {
            recorded_deletion(before, e.entity_id, e.owner_node_id, e.vector_clock@, now)
        } else {
            before
        }
    }
}

/// After a full state is applied, every entity it marks deleted has a
/// tombstone, and no tombstone was dropped.
pub proof fn lemma_full_state_records_deletions(
    m: Map<u128, TombstoneView>,
    entities: Seq<EntityState>,
    now: u64,
)
    ensures
        forall|i: int|
            0 <= i < entities.len() && (#[trigger] entities[i]).is_deleted ==> full_state_tombstones(
                m,
                entities,
                now,
            ).contains_key(entities[i].entity_id),
        forall|k: u128| m.contains_key(k) ==> #[trigger] full_state_tombstones(m, entities, now).contains_key(k),
    decreases entities.len(),
{
    if entities.len() > 0 {
        let rest = entities.drop_last();
        lemma_full_state_records_deletions(m, rest, now);
        assert forall|i: int|
            0 <= i < entities.len() && (#[trigger] entities[i]).is_deleted implies full_state_tombstones(
                m,
                entities,
                now,
            ).contains_key(entities[i].entity_id) by {
            if i < entities.len() - 1 {
                assert(rest[i] == entities[i]);
            }
        }
        assert forall|k: u128| m.contains_key(k) implies #[trigger] full_state_tombstones(
            m,
            entities,
            now,
        ).contains_key(k) by {
            assert(full_state_tombstones(m, rest, now).contains_key(k));
        }
    }
}

/// Apply a received full state at time `now`: merge its clock into the
/// node's clock, record a tombstone for each deleted entity, and return the
/// entities to spawn, in order.
pub fn apply_full_state_at(
    entities: Vec<EntityState>,
    remote_clock: &VectorClock,
    node_clock: &mut NodeVectorClock,
    tombstones: &mut TombstoneRegistry,
    now: u64,
) -> (live: Vec<EntityState>)
    ensures
        final(node_clock).node_id == old(node_clock).node_id,
        final(node_clock).clock@ == clock_join(old(node_clock).clock@, remote_clock@),
        final(tombstones)@ == full_state_tombstones(old(tombstones)@, entities@, now),
        live@ == entities@.filter(|e: EntityState| is_live(e)),
{
    node_clock.clock.merge(remote_clock);
    let ghost all = entities@;
    let ghost start = tombstones@;
    let mut live: Vec<EntityState> = Vec::new();
    for e in it: entities
        invariant
            it.seq() == all,
            tombstones@ == full_state_tombstones(start, all.take(it.index() as int), now),
            live@ == all.take(it.index() as int).filter(|e: EntityState| is_live(e)),
    {
        let ghost i = it.index() as int;
        proof {
            assert(all.take(i + 1).drop_last() =~= all.take(i));
            assert(all.take(i + 1).last() == e);
            reveal(Seq::filter);
        }
        if e.is_deleted {
            tombstones.record_deletion_at(e.entity_id, e.owner_node_id, e.vector_clock, now);
        } else {
            live.push(e);
        }
    }
    proof {
        assert(all.take(all.len() as int) =~= all);
    }
    live
}

/// Apply a received full state now.
pub fn apply_full_state(
    entities: Vec<EntityState>,
    remote_clock: &VectorClock,
    node_clock: &mut NodeVectorClock,
    tombstones: &mut TombstoneRegistry,
) -> (live: Vec<EntityState>)
    ensures
        final(node_clock).node_id == old(node_clock).node_id,
        final(node_clock).clock@ == clock_join(old(node_clock).clock@, remote_clock@),
        exists|now: u64| final(tombstones)@ == full_state_tombstones(old(tombstones)@, entities@, now),
        live@ == entities@.filter(|e: EntityState| is_live(e)),
{
    let now = now_millis();
    let ghost all = entities@;
    let live = apply_full_state_at(entities, remote_clock, node_clock, tombstones, now);
    assert(tombstones@ == full_state_tombstones(old(tombstones)@, all, now));
    live
}

/// Whether a component type path names one of the networking marker
/// components, which a full state leaves out.
pub open spec fn is_networking_marker(type_path: Seq<char>) -> bool {
    ||| ends_with(type_path, "::NetworkedEntity"@)
    ||| ends_with(type_path, "::NetworkedTransform"@)
    ||| ends_with(type_path, "::NetworkedSelection"@)
    ||| ends_with(type_path, "::NetworkedDrawingPath"@)
}

/// Whether a component type is a networking marker.
pub fn is_networking_marker_type(type_path: &str) -> (r: bool)
    ensures
        r == is_networking_marker(type_path@),
{
    str_ends_with(type_path, "::NetworkedEntity") || str_ends_with(type_path, "::NetworkedTransform")
        || str_ends_with(type_path, "::NetworkedSelection") || str_ends_with(
        type_path,
        "::NetworkedDrawingPath",
    )
}

/// Whether an entity goes into a full state: it has no tombstone, when
/// tombstones are consulted.
pub open spec fn sent_in_full_state(
    tombstones: Option<Map<u128, TombstoneView>>,
    entry: (NetworkedEntity, Vec<ComponentState>),
) -> bool {
    match tombstones {
        Some(t) => !t.contains_key(entry.0.network_id),
        None => true,
    }
}

/// The entries of a full state's entities, in order.
pub open spec fn full_state_entries(
    entities: Seq<(NetworkedEntity, Vec<ComponentState>)>,
    tombstones: Option<Map<u128, TombstoneView>>,
) -> Seq<(NetworkedEntity, Vec<ComponentState>)> {
    entities.filter(|p: (NetworkedEntity, Vec<ComponentState>)| sent_in_full_state(tombstones, p))
}

/// The tombstones consulted, if any.
pub open spec fn consulted(tombstones: Option<&TombstoneRegistry>) -> Option<Map<u128, TombstoneView>> {
    match tombstones {
        Some(t) => Some(t@),
        None => None,
    }
}

/// Whether `e` is the state sent for `entry` under the node's clock `clock`.
pub open spec fn state_of(
    e: EntityState,
    entry: (NetworkedEntity, Vec<ComponentState>),
    clock: Map<NodeId, u64>,
) -> bool {
    &&& e.entity_id == entry.0.network_id
    &&& e.owner_node_id == entry.0.owner_node_id
    &&& e.vector_clock@ == clock
    &&& e.components == entry.1
    &&& !e.is_deleted
}

/// The full state for a joining node: every networked entity with its
/// serialized components, stamped with the node's clock, leaving out the
/// entities that have a tombstone when tombstones are given.
pub fn build_full_state(
    entities: Vec<(NetworkedEntity, Vec<ComponentState>)>,
    node_clock: &NodeVectorClock,
    tombstones: Option<&TombstoneRegistry>,
) -> (m: VersionedMessage)
    ensures
        m.version == CURRENT_VERSION,
        m.nonce == 0,
        m.message matches SyncMessage::FullState { entities: states, vector_clock } && vector_clock@
            == node_clock.clock@ && states@.len() == full_state_entries(
            entities@,
            consulted(tombstones),
        ).len() && forall|j: int|
            0 <= j < states@.len() ==> state_of(
                #[trigger] states@[j],
                full_state_entries(entities@, consulted(tombstones))[j],
                node_clock.clock@,
            ),
{
    let ghost t = consulted(tombstones);
    let ghost all = entities@;
    let mut states: Vec<EntityState> = Vec::new();
    for entry in it: entities
        invariant
            it.seq() == all,
            t == consulted(tombstones),
            states@.len() == full_state_entries(all.take(it.index() as int), t).len(),
            forall|j: int|
                0 <= j < states@.len() ==> state_of(
                    #[trigger] states@[j],
                    full_state_entries(all.take(it.index() as int), t)[j],
                    node_clock.clock@,
                ),
    {
        let ghost i = it.index() as int;
        proof {
            assert(all.take(i + 1).drop_last() =~= all.take(i));
            assert(all.take(i + 1).last() == entry);
            reveal(Seq::filter);
        }
        let (networked, components) = entry;
        let skip = match tombstones {
            Some(registry) => registry.is_deleted(networked.network_id),
            None => false,
        };
        if !skip {
            states.push(
                EntityState {
                    entity_id: networked.network_id,
                    owner_node_id: networked.owner_node_id,
                    vector_clock: node_clock.clock.clone(),
                    components,
                    is_deleted: false,
                },
            );
        }
    }
    proof {
        assert(all.take(all.len() as int) =~= all);
    }
    VersionedMessage::with_nonce_inputs(
        SyncMessage::FullState { entities: states, vector_clock: node_clock.clock.clone() },
        0,
        0,
    )
}

/// No entity that has a tombstone goes into a full state built with the
/// tombstones: a joining node does not resurrect deleted entities.
pub proof fn lemma_full_state_skips_tombstoned(
    entities: Seq<(NetworkedEntity, Vec<ComponentState>)>,
    tombstones: Map<u128, TombstoneView>,
)
    ensures
        forall|j: int|
            0 <= j < full_state_entries(entities, Some(tombstones)).len() ==> !tombstones.contains_key(
                (#[trigger] full_state_entries(entities, Some(tombstones))[j]).0.network_id,
            ),
{
    let keep = |p: (NetworkedEntity, Vec<ComponentState>)| sent_in_full_state(Some(tombstones), p);
    assert forall|j: int|
        0 <= j < full_state_entries(entities, Some(tombstones)).len() implies !tombstones.contains_key(
            (#[trigger] full_state_entries(entities, Some(tombstones))[j]).0.network_id,
        ) by {
        entities.lemma_filter_pred(keep, j);
    }
}

} // verus!
