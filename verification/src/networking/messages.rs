//! Protocol messages for replicated synchronization.
//!
//! Every message travels in a versioned envelope. Lock messages carry a
//! fresh nonce so that repeated heartbeats are not deduplicated by the
//! gossip layer; every other message carries nonce 0, so that identical
//! content is deduplicated.

use vstd::prelude::*;

use crate::ids::NodeId;
use crate::networking::locks::LockMessage;
use crate::networking::operations::ComponentOp;
use crate::networking::session::SessionId;
use crate::networking::vector_clock::VectorClock;
use crate::time::now_millis;

verus! {

/// The FxHash multiplier on a target whose pointers have `pointer_bits`
/// bits.
pub open spec fn fx_multiplier(pointer_bits: u32) -> int {
    if pointer_bits == 64 {
        0xf1357aea2e62a9c5
    } else {
        0x93d765dd
    }
}

/// The rotation FxHash applies when it finishes.
pub open spec fn fx_rotation(pointer_bits: u32) -> int {
    if pointer_bits == 64 {
        26
    } else {
        15
    }
}

/// 2 to the power of the pointer width.
pub open spec fn fx_modulus(pointer_bits: u32) -> int {
    if pointer_bits == 64 {
        0x1_0000_0000_0000_0000
    } else {
        0x1_0000_0000
    }
}

/// 2 to the power `n`, for `n` up to 64.
pub open spec fn pow2_int(n: nat) -> int
    decreases n,
{
    if n == 0 {
        1
    } else {
        2 * pow2_int((n - 1) as nat)
    }
}

/// The FxHash of two 32-bit words written in order, as `rustc_hash` computes
/// it on a target whose pointers have `pointer_bits` bits: starting from 0,
/// each word is added and the sum multiplied by the multiplier (both
/// wrapping at the pointer width), and the result is rotated left.
pub open spec fn fx_hash_u32_pair(a: u32, b: u32, pointer_bits: u32) -> u64 {
    let k = fx_multiplier(pointer_bits);
    let m = fx_modulus(pointer_bits);
    let r = fx_rotation(pointer_bits);
    let w: int = if pointer_bits == 64 {
        64
    } else {
        32
    };
    let h1 = (a * k) % m;
    let h2 = ((h1 + b) * k) % m;
    ((h2 * pow2_int(r as nat)) % m + h2 / pow2_int((w - r) as nat)) as u64
}

/// Hashes two 32-bit words with `rustc_hash::FxHasher`.
///
/// Writes `a` and then `b` into a default `FxHasher` and returns `finish`:
/// the hash starts at 0, each `write_u32` adds the word and multiplies by
/// the multiplier of the target's pointer width (`usize::BITS`), wrapping,
/// and `finish` rotates left, as `fx_hash_u32_pair` states.
#[verifier::external_body]
fn fx_hash_pair(a: u32, b: u32) -> (h: u64)
    ensures
        h == fx_hash_u32_pair(a, b, usize::BITS),
{
    let mut hasher = rustc_hash::FxHasher::default();
    std::hash::Hasher::write_u32(&mut hasher, a);
    std::hash::Hasher::write_u32(&mut hasher, b);
    std::hash::Hasher::finish(&hasher)
}

/// Protocol version of the messages this library sends.
pub const CURRENT_VERSION: u32 = 1;

/// Join request type: a fresh join or a rejoin.
#[derive(Clone, Copy, PartialEq, Eq, Structural, Debug)]
pub enum JoinType {
    /// Never connected to this session before.
    Fresh,
    /// Returning to a session left earlier.
    Rejoin {
        /// When we were last active in this session (Unix timestamp).
        last_active: i64,
        /// Cached entity count from when we left.
        entity_count: usize,
    },
}

/// Component data: inline bytes, or a reference to a blob for large data.
#[derive(Clone, PartialEq, Eq, Debug)]
pub enum ComponentData {
    /// Inline data for small components.
    Inline(Vec<u8>),
    /// Reference to a blob for large components.
    BlobRef {
        /// Blob hash.
        hash: Vec<u8>,
        /// Size of the blob in bytes.
        size: u64,
    },
}

/// Data above this many bytes travels as a blob.
pub const BLOB_THRESHOLD: usize = 65536;

impl ComponentData {
    /// Component data for `data`: inline up to `BLOB_THRESHOLD` bytes, a blob
    /// reference (hash to be filled in on upload) above it.
    pub fn new(data: Vec<u8>) -> (r: Self)
        ensures
            data@.len() > BLOB_THRESHOLD ==> (r matches ComponentData::BlobRef { hash, size }
                && hash@.len() == 0 && size == data@.len()),
            data@.len() <= BLOB_THRESHOLD ==> r == ComponentData::Inline(data),
    {
        if data.len() > BLOB_THRESHOLD {
            ComponentData::BlobRef { hash: Vec::new(), size: data.len() as u64 }
        } else {
            ComponentData::Inline(data)
        }
    }

    /// Whether this is a blob reference.
    pub fn is_blob(&self) -> (r: bool)
        ensures
            r == (*self is BlobRef),
    {
        match self {
            ComponentData::BlobRef { .. } => true,
            _ => false,
        }
    }

    /// The inline data, if any.
    pub fn as_inline(&self) -> (r: Option<&[u8]>)
        ensures
            match *self {
                ComponentData::Inline(d) => r matches Some(s) && s@ == d@,
                ComponentData::BlobRef { .. } => r is None,
            },
    {
        match self {
            ComponentData::Inline(data) => Some(data.as_slice()),
            _ => None,
        }
    }

    /// The blob reference (hash and size), if this is one.
    pub fn as_blob_ref(&self) -> (r: Option<(&[u8], u64)>)
        ensures
            match *self {
                ComponentData::BlobRef { hash, size } => r matches Some(p) && p.0@ == hash@ && p.1
                    == size,
                ComponentData::Inline(_) => r is None,
            },
    {
        match self {
            ComponentData::BlobRef { hash, size } => Some((hash.as_slice(), *size)),
            _ => None,
        }
    }
}

/// State of a single component.
#[derive(Clone, Debug)]
pub struct ComponentState {
    /// Discriminant identifying the component type.
    pub discriminant: u16,
    /// Serialized component data.
    pub data: ComponentData,
}

/// Complete state of a single entity.
#[derive(Clone, Debug)]
pub struct EntityState {
    /// Network ID of the entity.
    pub entity_id: u128,
    /// Node that originally created this entity.
    pub owner_node_id: NodeId,
    /// Vector clock when this entity was last updated.
    pub vector_clock: VectorClock,
    /// All components on this entity.
    pub components: Vec<ComponentState>,
    /// Whether this entity has been deleted (tombstone).
    pub is_deleted: bool,
}

/// Operations on one entity, as a unit of synchronization.
#[derive(Clone, Debug)]
pub struct EntityDelta {
    /// Network ID of the entity being updated.
    pub entity_id: u128,
    /// Node that generated this delta.
    pub node_id: NodeId,
    /// Vector clock at the time this delta was created.
    pub vector_clock: VectorClock,
    /// Component operations.
    pub operations: Vec<ComponentOp>,
}

/// Synchronization protocol messages.
#[derive(Clone, Debug)]
pub enum SyncMessage {
    /// Request to join the network and receive the full state.
    JoinRequest {
        /// ID of the node requesting to join.
        node_id: NodeId,
        /// Session ID to join.
        session_id: SessionId,
        /// Optional session secret for authentication.
        session_secret: Option<Vec<u8>>,
        /// Vector clock from when we last left this session (None: fresh).
        last_known_clock: Option<VectorClock>,
        /// Type of join.
        join_type: JoinType,
    },
    /// Complete world state sent to new peers.
    FullState {
        /// All entities in the world.
        entities: Vec<EntityState>,
        /// Current vector clock of the sending node.
        vector_clock: VectorClock,
    },
    /// Delta update for a single entity.
    EntityDelta {
        /// Network ID of the entity being updated.
        entity_id: u128,
        /// Node that generated this delta.
        node_id: NodeId,
        /// Vector clock at the time this delta was created.
        vector_clock: VectorClock,
        /// Component operations.
        operations: Vec<ComponentOp>,
    },
    /// Request for operations newer than our vector clock.
    SyncRequest {
        /// ID of the node requesting sync.
        node_id: NodeId,
        /// Our current vector clock.
        vector_clock: VectorClock,
    },
    /// Operations that the recipient is missing.
    MissingDeltas {
        /// Entity deltas that the recipient is missing.
        deltas: Vec<EntityDelta>,
    },
    /// Entity lock protocol messages.
    Lock(LockMessage),
}

impl EntityDelta {
    /// Create a new entity delta.
    pub fn new(entity_id: u128, node_id: NodeId, vector_clock: VectorClock, operations: Vec<ComponentOp>) -> (d: Self)
        ensures
            d == (EntityDelta { entity_id, node_id, vector_clock, operations }),
    {
        EntityDelta { entity_id, node_id, vector_clock, operations }
    }

    /// The `SyncMessage::EntityDelta` with the same content.
    pub fn into_message(self) -> (m: SyncMessage)
        ensures
            m == (SyncMessage::EntityDelta {
                entity_id: self.entity_id,
                node_id: self.node_id,
                vector_clock: self.vector_clock,
                operations: self.operations,
            }),
    {
        SyncMessage::EntityDelta {
            entity_id: self.entity_id,
            node_id: self.node_id,
            vector_clock: self.vector_clock,
            operations: self.operations,
        }
    }
}

/// Top-level message envelope with versioning.
#[derive(Clone, Debug)]
pub struct VersionedMessage {
    /// Protocol version.
    pub version: u32,
    /// The actual sync message.
    pub message: SyncMessage,
    /// Nonce for selective deduplication: fresh for lock messages, 0 for
    /// every other message.
    pub nonce: u32,
}

/// The nonce of a message: for a lock message, the low 32 bits of the FxHash
/// of a counter value and a millisecond time; 0 for any other message.
pub open spec fn message_nonce(message: SyncMessage, counter: u32, millis: u32) -> u32 {
    if message is Lock {
        fx_hash_u32_pair(counter, millis, usize::BITS) as u32
    } else {
        0
    }
}

/// The rolling counter of a node's lock messages: it makes the nonces of
/// lock messages sent within the same millisecond differ.
#[derive(Clone, Copy, PartialEq, Eq, Structural, Debug)]
pub struct NonceCounter {
    /// The value the next lock message uses.
    pub next: u32,
}

impl NonceCounter {
    /// A counter starting at 0.
    pub fn new() -> (c: Self)
        ensures
            c.next == 0,
    {
        NonceCounter { next: 0 }
    }
}

/// The counter after one step, wrapping around.
pub open spec fn counter_step(next: u32) -> u32 {
    if next == u32::MAX {
        0
    } else {
        (next + 1) as u32
    }
}

impl VersionedMessage {
    /// A message in the current version with the nonce that `counter` and
    /// `millis` give it.
    pub fn with_nonce_inputs(message: SyncMessage, counter: u32, millis: u32) -> (m: Self)
        ensures
            m.version == CURRENT_VERSION,
            m.message == message,
            m.nonce == message_nonce(message, counter, millis),
    {
        let nonce = match message {
            SyncMessage::Lock(_) => {
                let h = fx_hash_pair(counter, millis);
                h as u32
            },
            _ => 0,
        };
        VersionedMessage { version: CURRENT_VERSION, message, nonce }
    }

    /// A message in the current version. A lock message takes the counter's
    /// value, which then steps on, and gets the nonce of that value and the
    /// current time in milliseconds (low 32 bits); every other message gets
    /// nonce 0 and leaves the counter as it is.
    pub fn new(message: SyncMessage, counter: &mut NonceCounter) -> (m: Self)
        ensures
            m.version == CURRENT_VERSION,
            m.message == message,
            !(message is Lock) ==> m.nonce == 0 && *final(counter) == *old(counter),
            message is Lock ==> final(counter).next == counter_step(old(counter).next) && exists|
                millis: u32,
            | m.nonce == #[trigger] message_nonce(message, old(counter).next, millis),
    {
        match message {
            SyncMessage::Lock(_) => {
                let value = counter.next;
                counter.next = if value == u32::MAX {
                    0
                } else {
                    value + 1
                };
                let millis = now_millis() as u32;
                let m = VersionedMessage::with_nonce_inputs(message, value, millis);
                assert(m.nonce == message_nonce(message, value, millis));
                m
            },
            _ => VersionedMessage::with_nonce_inputs(message, 0, 0),
        }
    }
}

} // verus!
