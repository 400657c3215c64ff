//! The write buffer and the dirty-entity bookkeeping.
//!
//! Writes are buffered and flushed in batches. A buffered write of a
//! component (or an entity) is replaced by a later write of the same
//! component (or entity), so a batch holds at most one write of each. A
//! write can ask for an earlier flush: critical ones within a deadline,
//! immediate ones at once.

use std::collections::{HashMap, HashSet};
use vstd::prelude::*;

use crate::ids::{id_text, id_to_text, random_id};
use crate::persistence::error::PersistenceError;
use crate::text::str_eq;
use crate::time::{
    duration_as_millis, duration_ms, elapsed, elapsed_millis, now_millis, saturate_u64, saturating_u64,
    unix_now_secs,
};

verus! {

broadcast use vstd::std_specs::hash::group_hash_axioms;

/// Largest serialized component (or operation) the buffer accepts, in bytes.
pub const MAX_COMPONENT_SIZE_BYTES: usize = 10485760;

/// Deadline for flushing critical writes, in milliseconds.
pub const CRITICAL_FLUSH_DEADLINE_MS: u64 = 1000;

/// How urgently buffered writes are to be flushed.
#[derive(Clone, Copy, PartialEq, Eq, Structural, Debug, PartialOrd, Ord)]
pub enum FlushPriority {
    /// Flushed with the next batch.
    Normal,
    /// Flushed within the critical deadline.
    Critical,
    /// Flushed at once.
    Immediate,
}

/// The rank of a priority: `Normal` < `Critical` < `Immediate`.
pub open spec fn priority_rank(p: FlushPriority) -> int {
    match p {
        FlushPriority::Normal => 0,
        FlushPriority::Critical => 1,
        FlushPriority::Immediate => 2,
    }
}

impl FlushPriority {
    /// The rank of the priority: `Normal` < `Critical` < `Immediate`.
    pub fn rank(&self) -> (r: u8)
        ensures
            r == priority_rank(*self),
    {
        match self {
            FlushPriority::Normal => 0,
            FlushPriority::Critical => 1,
            FlushPriority::Immediate => 2,
        }
    }
}

/// Metadata of a stored entity.
#[derive(Clone, Debug)]
pub struct EntityData {
    /// Entity ID.
    pub id: u128,
    /// When the entity was created, in milliseconds since the Unix epoch.
    pub created_at: i64,
    /// When the entity was last updated, in milliseconds since the Unix epoch.
    pub updated_at: i64,
    /// Entity type name.
    pub entity_type: String,
}

/// A write to the database.
#[derive(Clone, Debug)]
pub enum PersistenceOp {
    /// Insert or update an entity.
    UpsertEntity { id: u128, data: EntityData },
    /// Insert or update a component.
    UpsertComponent { entity_id: u128, component_type: String, data: Vec<u8> },
    /// Log an operation for replay.
    LogOperation { node_id: u128, sequence: u64, operation: Vec<u8> },
    /// Update the vector clock.
    UpdateVectorClock { node_id: u128, counter: u64 },
    /// Delete an entity.
    DeleteEntity { id: u128 },
    /// Delete a component.
    DeleteComponent { entity_id: u128, component_type: String },
}

/// The priority an operation gets by default: writes of the replication
/// log and clock are critical, everything else normal.
pub open spec fn default_priority_of(op: PersistenceOp) -> FlushPriority {
    match op {
        PersistenceOp::LogOperation { .. } => FlushPriority::Critical,
        PersistenceOp::UpdateVectorClock { .. } => FlushPriority::Critical,
        _ => FlushPriority::Normal,
    }
}

impl PersistenceOp {
    /// The priority this operation gets by default.
    pub fn default_priority(&self) -> (p: FlushPriority)
        ensures
            p == default_priority_of(*self),
    {
        match self {
            PersistenceOp::LogOperation { .. } => FlushPriority::Critical,
            PersistenceOp::UpdateVectorClock { .. } => FlushPriority::Critical,
            _ => FlushPriority::Normal,
        }
    }
}

/// The key under which a later write replaces an earlier one: the entity
/// and component type of a component write, the entity of an entity write.
pub open spec fn coalesce_key(op: PersistenceOp) -> Option<(bool, u128, Seq<char>)> {
    match op {
        PersistenceOp::UpsertComponent { entity_id, component_type, .. } => Some(
            (true, entity_id, component_type@),
        ),
        PersistenceOp::UpsertEntity { id, .. } => Some((false, id, Seq::empty())),
        _ => None,
    }
}

/// Whether `op` is too large to buffer.
pub open spec fn oversized(op: PersistenceOp) -> bool {
    match op {
        PersistenceOp::UpsertComponent { data, .. } => data@.len() > MAX_COMPONENT_SIZE_BYTES,
        PersistenceOp::LogOperation { operation, .. } => operation@.len() > MAX_COMPONENT_SIZE_BYTES,
        _ => false,
    }
}

/// The index of the first buffered write with key `k` (`ops.len()` if none).
pub open spec fn first_with_key(ops: Seq<PersistenceOp>, k: (bool, u128, Seq<char>)) -> int
    decreases ops.len(),
{
    if ops.len() == 0 {
        0
    } else if coalesce_key(ops[0]) == Some(k) {
        0
    } else {
        1 + first_with_key(ops.drop_first(), k)
    }
}

/// No two buffered writes share a key.
pub open spec fn keys_unique(ops: Seq<PersistenceOp>) -> bool {
    forall|i: int, j: int|
        0 <= i < j < ops.len() && coalesce_key(ops[i]) is Some ==> coalesce_key(ops[i]) != coalesce_key(
            ops[j],
        )
}

/// Buffered writes waiting to be flushed.
#[derive(Debug)]
pub struct WriteBuffer {
    /// Pending operations, in the order they are to be applied.
    pub pending_operations: Vec<PersistenceOp>,
    /// When the buffer was last flushed, in milliseconds since the epoch.
    pub last_flush: u64,
    /// Number of pending operations that triggers a flush.
    pub max_operations: usize,
    /// Highest priority among the operations added since the last flush.
    pub highest_priority: FlushPriority,
    /// When the first critical operation was added since the last flush.
    pub first_critical_time: Option<u64>,
}

/// Whether a buffer with the given state is due for a flush at `now`.
pub open spec fn flush_due(
    len: nat,
    max_operations: usize,
    last_flush: u64,
    highest: FlushPriority,
    first_critical: Option<u64>,
    now: u64,
    interval_ms: u64,
) -> bool {
    ||| highest == FlushPriority::Immediate
    ||| (highest == FlushPriority::Critical && first_critical is Some && elapsed(
        now,
        first_critical->0,
    ) >= CRITICAL_FLUSH_DEADLINE_MS)
    ||| len >= max_operations
    ||| elapsed(now, last_flush) >= interval_ms
}

/// Whether buffering `op` with `priority` at time `now` takes the buffer
/// from `before` to `after` with result `r`. An operation larger than
/// `MAX_COMPONENT_SIZE_BYTES` is refused and changes nothing. A write of a
/// component (or entity) already pending replaces the pending one in place;
/// any other operation is appended. Either way the buffer's priority rises to
/// the operation's own, and the critical deadline starts if it is the first
/// critical one: priority is tracked apart from the operations.
pub open spec fn buffered(
    before: WriteBuffer,
    op: PersistenceOp,
    priority: FlushPriority,
    now: u64,
    after: WriteBuffer,
    r: Result<(), PersistenceError>,
) -> bool {
    &&& (r is Err <==> oversized(op))
    &&& (r matches Err(e) ==> match op {
        PersistenceOp::UpsertComponent { component_type, data, .. } => e matches PersistenceError::ComponentTooLarge {
            component_type: t,
            size_bytes,
            max_bytes,
        } && t@ == component_type@ && size_bytes == data@.len() && max_bytes == MAX_COMPONENT_SIZE_BYTES,
        PersistenceOp::LogOperation { operation, .. } => e matches PersistenceError::ComponentTooLarge {
            component_type: t,
            size_bytes,
            max_bytes,
        } && t@ == "Operation"@ && size_bytes == operation@.len() && max_bytes == MAX_COMPONENT_SIZE_BYTES,
        _ => false,
    })
    &&& (r is Err ==> after == before)
    &&& (r is Ok && coalesce_key(op) is Some && first_with_key(
        before.pending_operations@,
        coalesce_key(op)->0,
    ) < before.pending_operations@.len() ==> {
        &&& after.pending_operations@ == before.pending_operations@.update(
            first_with_key(before.pending_operations@, coalesce_key(op)->0),
            op,
        )
    })
    &&& (r is Ok && (coalesce_key(op) is None || first_with_key(before.pending_operations@, coalesce_key(op)->0)
        == before.pending_operations@.len()) ==> after.pending_operations@
        == before.pending_operations@.push(op))
    &&& (r is Ok ==> {
        &&& after.highest_priority == (if priority_rank(priority) > priority_rank(before.highest_priority) {
            priority
        } else {
            before.highest_priority
        })
        &&& after.first_critical_time == (if priority_rank(priority) >= 1 && before.first_critical_time is None {
            Some(now)
        } else {
            before.first_critical_time
        })
        &&& after.last_flush == before.last_flush
        &&& after.max_operations == before.max_operations
    })
}


impl WriteBuffer {
    /// An empty buffer last flushed at `now`.
    pub fn new_at(max_operations: usize, now: u64) -> (b: Self)
        ensures
            b.pending_operations@.len() == 0,
            b.last_flush == now,
            b.max_operations == max_operations,
            b.highest_priority == FlushPriority::Normal,
            b.first_critical_time is None,
    {
        WriteBuffer {
            pending_operations: Vec::new(),
            last_flush: now,
            max_operations,
            highest_priority: FlushPriority::Normal,
            first_critical_time: None,
        }
    }

    /// An empty buffer last flushed now.
    pub fn new(max_operations: usize) -> (b: Self)
        ensures
            b.pending_operations@.len() == 0,
            b.max_operations == max_operations,
            b.highest_priority == FlushPriority::Normal,
            b.first_critical_time is None,
    {
        WriteBuffer::new_at(max_operations, now_millis())
    }

    /// The index of the first pending write with the same key as `op`.
    fn find_key(&self, op: &PersistenceOp) -> (r: Option<usize>)
        ensures
            match r {
                Some(p) => coalesce_key(*op) is Some && p as int == first_with_key(
                    self.pending_operations@,
                    coalesce_key(*op)->0,
                ) && p < self.pending_operations@.len(),
                None => coalesce_key(*op) is None || first_with_key(
                    self.pending_operations@,
                    coalesce_key(*op)->0,
                ) == self.pending_operations@.len(),
            },
    {
        let ops = &self.pending_operations;
        let mut i: usize = 0;
        while i < ops.len()
            invariant
                i <= ops@.len(),
                ops@ == self.pending_operations@,
                coalesce_key(*op) is Some ==> forall|j: int|
                    0 <= j < i ==> coalesce_key(ops@[j]) != coalesce_key(*op),
            decreases ops@.len() - i,
        {
            let same = match (op, &ops[i]) {
                (
                    PersistenceOp::UpsertComponent { entity_id: a, component_type: ta, .. },
                    PersistenceOp::UpsertComponent { entity_id: b, component_type: tb, .. },
                ) => *a == *b && *ta == *tb,
                (PersistenceOp::UpsertEntity { id: a, .. }, PersistenceOp::UpsertEntity { id: b, .. }) => {
                    *a == *b
                },
                _ => false,
            };
            proof {
                if same {
                    assert(coalesce_key(ops@[i as int]) == coalesce_key(*op));
                } else {
                    assert(coalesce_key(*op) is Some ==> coalesce_key(ops@[i as int]) != coalesce_key(*op));
                }
            }
            if same {
                proof {
                    let k = coalesce_key(*op)->0;
                    lemma_first_with_key(ops@, k, i as int);
                }
                return Some(i);
            }
            i = i + 1;
        }
        proof {
            if coalesce_key(*op) is Some {
                let k = coalesce_key(*op)->0;
                lemma_first_with_key(ops@, k, ops@.len() as int);
            }
        }
        None
    }

    /// Buffer an operation with a priority at time `now`.
    ///
    /// An operation larger than `MAX_COMPONENT_SIZE_BYTES` is refused. A
    /// write of a component (or entity) already pending replaces the pending
    /// one in place and leaves the priorities as they are; any other
    /// operation is appended, raising the buffer's priority to its own and
    /// starting the critical deadline if it is the first critical one.
    pub fn add_with_priority_at(&mut self, op: PersistenceOp, priority: FlushPriority, now: u64) -> (r:
        Result<(), PersistenceError>)
        ensures
            buffered(*old(self), op, priority, now, *final(self), r),
    {
        match &op {
            PersistenceOp::UpsertComponent { data, component_type, .. } => {
                if data.len() > MAX_COMPONENT_SIZE_BYTES {
                    return Err(
                        PersistenceError::ComponentTooLarge {
                            component_type: component_type.clone(),
                            size_bytes: data.len(),
                            max_bytes: MAX_COMPONENT_SIZE_BYTES,
                        },
                    );
                }
            },
            PersistenceOp::LogOperation { operation, .. } => {
                if operation.len() > MAX_COMPONENT_SIZE_BYTES {
                    return Err(
                        PersistenceError::ComponentTooLarge {
                            component_type: String::from_str("Operation"),
                            size_bytes: operation.len(),
                            max_bytes: MAX_COMPONENT_SIZE_BYTES,
                        },
                    );
                }
            },
            _ => {},
        }
        if priority.rank() > self.highest_priority.rank() {
            self.highest_priority = priority;
        }
        if priority.rank() >= 1 && self.first_critical_time.is_none() {
            self.first_critical_time = Some(now);
        }
        match self.find_key(&op) {
            Some(pos) => {
                self.pending_operations.set(pos, op);
                return Ok(());
            },
            None => {},
        }
        self.pending_operations.push(op);
        Ok(())
    }

    /// Buffer an operation with a priority now.
    pub fn add_with_priority(&mut self, op: PersistenceOp, priority: FlushPriority) -> (r: Result<
        (),
        PersistenceError,
    >)
        ensures
            exists|now: u64| buffered(*old(self), op, priority, now, *final(self), r),
            r is Err <==> oversized(op),
            r is Err ==> *final(self) == *old(self),
            r is Ok ==> final(self).pending_operations@.contains(op),
            r is Ok && coalesce_key(op) is None ==> final(self).pending_operations@
                == old(self).pending_operations@.push(op),
            keys_unique(old(self).pending_operations@) ==> keys_unique(
                final(self).pending_operations@,
            ),
    {
        let ghost old_ops = self.pending_operations@;
        let now = now_millis();
        let r = self.add_with_priority_at(op, priority, now);
        proof {
            if r is Ok {
                if coalesce_key(op) is Some && first_with_key(old_ops, coalesce_key(op)->0) < old_ops.len() {
                    let p = first_with_key(old_ops, coalesce_key(op)->0);
                    lemma_first_with_key_props(old_ops, coalesce_key(op)->0);
                    assert(self.pending_operations@ == old_ops.update(p, op));
                    assert(self.pending_operations@[p] == op);
                } else {
                    lemma_first_with_key_props(old_ops, coalesce_key(op)->0);
                    assert(self.pending_operations@[old_ops.len() as int] == op);
                }
            }
            lemma_add_keeps_keys_unique(old_ops, op, self.pending_operations@);
        }
        r
    }

    /// Buffer an operation with normal priority.
    pub fn add(&mut self, op: PersistenceOp) -> (r: Result<(), PersistenceError>)
        ensures
            exists|now: u64| buffered(*old(self), op, FlushPriority::Normal, now, *final(self), r),
            r is Err <==> oversized(op),
            r is Err ==> *final(self) == *old(self),
            r is Ok ==> final(self).pending_operations@.contains(op),
            keys_unique(old(self).pending_operations@) ==> keys_unique(
                final(self).pending_operations@,
            ),
    {
        self.add_with_priority(op, FlushPriority::Normal)
    }

    /// Buffer an operation with its default priority.
    pub fn add_with_default_priority(&mut self, op: PersistenceOp) -> (r: Result<(), PersistenceError>)
        ensures
            exists|now: u64| buffered(*old(self), op, default_priority_of(op), now, *final(self), r),
            r is Err <==> oversized(op),
            r is Err ==> *final(self) == *old(self),
            r is Ok ==> final(self).pending_operations@.contains(op),
            keys_unique(old(self).pending_operations@) ==> keys_unique(
                final(self).pending_operations@,
            ),
    {
        let priority = op.default_priority();
        self.add_with_priority(op, priority)
    }

    /// Take every pending operation, in order, and reset the priorities.
    pub fn take_operations(&mut self) -> (ops: Vec<PersistenceOp>)
        ensures
            ops@ == old(self).pending_operations@,
            final(self).pending_operations@.len() == 0,
            final(self).highest_priority == FlushPriority::Normal,
            final(self).first_critical_time is None,
            final(self).last_flush == old(self).last_flush,
            final(self).max_operations == old(self).max_operations,
    {
        self.highest_priority = FlushPriority::Normal;
        self.first_critical_time = None;
        let mut taken: Vec<PersistenceOp> = Vec::new();
        std::mem::swap(&mut taken, &mut self.pending_operations);
        taken
    }

    /// Whether the buffer is due for a flush at `now`, given the periodic
    /// flush interval in milliseconds.
    pub fn should_flush_at(&self, now: u64, flush_interval_ms: u64) -> (r: bool)
        ensures
            r == flush_due(
                self.pending_operations@.len(),
                self.max_operations,
                self.last_flush,
                self.highest_priority,
                self.first_critical_time,
                now,
                flush_interval_ms,
            ),
    {
        if self.highest_priority.rank() == 2 {
            return true;
        }
        if self.highest_priority.rank() == 1 {
            match self.first_critical_time {
                Some(t) => {
                    if elapsed_millis(now, t) >= CRITICAL_FLUSH_DEADLINE_MS {
                        return true;
                    }
                },
                None => {},
            }
        }
        self.pending_operations.len() >= self.max_operations || elapsed_millis(now, self.last_flush)
            >= flush_interval_ms
    }

    /// Whether the buffer is due for a flush now.
    pub fn should_flush(&self, flush_interval: std::time::Duration) -> (r: bool)
        ensures
            self.highest_priority == FlushPriority::Immediate ==> r,
            self.pending_operations@.len() >= self.max_operations ==> r,
            exists|now: u64|
                r == #[trigger] flush_due(
                    self.pending_operations@.len(),
                    self.max_operations,
                    self.last_flush,
                    self.highest_priority,
                    self.first_critical_time,
                    now,
                    saturate_u64(duration_ms(flush_interval)),
                ),
    {
        let now = now_millis();
        let ms = saturating_u64(duration_as_millis(flush_interval));
        let r = self.should_flush_at(now, ms);
        assert(r == flush_due(
            self.pending_operations@.len(),
            self.max_operations,
            self.last_flush,
            self.highest_priority,
            self.first_critical_time,
            now,
            ms,
        ));
        r
    }

    /// The number of pending operations.
    pub fn len(&self) -> (n: usize)
        ensures
            n == self.pending_operations@.len(),
    {
        self.pending_operations.len()
    }

    /// Whether nothing is pending.
    pub fn is_empty(&self) -> (r: bool)
        ensures
            r == (self.pending_operations@.len() == 0),
    {
        self.pending_operations.len() == 0
    }
}

/// `first_with_key` is the first index whose write has the key.
proof fn lemma_first_with_key(ops: Seq<PersistenceOp>, k: (bool, u128, Seq<char>), j: int)
    requires
        0 <= j <= ops.len(),
        forall|q: int| 0 <= q < j ==> coalesce_key(ops[q]) != Some(k),
        j == ops.len() || coalesce_key(ops[j]) == Some(k),
    ensures
        first_with_key(ops, k) == j,
    decreases j,
{
    if j > 0 {
        lemma_first_with_key(ops.drop_first(), k, j - 1);
    }
}

/// The first index with a key holds that key, and none before it does.
proof fn lemma_first_with_key_props(ops: Seq<PersistenceOp>, k: (bool, u128, Seq<char>))
    ensures
        0 <= first_with_key(ops, k) <= ops.len(),
        first_with_key(ops, k) < ops.len() ==> coalesce_key(ops[first_with_key(ops, k)]) == Some(k),
        forall|q: int| 0 <= q < first_with_key(ops, k) ==> coalesce_key(ops[q]) != Some(k),
    decreases ops.len(),
{
    if ops.len() > 0 && coalesce_key(ops[0]) != Some(k) {
        lemma_first_with_key_props(ops.drop_first(), k);
        assert forall|q: int| 0 <= q < first_with_key(ops, k) implies coalesce_key(ops[q]) != Some(k) by {
            if q > 0 {
                assert(ops[q] == ops.drop_first()[q - 1]);
            }
        }
    }
}

/// Adding to a buffer whose keys are unique keeps them unique: a write whose
/// key is pending replaces the pending one, any other is appended.
pub proof fn lemma_add_keeps_keys_unique(old_ops: Seq<PersistenceOp>, op: PersistenceOp, new_ops: Seq<PersistenceOp>)
    requires
        new_ops == old_ops || (coalesce_key(op) is Some && first_with_key(old_ops, coalesce_key(op)->0)
            < old_ops.len() && new_ops == old_ops.update(first_with_key(old_ops, coalesce_key(op)->0), op)) || ((
        coalesce_key(op) is None || first_with_key(old_ops, coalesce_key(op)->0) == old_ops.len())
            && new_ops == old_ops.push(op)),
    ensures
        keys_unique(old_ops) ==> keys_unique(new_ops),
{
    if keys_unique(old_ops) && new_ops != old_ops {
        if coalesce_key(op) is Some {
            let k = coalesce_key(op)->0;
            lemma_first_with_key_props(old_ops, k);
            if first_with_key(old_ops, k) < old_ops.len() && new_ops == old_ops.update(
                first_with_key(old_ops, k),
                op,
            ) {
                let p = first_with_key(old_ops, k);
                assert forall|i: int, j: int|
                    0 <= i < j < new_ops.len() && coalesce_key(new_ops[i]) is Some implies coalesce_key(
                        new_ops[i],
                    ) != coalesce_key(new_ops[j]) by {
                    assert(coalesce_key(new_ops[p]) == coalesce_key(old_ops[p]));
                    if i != p && j != p {
                        assert(new_ops[i] == old_ops[i] && new_ops[j] == old_ops[j]);
                    } else if i == p {
                        assert(new_ops[j] == old_ops[j]);
                    } else {
                        assert(new_ops[i] == old_ops[i]);
                    }
                }
            } else {
                assert forall|i: int, j: int|
                    0 <= i < j < new_ops.len() && coalesce_key(new_ops[i]) is Some implies coalesce_key(
                        new_ops[i],
                    ) != coalesce_key(new_ops[j]) by {
                    if j == old_ops.len() {
                        assert(new_ops[i] == old_ops[i]);
                        assert(coalesce_key(old_ops[i]) != Some(k));
                    } else {
                        assert(new_ops[i] == old_ops[i] && new_ops[j] == old_ops[j]);
                    }
                }
            }
        } else {
            assert forall|i: int, j: int|
                0 <= i < j < new_ops.len() && coalesce_key(new_ops[i]) is Some implies coalesce_key(
                    new_ops[i],
                ) != coalesce_key(new_ops[j]) by {
                if j == old_ops.len() {
                    assert(new_ops[i] == old_ops[i]);
                } else {
                    assert(new_ops[i] == old_ops[i] && new_ops[j] == old_ops[j]);
                }
            }
        }
    }
}

/// Entities with changes not yet persisted.
#[derive(Debug)]
pub struct DirtyEntities {
    /// The dirty entities.
    pub entities: HashSet<u128>,
    /// The changed component types of each dirty entity, each once.
    pub components: HashMap<u128, Vec<String>>,
    /// When each dirty entity last changed, in milliseconds since the epoch.
    pub last_modified: HashMap<u128, u64>,
}

/// The component type names held by `v`.
pub open spec fn name_set(v: Seq<String>) -> Set<Seq<char>> {
    v.map_values(|s: String| s@).to_set()
}

impl DirtyEntities {
    /// No dirty entity.
    pub fn new() -> (d: Self)
        ensures
            d.entities@ == Set::<u128>::empty(),
            d.components@ == Map::<u128, Vec<String>>::empty(),
            d.last_modified@ == Map::<u128, u64>::empty(),
    {
        DirtyEntities { entities: HashSet::new(), components: HashMap::new(), last_modified: HashMap::new() }
    }

    /// Mark a component of an entity as changed at time `now`.
    pub fn mark_dirty_at(&mut self, entity_id: u128, component_type: &str, now: u64)
        ensures
            final(self).entities@ == old(self).entities@.insert(entity_id),
            final(self).components@.dom() == old(self).components@.dom().insert(entity_id),
            forall|e: u128|
                e != entity_id && #[trigger] old(self).components@.contains_key(e)
                    ==> final(self).components@[e] == old(self).components@[e],
            name_set(final(self).components@[entity_id]@) == (if old(self).components@.contains_key(
                entity_id,
            ) {
                name_set(old(self).components@[entity_id]@)
            } else {
                Set::<Seq<char>>::empty()
            }).insert(component_type@),
            final(self).last_modified@ == old(self).last_modified@.insert(entity_id, now),
    {
        self.entities.insert(entity_id);
        let mut names: Vec<String> = match self.components.remove(&entity_id) {
            Some(v) => v,
            None => Vec::new(),
        };
        let ghost start = names@;
        let mut found = false;
        let mut i: usize = 0;
        while i < names.len()
            invariant
                i <= names@.len(),
                names@ == start,
                found <==> exists|q: int| 0 <= q < i && names@[q]@ == component_type@,
            decreases names@.len() - i,
        {
            if str_eq(names[i].as_str(), component_type) {
                found = true;
            }
            i = i + 1;
        }
        if !found {
            names.push(String::from_str(component_type));
        }
        proof {
            let before = name_set(start);
            let mv = names@.map_values(|s: String| s@);
            let sv = start.map_values(|s: String| s@);
            assert(name_set(names@) == mv.to_set());
            assert(before == sv.to_set());
            assert(mv.to_set() =~= sv.to_set().insert(component_type@)) by {
                assert forall|x: Seq<char>| mv.to_set().contains(x) <==> sv.to_set().insert(
                    component_type@,
                ).contains(x) by {
                    if mv.to_set().contains(x) {
                        assert(mv.contains(x));
                        let q = choose|q: int| 0 <= q < mv.len() && #[trigger] mv[q] == x;
                        if q < sv.len() {
                            assert(sv[q] == x);
                            assert(sv.contains(x));
                        }
                    }
                    if sv.to_set().contains(x) {
                        assert(sv.contains(x));
                        let q = choose|q: int| 0 <= q < sv.len() && #[trigger] sv[q] == x;
                        assert(mv[q] == x);
                        assert(mv.contains(x));
                    }
                    if x == component_type@ {
                        if found {
                            let q = choose|q: int| 0 <= q < start.len() && #[trigger] start[q]@ == component_type@;
                            assert(mv[q] == x);
                            assert(mv.contains(x));
                        } else {
                            assert(mv[mv.len() - 1] == x);
                            assert(mv.contains(x));
                        }
                    }
                }
            }
        }
        self.components.insert(entity_id, names);
        self.last_modified.insert(entity_id, now);
    }

    /// Mark a component of an entity as changed now.
    pub fn mark_dirty(&mut self, entity_id: u128, component_type: &str)
        ensures
            final(self).entities@ == old(self).entities@.insert(entity_id),
            final(self).components@.dom() == old(self).components@.dom().insert(entity_id),
            name_set(final(self).components@[entity_id]@).contains(component_type@),
            final(self).last_modified@.dom() == old(self).last_modified@.dom().insert(entity_id),
    {
        self.mark_dirty_at(entity_id, component_type, now_millis());
    }

    /// Forget every dirty entity.
    pub fn clear(&mut self)
        ensures
            final(self).entities@ == Set::<u128>::empty(),
            final(self).components@ == Map::<u128, Vec<String>>::empty(),
            final(self).last_modified@ == Map::<u128, u64>::empty(),
    {
        self.entities.clear();
        self.components.clear();
        self.last_modified.clear();
    }

    /// Whether an entity is dirty.
    pub fn is_dirty(&self, entity_id: &u128) -> (r: bool)
        ensures
            r == self.entities@.contains(*entity_id),
    {
        self.entities.contains(entity_id)
    }

    /// The number of dirty entities.
    pub fn count(&self) -> (n: usize)
        ensures
            n == self.entities@.len(),
    {
        self.entities.len()
    }
}

impl Default for DirtyEntities {
    fn default() -> (d: Self)
        ensures
            d.entities@ == Set::<u128>::empty(),
    {
        DirtyEntities::new()
    }
}


/// Crash-detection record of one run of the program: its identifier, when
/// it started (Unix seconds), and whether it shut down cleanly.
#[derive(Clone, Debug)]
pub struct SessionState {
    /// Identifier of the run, in the usual UUID text form.
    pub session_id: String,
    /// Start time, Unix seconds.
    pub started_at: i64,
    /// Whether the run shut down cleanly.
    pub clean_shutdown: bool,
}

impl SessionState {
    /// A record of a run starting now, with a fresh random identifier and no
    /// clean shutdown yet.
    pub fn new() -> (s: Self)
        ensures
            !s.clean_shutdown,
            exists|id: u128| s.session_id@ == id_text(id),
    {
        let id = random_id();
        SessionState { session_id: id_to_text(id), started_at: unix_now_secs(), clean_shutdown: false }
    }
}

impl Default for SessionState {
    fn default() -> (s: Self)
        ensures
            !s.clean_shutdown,
            exists|id: u128| s.session_id@ == id_text(id),
    {
        SessionState::new()
    }
}


/// Whether two writes are to the same target: the same entity for entity
/// writes, the same entity and component type for component writes.
pub open spec fn same_target(a: PersistenceOp, b: PersistenceOp) -> bool {
    match (a, b) {
        (PersistenceOp::UpsertEntity { id: x, .. }, PersistenceOp::UpsertEntity { id: y, .. }) => x == y,
        (
            PersistenceOp::UpsertComponent { entity_id: e1, component_type: c1, .. },
            PersistenceOp::UpsertComponent { entity_id: e2, component_type: c2, .. },
        ) => e1 == e2 && c1@ == c2@,
        _ => false,
    }
}

/// Two writes share a coalescing key exactly when they are to the same
/// target.
proof fn lemma_key_is_target(a: PersistenceOp, b: PersistenceOp)
    ensures
        (coalesce_key(b) is Some && coalesce_key(a) == coalesce_key(b)) == same_target(a, b),
{
}

/// Buffering coalesces only writes to the same target: a write whose target
/// has no pending write is appended after every pending one; otherwise the
/// buffer keeps its length and holds the new write. Either way every pending
/// write to another target stays where it was.
pub proof fn lemma_buffer_coalesces_same_target_only(
    before: WriteBuffer,
    op: PersistenceOp,
    priority: FlushPriority,
    now: u64,
    after: WriteBuffer,
    r: Result<(), PersistenceError>,
)
    requires
        buffered(before, op, priority, now, after, r),
        r is Ok,
    ensures
        (forall|i: int|
            0 <= i < before.pending_operations@.len() ==> !same_target(
                #[trigger] before.pending_operations@[i],
                op,
            )) ==> after.pending_operations@ == before.pending_operations@.push(op),
        (exists|i: int|
            0 <= i < before.pending_operations@.len() && same_target(
                #[trigger] before.pending_operations@[i],
                op,
            )) ==> after.pending_operations@.len() == before.pending_operations@.len()
            && after.pending_operations@.contains(op),
        forall|i: int|
            0 <= i < before.pending_operations@.len() && !same_target(
                #[trigger] before.pending_operations@[i],
                op,
            ) ==> after.pending_operations@[i] == before.pending_operations@[i],
{
    let ops = before.pending_operations@;
    match coalesce_key(op) {
        None => {
            assert forall|i: int| 0 <= i < ops.len() implies !same_target(#[trigger] ops[i], op) by {
                lemma_key_is_target(ops[i], op);
            }
            assert(after.pending_operations@.push(op).len() > 0);
            assert(after.pending_operations@[ops.len() as int] == op);
        },
        Some(k) => {
            lemma_first_with_key_props(ops, k);
            let f = first_with_key(ops, k);
            if f < ops.len() {
                lemma_key_is_target(ops[f], op);
                assert(same_target(ops[f], op));
                assert(after.pending_operations@ == ops.update(f, op));
                assert(after.pending_operations@[f] == op);
                assert(after.pending_operations@.contains(op));
            } else {
                assert forall|i: int| 0 <= i < ops.len() implies !same_target(#[trigger] ops[i], op) by {
                    lemma_key_is_target(ops[i], op);
                }
                assert(after.pending_operations@ == ops.push(op));
                assert(after.pending_operations@[ops.len() as int] == op);
            }
        },
    }
}

} // verus!
