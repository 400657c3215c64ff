//! Operations on replicated components.
//!
//! Each kind of operation goes with one merge rule: `SetValue` is last-write-wins
//! by vector clock (node ID breaking ties between concurrent writes),
//! `SetAdd`/`SetRemove` act on an observed-remove set, `SequenceInsert` and
//! `SequenceDelete` on a replicated growable array, and `Delete` removes the
//! whole entity, leaving a tombstone.

use vstd::prelude::*;

use crate::ids::{random_id, NodeId};
use crate::networking::messages::ComponentData;
use crate::networking::vector_clock::{count, VectorClock};

verus! {

/// Component operations for replicated synchronization.
#[derive(Clone, Debug)]
pub enum ComponentOp {
    /// Set a component value (last-write-wins).
    SetValue {
        /// Discriminant identifying the component type.
        discriminant: u16,
        /// Component data (inline or blob reference).
        data: ComponentData,
        /// Vector clock when this set operation was created.
        vector_clock: VectorClock,
    },
    /// Add an element to an observed-remove set.
    SetAdd {
        /// Discriminant identifying the component type.
        discriminant: u16,
        /// Unique ID for this add operation.
        operation_id: u128,
        /// Element being added (serialized).
        element: Vec<u8>,
        /// Vector clock when this add was created.
        vector_clock: VectorClock,
    },
    /// Remove an element from an observed-remove set, by the IDs of the adds
    /// being removed.
    SetRemove {
        /// Discriminant identifying the component type.
        discriminant: u16,
        /// IDs of the add operations being removed.
        removed_ids: Vec<u128>,
        /// Vector clock when this remove was created.
        vector_clock: VectorClock,
    },
    /// Insert an element into a sequence after a given element.
    SequenceInsert {
        /// Discriminant identifying the component type.
        discriminant: u16,
        /// Unique ID for this insert operation.
        operation_id: u128,
        /// ID of the element to insert after (None = beginning).
        after_id: Option<u128>,
        /// Element being inserted (serialized).
        element: Vec<u8>,
        /// Vector clock when this insert was created.
        vector_clock: VectorClock,
    },
    /// Delete an element from a sequence (it stays as a tombstone).
    SequenceDelete {
        /// Discriminant identifying the component type.
        discriminant: u16,
        /// ID of the element to delete.
        element_id: u128,
        /// Vector clock when this delete was created.
        vector_clock: VectorClock,
    },
    /// Delete an entire entity.
    Delete {
        /// Vector clock when this delete was created.
        vector_clock: VectorClock,
    },
}

/// The vector clock an operation carries.
pub open spec fn op_clock(op: ComponentOp) -> Map<NodeId, u64> {
    match op {
        ComponentOp::SetValue { vector_clock, .. } => vector_clock@,
        ComponentOp::SetAdd { vector_clock, .. } => vector_clock@,
        ComponentOp::SetRemove { vector_clock, .. } => vector_clock@,
        ComponentOp::SequenceInsert { vector_clock, .. } => vector_clock@,
        ComponentOp::SequenceDelete { vector_clock, .. } => vector_clock@,
        ComponentOp::Delete { vector_clock } => vector_clock@,
    }
}

impl ComponentOp {
    /// The component discriminant of the operation (`None` for `Delete`).
    pub fn discriminant(&self) -> (r: Option<u16>)
        ensures
            r == (match *self {
                ComponentOp::SetValue { discriminant, .. } => Some(discriminant),
                ComponentOp::SetAdd { discriminant, .. } => Some(discriminant),
                ComponentOp::SetRemove { discriminant, .. } => Some(discriminant),
                ComponentOp::SequenceInsert { discriminant, .. } => Some(discriminant),
                ComponentOp::SequenceDelete { discriminant, .. } => Some(discriminant),
                ComponentOp::Delete { .. } => None,
            }),
    {
        match self {
            ComponentOp::SetValue { discriminant, .. } => Some(*discriminant),
            ComponentOp::SetAdd { discriminant, .. } => Some(*discriminant),
            ComponentOp::SetRemove { discriminant, .. } => Some(*discriminant),
            ComponentOp::SequenceInsert { discriminant, .. } => Some(*discriminant),
            ComponentOp::SequenceDelete { discriminant, .. } => Some(*discriminant),
            ComponentOp::Delete { .. } => None,
        }
    }

    /// The vector clock of the operation.
    pub fn vector_clock(&self) -> (r: &VectorClock)
        ensures
            r@ == op_clock(*self),
    {
        match self {
            ComponentOp::SetValue { vector_clock, .. } => vector_clock,
            ComponentOp::SetAdd { vector_clock, .. } => vector_clock,
            ComponentOp::SetRemove { vector_clock, .. } => vector_clock,
            ComponentOp::SequenceInsert { vector_clock, .. } => vector_clock,
            ComponentOp::SequenceDelete { vector_clock, .. } => vector_clock,
            ComponentOp::Delete { vector_clock } => vector_clock,
        }
    }

    /// Whether this is a `SetValue` operation (last-write-wins).
    pub fn is_set(&self) -> (r: bool)
        ensures
            r == (*self is SetValue),
    {
        match self {
            ComponentOp::SetValue { .. } => true,
            _ => false,
        }
    }

    /// Whether this is an observed-remove set operation.
    pub fn is_or_set(&self) -> (r: bool)
        ensures
            r == (*self is SetAdd || *self is SetRemove),
    {
        match self {
            ComponentOp::SetAdd { .. } => true,
            ComponentOp::SetRemove { .. } => true,
            _ => false,
        }
    }

    /// Whether this is a sequence operation.
    pub fn is_sequence(&self) -> (r: bool)
        ensures
            r == (*self is SequenceInsert || *self is SequenceDelete),
    {
        match self {
            ComponentOp::SequenceInsert { .. } => true,
            ComponentOp::SequenceDelete { .. } => true,
            _ => false,
        }
    }

    /// Whether this is an entity deletion.
    pub fn is_delete(&self) -> (r: bool)
        ensures
            r == (*self is Delete),
    {
        match self {
            ComponentOp::Delete { .. } => true,
            _ => false,
        }
    }
}

/// Builder of operations: each operation it builds carries the builder's
/// clock advanced by one tick of the builder's node.
pub struct ComponentOpBuilder {
    node_id: NodeId,
    vector_clock: VectorClock,
}

impl View for ComponentOpBuilder {
    type V = (NodeId, Map<NodeId, u64>);

    closed spec fn view(&self) -> (NodeId, Map<NodeId, u64>) {
        (self.node_id, self.vector_clock@)
    }
}

/// The clock of the builder `b` advanced by one tick of its node.
pub open spec fn ticked(b: (NodeId, Map<NodeId, u64>)) -> Map<NodeId, u64> {
    b.1.insert(b.0, (count(b.1, b.0) + 1) as u64)
}

impl ComponentOpBuilder {
    /// Create a new operation builder.
    pub fn new(node_id: NodeId, vector_clock: VectorClock) -> (b: Self)
        ensures
            b@ == (node_id, vector_clock@),
    {
        ComponentOpBuilder { node_id, vector_clock }
    }

    /// The builder's clock after one tick of its node.
    fn tick(self) -> (c: VectorClock)
        requires
            count(self@.1, self@.0) < u64::MAX,
        ensures
            c@ == ticked(self@),
    {
        let mut clock = self.vector_clock;
        clock.increment(self.node_id);
        clock
    }

    /// Build a `SetValue` operation (last-write-wins).
    pub fn set(self, discriminant: u16, data: ComponentData) -> (op: ComponentOp)
        requires
            count(self@.1, self@.0) < u64::MAX,
        ensures
            op matches ComponentOp::SetValue { discriminant: d, data: x, vector_clock } && d == discriminant
                && x == data && vector_clock@ == ticked(self@),
    {
        let vector_clock = self.tick();
        ComponentOp::SetValue { discriminant, data, vector_clock }
    }

    /// Build a `SetAdd` operation with a fresh random operation ID.
    pub fn set_add(self, discriminant: u16, element: Vec<u8>) -> (op: ComponentOp)
        requires
            count(self@.1, self@.0) < u64::MAX,
        ensures
            op matches ComponentOp::SetAdd { discriminant: d, element: e, vector_clock, .. } && d
                == discriminant && e == element && vector_clock@ == ticked(self@),
    {
        let vector_clock = self.tick();
        ComponentOp::SetAdd { discriminant, operation_id: random_id(), element, vector_clock }
    }

    /// Build a `SetRemove` operation.
    pub fn set_remove(self, discriminant: u16, removed_ids: Vec<u128>) -> (op: ComponentOp)
        requires
            count(self@.1, self@.0) < u64::MAX,
        ensures
            op matches ComponentOp::SetRemove { discriminant: d, removed_ids: r, vector_clock } && d
                == discriminant && r == removed_ids && vector_clock@ == ticked(self@),
    {
        let vector_clock = self.tick();
        ComponentOp::SetRemove { discriminant, removed_ids, vector_clock }
    }

    /// Build a `SequenceInsert` operation with a fresh random operation ID.
    pub fn sequence_insert(self, discriminant: u16, after_id: Option<u128>, element: Vec<u8>) -> (op:
        ComponentOp)
        requires
            count(self@.1, self@.0) < u64::MAX,
        ensures
            op matches ComponentOp::SequenceInsert {
                discriminant: d,
                after_id: a,
                element: e,
                vector_clock,
                ..
            } && d == discriminant && a == after_id && e == element && vector_clock@ == ticked(
                self@,
            ),
    {
        let vector_clock = self.tick();
        ComponentOp::SequenceInsert {
            discriminant,
            operation_id: random_id(),
            after_id,
            element,
            vector_clock,
        }
    }

    /// Build a `SequenceDelete` operation.
    pub fn sequence_delete(self, discriminant: u16, element_id: u128) -> (op: ComponentOp)
        requires
            count(self@.1, self@.0) < u64::MAX,
        ensures
            op matches ComponentOp::SequenceDelete { discriminant: d, element_id: e, vector_clock }
                && d == discriminant && e == element_id && vector_clock@ == ticked(self@),
    {
        let vector_clock = self.tick();
        ComponentOp::SequenceDelete { discriminant, element_id, vector_clock }
    }

    /// Build a `Delete` operation.
    pub fn delete(self) -> (op: ComponentOp)
        requires
            count(self@.1, self@.0) < u64::MAX,
        ensures
            op matches ComponentOp::Delete { vector_clock } && vector_clock@ == ticked(self@),
    {
        let vector_clock = self.tick();
        ComponentOp::Delete { vector_clock }
    }
}

} // verus!
