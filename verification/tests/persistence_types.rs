use libmarathon::persistence::error::PersistenceError;
use libmarathon::persistence::types::{
    DirtyEntities, EntityData, FlushPriority, PersistenceOp, WriteBuffer, CRITICAL_FLUSH_DEADLINE_MS,
    MAX_COMPONENT_SIZE_BYTES,
};
use libmarathon::time::now_millis;

fn entity_data(id: u128) -> EntityData {
    EntityData {
        id,
        created_at: chrono::Utc::now().timestamp_millis(),
        updated_at: chrono::Utc::now().timestamp_millis(),
        entity_type: "TestEntity".to_string(),
    }
}

#[test]
fn test_dirty_entities_tracking() {
    let mut dirty = DirtyEntities::new();
    let entity_id = uuid::Uuid::new_v4().as_u128();

    dirty.mark_dirty(entity_id, "Transform");
    assert!(dirty.is_dirty(&entity_id));
    assert_eq!(dirty.count(), 1);

    dirty.clear();
    assert!(!dirty.is_dirty(&entity_id));
    assert_eq!(dirty.count(), 0);
}

#[test]
fn test_write_buffer_coalescing() -> Result<(), PersistenceError> {
    let mut buffer = WriteBuffer::new(100);
    let entity_id = uuid::Uuid::new_v4().as_u128();

    buffer.add(PersistenceOp::UpsertComponent {
        entity_id,
        component_type: "Transform".to_string(),
        data: vec![1, 2, 3],
    })?;
    assert_eq!(buffer.len(), 1);

    buffer.add(PersistenceOp::UpsertComponent {
        entity_id,
        component_type: "Transform".to_string(),
        data: vec![4, 5, 6],
    })?;
    assert_eq!(buffer.len(), 1);

    let ops = buffer.take_operations();
    assert_eq!(ops.len(), 1);
    if let PersistenceOp::UpsertComponent { data, .. } = &ops[0] {
        assert_eq!(data, &vec![4, 5, 6]);
    } else {
        panic!("Expected UpsertComponent");
    }
    Ok(())
}

#[test]
fn test_write_buffer_different_components() {
    let mut buffer = WriteBuffer::new(100);
    let entity_id = uuid::Uuid::new_v4().as_u128();

    buffer
        .add(PersistenceOp::UpsertComponent {
            entity_id,
            component_type: "Transform".to_string(),
            data: vec![1, 2, 3],
        })
        .expect("Should successfully add Transform");

    buffer
        .add(PersistenceOp::UpsertComponent {
            entity_id,
            component_type: "Velocity".to_string(),
            data: vec![4, 5, 6],
        })
        .expect("Should successfully add Velocity");

    assert_eq!(buffer.len(), 2);
}

#[test]
fn test_flush_priority_immediate() {
    let mut buffer = WriteBuffer::new(100);
    let entity_id = uuid::Uuid::new_v4().as_u128();

    buffer
        .add_with_priority(
            PersistenceOp::UpsertEntity { id: entity_id, data: entity_data(entity_id) },
            FlushPriority::Immediate,
        )
        .expect("Should successfully add entity with immediate priority");

    assert!(buffer.should_flush(std::time::Duration::from_secs(100)));
    assert_eq!(buffer.highest_priority, FlushPriority::Immediate);
}

#[test]
fn test_flush_priority_critical_deadline() -> Result<(), PersistenceError> {
    let mut buffer = WriteBuffer::new(100);
    let entity_id = uuid::Uuid::new_v4().as_u128();

    buffer.add_with_priority(
        PersistenceOp::UpsertEntity { id: entity_id, data: entity_data(entity_id) },
        FlushPriority::Critical,
    )?;

    assert_eq!(buffer.highest_priority, FlushPriority::Critical);
    assert!(buffer.first_critical_time.is_some());

    assert!(!buffer.should_flush(std::time::Duration::from_secs(100)));

    buffer.first_critical_time = Some(now_millis() - (CRITICAL_FLUSH_DEADLINE_MS + 100));

    assert!(buffer.should_flush(std::time::Duration::from_secs(100)));
    Ok(())
}

#[test]
fn test_flush_priority_normal() -> Result<(), PersistenceError> {
    let mut buffer = WriteBuffer::new(100);
    let entity_id = uuid::Uuid::new_v4().as_u128();

    buffer.add(PersistenceOp::UpsertEntity { id: entity_id, data: entity_data(entity_id) })?;

    assert_eq!(buffer.highest_priority, FlushPriority::Normal);
    assert!(buffer.first_critical_time.is_none());

    assert!(!buffer.should_flush(std::time::Duration::from_secs(100)));

    buffer.last_flush = now_millis() - 200_000;

    assert!(buffer.should_flush(std::time::Duration::from_secs(100)));
    Ok(())
}

#[test]
fn test_priority_reset_on_take() -> Result<(), PersistenceError> {
    let mut buffer = WriteBuffer::new(100);
    let entity_id = uuid::Uuid::new_v4().as_u128();

    buffer.add_with_priority(
        PersistenceOp::UpsertEntity { id: entity_id, data: entity_data(entity_id) },
        FlushPriority::Critical,
    )?;

    assert_eq!(buffer.highest_priority, FlushPriority::Critical);
    assert!(buffer.first_critical_time.is_some());

    let ops = buffer.take_operations();
    assert_eq!(ops.len(), 1);

    assert_eq!(buffer.highest_priority, FlushPriority::Normal);
    assert!(buffer.first_critical_time.is_none());
    Ok(())
}

#[test]
fn test_default_priority_for_crdt_ops() {
    let node_id = uuid::Uuid::new_v4().as_u128();

    let log_op = PersistenceOp::LogOperation { node_id, sequence: 1, operation: vec![1, 2, 3] };

    let vector_clock_op = PersistenceOp::UpdateVectorClock { node_id, counter: 42 };

    let entity_op = PersistenceOp::UpsertEntity {
        id: uuid::Uuid::new_v4().as_u128(),
        data: entity_data(uuid::Uuid::new_v4().as_u128()),
    };

    assert_eq!(log_op.default_priority(), FlushPriority::Critical);
    assert_eq!(vector_clock_op.default_priority(), FlushPriority::Critical);

    assert_eq!(entity_op.default_priority(), FlushPriority::Normal);
}

#[test]
fn test_index_consistency_after_operations() -> Result<(), PersistenceError> {
    let mut buffer = WriteBuffer::new(100);
    let entity_id = uuid::Uuid::new_v4().as_u128();

    for i in 0..10 {
        buffer.add(PersistenceOp::UpsertComponent {
            entity_id,
            component_type: "Transform".to_string(),
            data: vec![i],
        })?;
    }

    assert_eq!(buffer.len(), 1);

    let ops = buffer.take_operations();
    assert_eq!(ops.len(), 1);
    if let PersistenceOp::UpsertComponent { data, .. } = &ops[0] {
        assert_eq!(data, &vec![9]);
    } else {
        panic!("Expected UpsertComponent");
    }

    buffer.add(PersistenceOp::UpsertComponent {
        entity_id,
        component_type: "Transform".to_string(),
        data: vec![100],
    })?;

    assert_eq!(buffer.len(), 1);
    Ok(())
}

#[test]
fn test_index_handles_multiple_entities() -> Result<(), PersistenceError> {
    let mut buffer = WriteBuffer::new(100);
    let entity1 = uuid::Uuid::new_v4().as_u128();
    let entity2 = uuid::Uuid::new_v4().as_u128();

    buffer.add(PersistenceOp::UpsertComponent {
        entity_id: entity1,
        component_type: "Transform".to_string(),
        data: vec![1],
    })?;

    buffer.add(PersistenceOp::UpsertComponent {
        entity_id: entity2,
        component_type: "Transform".to_string(),
        data: vec![2],
    })?;

    assert_eq!(buffer.len(), 2);

    buffer.add(PersistenceOp::UpsertComponent {
        entity_id: entity1,
        component_type: "Transform".to_string(),
        data: vec![3],
    })?;

    assert_eq!(buffer.len(), 2);

    Ok(())
}

#[test]
fn test_add_with_default_priority() {
    let mut buffer = WriteBuffer::new(100);
    let node_id = uuid::Uuid::new_v4().as_u128();

    buffer
        .add_with_default_priority(PersistenceOp::LogOperation { node_id, sequence: 1, operation: vec![1, 2, 3] })
        .unwrap();

    assert_eq!(buffer.highest_priority, FlushPriority::Critical);
    assert!(buffer.first_critical_time.is_some());
}

#[test]
fn test_oversized_component_returns_error() {
    let mut buffer = WriteBuffer::new(100);
    let entity_id = uuid::Uuid::new_v4().as_u128();

    let oversized_data = vec![0u8; 11 * 1024 * 1024];

    let result = buffer.add(PersistenceOp::UpsertComponent {
        entity_id,
        component_type: "HugeComponent".to_string(),
        data: oversized_data,
    });

    assert!(result.is_err());
    match result {
        Err(PersistenceError::ComponentTooLarge { component_type, size_bytes, max_bytes }) => {
            assert_eq!(component_type, "HugeComponent");
            assert_eq!(size_bytes, 11 * 1024 * 1024);
            assert_eq!(max_bytes, MAX_COMPONENT_SIZE_BYTES);
        },
        _ => panic!("Expected ComponentTooLarge error"),
    }

    assert_eq!(buffer.len(), 0);
}

#[test]
fn test_max_size_component_succeeds() {
    let mut buffer = WriteBuffer::new(100);
    let entity_id = uuid::Uuid::new_v4().as_u128();

    let max_data = vec![0u8; 10 * 1024 * 1024];

    let result = buffer.add(PersistenceOp::UpsertComponent {
        entity_id,
        component_type: "MaxComponent".to_string(),
        data: max_data,
    });

    assert!(result.is_ok());
    assert_eq!(buffer.len(), 1);
}

#[test]
fn test_oversized_operation_returns_error() {
    let mut buffer = WriteBuffer::new(100);
    let oversized_op = vec![0u8; 11 * 1024 * 1024];

    let result = buffer.add(PersistenceOp::LogOperation {
        node_id: uuid::Uuid::new_v4().as_u128(),
        sequence: 1,
        operation: oversized_op,
    });

    assert!(result.is_err());
    match result {
        Err(PersistenceError::ComponentTooLarge { component_type, .. }) => {
            assert_eq!(component_type, "Operation");
        },
        _ => panic!("Expected ComponentTooLarge error for Operation"),
    }
}

#[test]
fn test_write_buffer_never_panics_property() {
    let sizes = [0, 1000, 1_000_000, 5_000_000, 10_000_000, 10_000_001, 11_000_000, 100_000_000];

    for size in sizes {
        let mut buffer = WriteBuffer::new(100);
        let data = vec![0u8; size];

        let result = buffer.add(PersistenceOp::UpsertComponent {
            entity_id: uuid::Uuid::new_v4().as_u128(),
            component_type: "TestComponent".to_string(),
            data,
        });

        match result {
            Ok(_) => assert!(size <= MAX_COMPONENT_SIZE_BYTES, "Size {} should have failed", size),
            Err(_) => assert!(size > MAX_COMPONENT_SIZE_BYTES, "Size {} should have succeeded", size),
        }
    }
}

#[test]
fn write_buffer_flush_decisions_at_given_times() {
    let mut buffer = WriteBuffer::new_at(2, 1_000);
    assert!(!buffer.should_flush_at(1_500, 10_000));
    assert!(buffer.should_flush_at(11_000, 10_000));
    buffer.add_with_priority_at(PersistenceOp::DeleteEntity { id: 1 }, FlushPriority::Critical, 2_000).unwrap();
    assert_eq!(buffer.first_critical_time, Some(2_000));
    assert!(!buffer.should_flush_at(2_999, 10_000));
    assert!(buffer.should_flush_at(3_000, 10_000));
    buffer.add_with_priority_at(PersistenceOp::DeleteEntity { id: 2 }, FlushPriority::Normal, 2_100).unwrap();
    assert_eq!(buffer.highest_priority, FlushPriority::Critical);
    assert!(buffer.should_flush_at(2_100, 10_000));
}

#[test]
fn write_buffer_coalesced_write_raises_priority() {
    let mut buffer = WriteBuffer::new_at(100, 0);
    buffer
        .add_with_priority_at(
            PersistenceOp::UpsertComponent { entity_id: 1, component_type: "A".to_string(), data: vec![1] },
            FlushPriority::Normal,
            10,
        )
        .unwrap();
    buffer
        .add_with_priority_at(
            PersistenceOp::UpsertComponent { entity_id: 1, component_type: "A".to_string(), data: vec![2] },
            FlushPriority::Immediate,
            20,
        )
        .unwrap();
    assert_eq!(buffer.len(), 1);
    assert_eq!(buffer.highest_priority, FlushPriority::Immediate);
    assert_eq!(buffer.first_critical_time, Some(20));
    assert!(buffer.should_flush_at(21, 1_000_000));
}

#[test]
fn dirty_entities_record_component_types_once() {
    let mut dirty = DirtyEntities::new();
    dirty.mark_dirty_at(5, "Transform", 100);
    dirty.mark_dirty_at(5, "Transform", 200);
    dirty.mark_dirty_at(5, "Color", 300);
    assert_eq!(dirty.count(), 1);
    assert_eq!(dirty.components[&5], vec!["Transform".to_string(), "Color".to_string()]);
    assert_eq!(dirty.last_modified[&5], 300);
}

#[test]
fn flush_priority_ranks_in_order() {
    assert!(FlushPriority::Normal.rank() < FlushPriority::Critical.rank());
    assert!(FlushPriority::Critical.rank() < FlushPriority::Immediate.rank());
}

#[test]
fn run_record_starts_unclean_with_fresh_id() {
    let a = libmarathon::persistence::types::SessionState::new();
    let b = libmarathon::persistence::types::SessionState::default();
    assert!(!a.clean_shutdown);
    assert!(!b.clean_shutdown);
    assert_eq!(a.session_id.len(), 36);
    assert!(uuid::Uuid::parse_str(&a.session_id).is_ok());
    assert_ne!(a.session_id, b.session_id);
    assert!(a.started_at > 1_600_000_000);
}

#[test]
fn coalesced_immediate_write_raises_priority() {
    let e = 0x42u128;
    let mut b = WriteBuffer::new(100);
    assert!(b.add(PersistenceOp::UpsertEntity { id: e, data: entity_data(e) }).is_ok());
    assert!(!b.should_flush(std::time::Duration::from_secs(100)));
    let mut d2 = entity_data(e);
    d2.entity_type = "Replaced".to_string();
    assert!(b.add_with_priority(PersistenceOp::UpsertEntity { id: e, data: d2.clone() }, FlushPriority::Immediate).is_ok());
    assert_eq!(b.len(), 1);
    assert_eq!(b.highest_priority, FlushPriority::Immediate);
    assert!(b.should_flush(std::time::Duration::from_secs(100)));
    let ops = b.take_operations();
    assert_eq!(ops.len(), 1);
    match &ops[0] {
        PersistenceOp::UpsertEntity { id, data } => {
            assert_eq!(*id, e);
            assert_eq!(data.entity_type, d2.entity_type);
        },
        _ => panic!("Expected UpsertEntity"),
    }
}

#[test]
fn should_flush_reads_the_interval() {
    let b = WriteBuffer::new(100);
    assert!(!b.should_flush(std::time::Duration::from_secs(100)));
    assert!(b.should_flush(std::time::Duration::from_millis(0)));
}
