use region_engine::error::{EngineError, StorageFault};
use region_engine::region_id::RegionId;
use region_engine::request::{CreateRequestBuilder, RegionConfig, RegionRequest};
use region_engine::worker::{StorageAction, Worker};

fn create_request(table: u32, region: u32) -> RegionRequest {
    RegionRequest::Create(CreateRequestBuilder::new(RegionId::new(table, region)).build())
}

#[test]
fn queue_is_processed_in_receipt_order() {
    let mut worker = Worker::new();
    let id = RegionId::new(1, 1);

    // A strict create followed by a second strict create of the same region:
    // in receipt order the first must win and the second must observe it.
    worker.enqueue(create_request(1, 1)).unwrap();
    worker.enqueue(create_request(1, 1)).unwrap();

    let first = worker.process_next().unwrap();
    assert!(first.is_ok());
    assert!(worker.owns_region(id));

    let second = worker.process_next().unwrap();
    assert!(matches!(
        second.unwrap_err(),
        EngineError::RegionExists { .. }
    ));

    assert!(worker.process_next().is_none());
}

#[test]
fn stop_drains_queue_with_worker_stopped() {
    let mut worker = Worker::new();
    worker.enqueue(create_request(1, 1)).unwrap();
    worker.enqueue(create_request(1, 2)).unwrap();
    worker.enqueue(create_request(1, 3)).unwrap();

    let replies = worker.stop();
    assert_eq!(replies.len(), 3);
    for reply in replies {
        assert!(matches!(reply.unwrap_err(), EngineError::WorkerStopped));
    }

    // Nothing was applied, and new work is rejected without enqueuing.
    assert!(!worker.owns_region(RegionId::new(1, 1)));
    let err = worker.enqueue(create_request(1, 4)).unwrap_err();
    assert!(matches!(err, EngineError::WorkerStopped));

    // Stopping again is harmless.
    let replies = worker.stop();
    assert!(replies.is_empty());
}

#[test]
fn storage_action_matches_request_kind() {
    let mut worker = Worker::new();
    let id = RegionId::new(2, 2);

    assert_eq!(
        worker.storage_action(&create_request(2, 2)).unwrap(),
        StorageAction::PersistNew
    );
    assert!(matches!(
        worker
            .storage_action(&RegionRequest::Open { region_id: id })
            .unwrap_err(),
        EngineError::RegionNotFound { .. }
    ));

    worker.execute(create_request(2, 2)).unwrap();

    assert_eq!(
        worker
            .storage_action(&RegionRequest::Open { region_id: id })
            .unwrap(),
        StorageAction::OpenExisting
    );
    assert_eq!(
        worker
            .storage_action(&RegionRequest::Close { region_id: id })
            .unwrap(),
        StorageAction::CloseExisting
    );
    assert_eq!(
        worker
            .storage_action(&RegionRequest::Drop { region_id: id })
            .unwrap(),
        StorageAction::RemoveExisting
    );
    assert_eq!(
        worker
            .storage_action(&RegionRequest::Alter {
                region_id: id,
                new_config: RegionConfig::new("x/".to_string()),
            })
            .unwrap(),
        StorageAction::UpdateMeta
    );
    let relaxed = RegionRequest::Create(
        CreateRequestBuilder::new(id).create_if_not_exists(true).build(),
    );
    assert_eq!(
        worker.storage_action(&relaxed).unwrap(),
        StorageAction::NoStorageWork
    );
    assert!(matches!(
        worker.storage_action(&create_request(2, 2)).unwrap_err(),
        EngineError::RegionExists { .. }
    ));
}

#[test]
fn storage_failure_leaves_state_untouched() {
    let mut worker = Worker::new();
    let id = RegionId::new(6, 6);

    let err = worker
        .execute_with_storage(create_request(6, 6), Err(StorageFault { code: 5 }))
        .unwrap_err();
    assert!(matches!(
        err,
        EngineError::StorageFailure { fault: StorageFault { code: 5 }, .. }
    ));
    // The failed create is not partially visible.
    assert!(!worker.owns_region(id));

    worker
        .execute_with_storage(create_request(6, 6), Ok(()))
        .unwrap();
    assert!(worker.owns_region(id));
}

#[test]
fn stopped_worker_rejects_before_storage_is_consulted() {
    let mut worker = Worker::new();
    worker.stop();
    let err = worker
        .execute_with_storage(create_request(9, 9), Ok(()))
        .unwrap_err();
    assert!(matches!(err, EngineError::WorkerStopped));
    let err = worker.execute(create_request(9, 9)).unwrap_err();
    assert!(matches!(err, EngineError::WorkerStopped));
}

#[test]
fn error_predicates_match_variants() {
    let stopped = EngineError::WorkerStopped;
    assert!(stopped.is_worker_stopped());
    assert!(!stopped.is_region_exists());

    let exists = EngineError::RegionExists { region_id: RegionId::new(1, 1) };
    assert!(exists.is_region_exists());
    assert!(!exists.is_worker_stopped());

    let not_found = EngineError::RegionNotFound { region_id: RegionId::new(1, 1) };
    assert!(not_found.is_region_not_found());

    let storage = EngineError::StorageFailure {
        region_id: RegionId::new(1, 1),
        fault: StorageFault { code: -2 },
    };
    assert!(storage.is_storage_failure());
    assert!(!storage.is_region_not_found());
}
