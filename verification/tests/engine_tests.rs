use region_engine::engine::{Engine, EngineConfig};
use region_engine::error::EngineError;
use region_engine::region_id::RegionId;
use region_engine::request::{CreateRequestBuilder, RegionConfig};

fn new_engine() -> Engine {
    Engine::new(EngineConfig::default())
}

#[test]
fn test_engine_new_stop() {
    let mut engine = new_engine();

    engine.stop().unwrap();

    let request = CreateRequestBuilder::new(RegionId::new(1, 1)).build();
    let err = engine.create_region(request).unwrap_err();
    assert!(
        matches!(err, EngineError::WorkerStopped),
        "unexpected err: {err:?}"
    );
}

#[test]
fn test_engine_create_new_region() {
    let mut engine = new_engine();

    let region_id = RegionId::new(1, 1);
    let request = CreateRequestBuilder::new(region_id).build();
    engine.create_region(request).unwrap();

    assert!(engine.is_region_exists(region_id));
}

#[test]
fn test_engine_create_region_if_not_exists() {
    let mut engine = new_engine();

    let builder = CreateRequestBuilder::new(RegionId::new(1, 1)).create_if_not_exists(true);
    engine.create_region(builder.build()).unwrap();

    // Create the same region again.
    engine.create_region(builder.build()).unwrap();
}

#[test]
fn test_engine_create_existing_region() {
    let mut engine = new_engine();

    let builder = CreateRequestBuilder::new(RegionId::new(1, 1));
    engine.create_region(builder.build()).unwrap();

    // Create the same region again.
    let err = engine.create_region(builder.build()).unwrap_err();
    assert!(
        matches!(err, EngineError::RegionExists { .. }),
        "unexpected err: {err:?}"
    );
}

#[test]
fn route_is_deterministic_and_in_range() {
    let engine = new_engine();
    let id = RegionId::new(7, 13);
    let first = engine.route(id);
    let second = engine.route(id);
    assert_eq!(first, second);
    assert!(first < engine.worker_count());
    // The sharding function is the packed identity reduced modulo the pool.
    assert_eq!(first as u64, id.as_u64() % engine.worker_count() as u64);

    // Stable across many repetitions and unaffected by queries in between.
    for _ in 0..16 {
        assert_eq!(engine.route(id), first);
        let _ = engine.is_region_exists(id);
    }
}

#[test]
fn create_if_not_exists_does_not_overwrite_config() {
    let mut engine = new_engine();
    let id = RegionId::new(3, 4);

    let first = CreateRequestBuilder::new(id)
        .config(RegionConfig::new("first/".to_string()))
        .create_if_not_exists(true);
    engine.create_region(first.build()).unwrap();
    let stored = engine.region_config(id).unwrap();

    let second = CreateRequestBuilder::new(id)
        .config(RegionConfig::new("second/".to_string()))
        .create_if_not_exists(true);
    engine.create_region(second.build()).unwrap();

    assert_eq!(engine.region_config(id).unwrap(), stored);
    assert_eq!(stored, RegionConfig::new("first/".to_string()));
}

#[test]
fn stop_is_idempotent() {
    let mut engine = new_engine();
    assert!(engine.stop().is_ok());
    assert!(engine.stop().is_ok());
}

#[test]
fn stopped_engine_rejects_unseen_region() {
    let mut engine = new_engine();
    engine.create_region(CreateRequestBuilder::new(RegionId::new(1, 1)).build()).unwrap();
    engine.stop().unwrap();

    // An identifier that was never used before is rejected all the same.
    let err = engine
        .create_region(CreateRequestBuilder::new(RegionId::new(99, 99)).build())
        .unwrap_err();
    assert!(matches!(err, EngineError::WorkerStopped));
    // And so is one that exists.
    let err = engine
        .create_region(CreateRequestBuilder::new(RegionId::new(1, 1)).build())
        .unwrap_err();
    assert!(matches!(err, EngineError::WorkerStopped));
}

#[test]
fn same_region_race_exactly_one_succeeds() {
    // The owning worker serializes the two creates; in either order exactly
    // one succeeds and the other observes RegionExists.
    for first_wins in [true, false] {
        let mut engine = new_engine();
        let id = RegionId::new(5, 5);
        let a = CreateRequestBuilder::new(id)
            .config(RegionConfig::new("a/".to_string()))
            .build();
        let b = CreateRequestBuilder::new(id)
            .config(RegionConfig::new("b/".to_string()))
            .build();
        let (r1, r2) = if first_wins {
            let r1 = engine.create_region(a);
            let r2 = engine.create_region(b);
            (r1, r2)
        } else {
            let r2 = engine.create_region(b);
            let r1 = engine.create_region(a);
            (r2, r1)
        };
        assert!(r1.is_ok());
        assert!(matches!(r2.unwrap_err(), EngineError::RegionExists { .. }));
        assert!(engine.is_region_exists(id));
    }
}

#[test]
fn distinct_regions_on_distinct_workers_both_succeed() {
    let mut engine = new_engine();
    // Region numbers 1 and 2 pack to consecutive keys, so with the default
    // pool they route to different workers.
    let id1 = RegionId::new(1, 1);
    let id2 = RegionId::new(1, 2);
    assert_ne!(engine.route(id1), engine.route(id2));

    engine.create_region(CreateRequestBuilder::new(id1).build()).unwrap();
    engine.create_region(CreateRequestBuilder::new(id2).build()).unwrap();
    assert!(engine.is_region_exists(id1));
    assert!(engine.is_region_exists(id2));
}

#[test]
fn end_to_end_create_query_stop_reject() {
    let mut engine = new_engine();

    engine
        .create_region(CreateRequestBuilder::new(RegionId::new(1, 1)).build())
        .unwrap();
    assert!(engine.is_region_exists(RegionId::new(1, 1)));

    assert!(engine.stop().is_ok());

    let err = engine
        .create_region(CreateRequestBuilder::new(RegionId::new(1, 2)).build())
        .unwrap_err();
    assert!(matches!(err, EngineError::WorkerStopped));
    // Queries answer false on a stopped engine instead of erroring.
    assert!(!engine.is_region_exists(RegionId::new(1, 1)));
}

#[test]
fn lifecycle_open_close_alter_drop() {
    let mut engine = new_engine();
    let id = RegionId::new(2, 9);

    // Lifecycle calls on an absent region are RegionNotFound.
    assert!(matches!(
        engine.open_region(id).unwrap_err(),
        EngineError::RegionNotFound { .. }
    ));
    assert!(matches!(
        engine.close_region(id).unwrap_err(),
        EngineError::RegionNotFound { .. }
    ));
    assert!(matches!(
        engine.drop_region(id).unwrap_err(),
        EngineError::RegionNotFound { .. }
    ));
    assert!(matches!(
        engine
            .alter_region(id, RegionConfig::new("x/".to_string()))
            .unwrap_err(),
        EngineError::RegionNotFound { .. }
    ));

    engine
        .create_region(
            CreateRequestBuilder::new(id)
                .config(RegionConfig::new("data/".to_string()))
                .build(),
        )
        .unwrap();
    assert_eq!(engine.region_version(id), Some(0));

    // Alter replaces the configuration and bumps the generation.
    engine
        .alter_region(id, RegionConfig::new("altered/".to_string()))
        .unwrap();
    assert_eq!(engine.region_version(id), Some(1));
    assert_eq!(
        engine.region_config(id),
        Some(RegionConfig::new("altered/".to_string()))
    );

    // Close keeps the region, its configuration and its generation.
    engine.close_region(id).unwrap();
    assert!(engine.is_region_exists(id));
    assert_eq!(engine.region_version(id), Some(1));
    engine.open_region(id).unwrap();
    assert!(engine.is_region_exists(id));

    // Drop removes it.
    engine.drop_region(id).unwrap();
    assert!(!engine.is_region_exists(id));
}

#[test]
fn region_id_packs_and_unpacks() {
    let id = RegionId::new(0xDEAD, 0xBEEF);
    assert_eq!(id.table_id(), 0xDEAD);
    assert_eq!(id.region_number(), 0xBEEF);
    let packed = id.as_u64();
    assert_eq!(packed, (0xDEADu64 << 32) | 0xBEEFu64);
    let back = RegionId::from_u64(packed);
    assert_eq!(back, id);
}

#[test]
fn zero_worker_config_still_builds_a_pool() {
    let mut engine = Engine::new(EngineConfig::new(0));
    assert_eq!(engine.worker_count(), 1);
    let id = RegionId::new(8, 8);
    engine.create_region(CreateRequestBuilder::new(id).build()).unwrap();
    assert!(engine.is_region_exists(id));
}
