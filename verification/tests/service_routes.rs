use storage_rocksdb::bytes::be_bytes;
use storage_rocksdb::error::StorageError;
use storage_rocksdb::service::{
    health_probe, load_step, route_store, serving_status, start_load, LoadAction, LoadState,
    ServingStatus, StoreRoute,
};

#[test]
fn all_block_data_goes_to_full_block_store() {
    match route_store(12, vec![1; 8], vec![2; 3]) {
        StoreRoute::FullBlock { height, block } => {
            assert_eq!(height, vec![1; 8]);
            assert_eq!(block, vec![2; 3]);
        }
        other => panic!("unexpected route {:?}", other),
    }
    match route_store(4, vec![1; 8], vec![2; 32]) {
        StoreRoute::Entry { region, key, value } => {
            assert_eq!(region, 4);
            assert_eq!(key, vec![1; 8]);
            assert_eq!(value, vec![2; 32]);
        }
        other => panic!("unexpected route {:?}", other),
    }
}

#[test]
fn load_starts() {
    match start_load(11, vec![0; 8]) {
        (LoadState::Compact { height }, LoadAction::Read { region, key }) => {
            assert_eq!(height, vec![0; 8]);
            assert_eq!(region, 10);
            assert_eq!(key, vec![0; 8]);
        }
        other => panic!("unexpected start {:?}", other),
    }
    match start_load(0, 1u64.to_be_bytes().to_vec()) {
        (LoadState::Height, LoadAction::Read { region, key }) => {
            assert_eq!(region, 0);
            assert_eq!(key, 0u64.to_be_bytes().to_vec());
        }
        other => panic!("unexpected start {:?}", other),
    }
    match start_load(3, 1u64.to_be_bytes().to_vec()) {
        (LoadState::Entry, LoadAction::Read { region, key }) => {
            assert_eq!(region, 3);
            assert_eq!(key, 1u64.to_be_bytes().to_vec());
        }
        other => panic!("unexpected start {:?}", other),
    }
}

#[test]
fn two_step_read_uses_the_height() {
    match load_step(LoadState::Height, Ok(be_bytes(9))) {
        (LoadState::Hash, LoadAction::Read { region, key }) => {
            assert_eq!(region, 4);
            assert_eq!(key, be_bytes(9));
        }
        other => panic!("unexpected step {:?}", other),
    }
    match load_step(LoadState::Hash, Ok(vec![7; 32])) {
        (LoadState::Done, LoadAction::Reply(Ok(v))) => assert_eq!(v, vec![7; 32]),
        other => panic!("unexpected step {:?}", other),
    }
    match load_step(LoadState::Height, Err(StorageError::NotFound)) {
        (LoadState::Done, LoadAction::Reply(Err(StorageError::NotFound))) => {}
        other => panic!("unexpected step {:?}", other),
    }
}

#[test]
fn health_probe_entry() {
    let p = health_probe();
    assert_eq!(p.region, 0);
    assert_eq!(p.key, u64::MAX.to_be_bytes().to_vec());
    assert_eq!(p.value, u64::MAX.to_be_bytes().to_vec());
}

#[test]
fn health_status() {
    let good: Result<Vec<u8>, StorageError> = Ok(be_bytes(u64::MAX));
    assert_eq!(serving_status(true, &good), ServingStatus::Serving);
    assert_eq!(serving_status(false, &good), ServingStatus::NotServing);
    let other: Result<Vec<u8>, StorageError> = Ok(be_bytes(5));
    assert_eq!(serving_status(true, &other), ServingStatus::NotServing);
    let failed: Result<Vec<u8>, StorageError> = Err(StorageError::NotFound);
    assert_eq!(serving_status(true, &failed), ServingStatus::NotServing);
}
