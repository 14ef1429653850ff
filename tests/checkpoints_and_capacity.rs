use spn_node_core::{CapacityGate, CheckpointStore, GateError};

#[test]
fn snapshot_is_reused_for_the_same_workload_and_offset() {
    let mut store = CheckpointStore::new();
    let first = store.obtain(9, 1500);
    assert_eq!(store.len(), 1);
    let second = store.obtain(9, 1500);
    assert_eq!(first, second);
    assert_eq!(first, b"checkpoint_cycle_1500".to_vec());
    assert_eq!(store.len(), 1);
}

#[test]
fn snapshots_are_kept_per_workload_and_offset() {
    let mut store = CheckpointStore::new();
    store.obtain(1, 10);
    store.obtain(1, 20);
    store.obtain(2, 10);
    assert_eq!(store.len(), 3);
    store.discard(1);
    assert_eq!(store.len(), 1);
    store.obtain(2, 10);
    assert_eq!(store.len(), 1);
    store.discard(2);
    assert_eq!(store.len(), 0);
}

#[test]
fn snapshot_at_zero() {
    let mut store = CheckpointStore::new();
    assert_eq!(store.obtain(0, 0), b"checkpoint_cycle_0".to_vec());
}

#[test]
fn gate_never_admits_more_than_the_limit() {
    let limit = 3;
    let k = 4;
    let mut gate = CapacityGate::new(2, limit);
    for device in 0..2 {
        let mut granted = Vec::new();
        let mut refused = 0;
        for _ in 0..limit + k {
            match gate.try_acquire(device) {
                Ok(p) => granted.push(p),
                Err(e) => {
                    assert_eq!(e, GateError::NoFreeSlot);
                    refused += 1;
                }
            }
            assert!(gate.available(device).unwrap() <= limit);
        }
        assert_eq!(granted.len(), limit);
        assert_eq!(refused, k);
        assert_eq!(gate.available(device), Some(0));
        for p in granted {
            assert_eq!(p.device(), device);
            assert_eq!(gate.release(p), Ok(()));
        }
        assert_eq!(gate.available(device), Some(limit));
    }
}

#[test]
fn devices_do_not_share_slots() {
    let mut gate = CapacityGate::new(2, 1);
    let first = gate.try_acquire(0).unwrap();
    assert_eq!(gate.try_acquire(0).err(), Some(GateError::NoFreeSlot));
    let second = gate.try_acquire(1).unwrap();
    assert_eq!(gate.available(0), Some(0));
    assert_eq!(gate.available(1), Some(0));
    gate.release(first).unwrap();
    assert_eq!(gate.available(0), Some(1));
    assert_eq!(gate.available(1), Some(0));
    gate.release(second).unwrap();
}

#[test]
fn unknown_devices_and_stray_releases_are_errors() {
    let mut gate = CapacityGate::new(1, 2);
    assert_eq!(gate.try_acquire(1).err(), Some(GateError::UnknownDevice));
    assert_eq!(gate.available(5), None);
    let mut other = CapacityGate::new(1, 2);
    let p = other.try_acquire(0).unwrap();
    assert_eq!(gate.release(p), Err(GateError::NotHeld));
    let mut wide = CapacityGate::new(3, 1);
    let far = wide.try_acquire(2).unwrap();
    assert_eq!(gate.release(far), Err(GateError::UnknownDevice));
    assert_eq!(gate.device_count(), 1);
}
