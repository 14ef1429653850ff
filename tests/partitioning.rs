use spn_node_core::{
    create_shards, shard_cycles, AssuranceMode, CheckpointStore, PartitionError, ProofShard,
    ShardingConfig, Workload,
};

fn workload(id: u64) -> Workload {
    Workload {
        id,
        program: vec![1, 2, 3],
        input: vec![20, 0, 0, 0],
        mode: AssuranceMode::Compressed,
        deadline: None,
    }
}

fn config(num_gpus: usize, shards_per_gpu: usize, min: u64, max: u64, checkpoints: bool) -> ShardingConfig {
    ShardingConfig {
        num_gpus,
        shards_per_gpu,
        min_cycles_per_shard: min,
        max_cycles_per_shard: max,
        enable_checkpointing: checkpoints,
        checkpoint_interval: 1,
    }
}

fn ranges(shards: &[ProofShard]) -> Vec<(u64, u64)> {
    shards.iter().map(|s| (s.start_cycle, s.end_cycle)).collect()
}

#[test]
fn shards_split_work_evenly_rounding_up() {
    let mut store = CheckpointStore::new();
    let shards = create_shards(&workload(7), 10, &config(2, 2, 1, 100, true), &mut store).unwrap();
    assert_eq!(ranges(&shards), vec![(0, 3), (3, 6), (6, 9), (9, 10)]);
    let ids: Vec<usize> = shards.iter().map(|s| s.shard_id).collect();
    assert_eq!(ids, vec![0, 1, 2, 3]);
    let gpus: Vec<usize> = shards.iter().map(|s| s.gpu_id).collect();
    assert_eq!(gpus, vec![0, 1, 0, 1]);
    for s in &shards {
        assert_eq!(s.program_data, vec![1, 2, 3]);
        assert_eq!(s.stdin_data, vec![20, 0, 0, 0]);
        assert_eq!(s.mode, AssuranceMode::Compressed);
    }
}

#[test]
fn shards_after_the_first_carry_a_snapshot() {
    let mut store = CheckpointStore::new();
    let shards = create_shards(&workload(7), 10, &config(2, 2, 1, 100, true), &mut store).unwrap();
    assert_eq!(shards[0].checkpoint_data, None);
    assert_eq!(shards[1].checkpoint_data, Some(b"checkpoint_cycle_3".to_vec()));
    assert_eq!(shards[2].checkpoint_data, Some(b"checkpoint_cycle_6".to_vec()));
    assert_eq!(shards[3].checkpoint_data, Some(b"checkpoint_cycle_9".to_vec()));
    assert_eq!(store.len(), 3);
}

#[test]
fn no_snapshots_without_checkpointing() {
    let mut store = CheckpointStore::new();
    let shards = create_shards(&workload(7), 10, &config(2, 2, 1, 100, false), &mut store).unwrap();
    assert!(shards.iter().all(|s| s.checkpoint_data.is_none()));
    assert_eq!(store.len(), 0);
}

#[test]
fn shard_ranges_cover_the_work_exactly() {
    for &(gpus, slots, min, max) in &[(1usize, 1usize, 1u64, 1000u64), (3, 2, 1, 50), (2, 3, 4, 9), (4, 1, 0, 7)] {
        for total in 1u64..=60 {
            let c = config(gpus, slots, min, max, false);
            if total > (gpus * slots) as u64 * max {
                continue;
            }
            let mut store = CheckpointStore::new();
            let shards = create_shards(&workload(1), total, &c, &mut store).unwrap();
            assert_eq!(shards.len(), gpus * slots);
            assert_eq!(shards[0].start_cycle, 0);
            assert_eq!(shards[shards.len() - 1].end_cycle, total);
            for w in shards.windows(2) {
                assert_eq!(w[0].end_cycle, w[1].start_cycle);
            }
            let covered: u64 = shards.iter().map(|s| s.end_cycle - s.start_cycle).sum();
            assert_eq!(covered, total);
        }
    }
}

#[test]
fn shard_size_is_clamped_to_the_minimum() {
    let mut store = CheckpointStore::new();
    let shards = create_shards(&workload(2), 10, &config(2, 2, 5, 100, false), &mut store).unwrap();
    assert_eq!(ranges(&shards), vec![(0, 5), (5, 10), (10, 10), (10, 10)]);
}

#[test]
fn shard_size_is_clamped_to_the_maximum() {
    let mut store = CheckpointStore::new();
    let shards = create_shards(&workload(2), 100, &config(1, 1, 1, 10, false), &mut store).unwrap();
    assert_eq!(ranges(&shards), vec![(0, 10)]);
}

#[test]
fn empty_workload_is_one_empty_shard() {
    let mut store = CheckpointStore::new();
    let shards = create_shards(&workload(3), 0, &config(2, 3, 1, 100, true), &mut store).unwrap();
    assert_eq!(shards.len(), 1);
    assert_eq!((shards[0].shard_id, shards[0].gpu_id), (0, 0));
    assert_eq!((shards[0].start_cycle, shards[0].end_cycle), (0, 0));
    assert_eq!(shards[0].checkpoint_data, None);
    assert_eq!(store.len(), 0);
}

#[test]
fn invalid_configurations_are_rejected() {
    let mut store = CheckpointStore::new();
    let w = workload(4);
    assert_eq!(create_shards(&w, 10, &config(0, 1, 1, 10, true), &mut store).err(), Some(PartitionError::InvalidConfig));
    assert_eq!(create_shards(&w, 10, &config(1, 0, 1, 10, true), &mut store).err(), Some(PartitionError::InvalidConfig));
    assert_eq!(create_shards(&w, 10, &config(1, 1, 11, 10, true), &mut store).err(), Some(PartitionError::InvalidConfig));
    assert_eq!(
        create_shards(&w, 10, &config(usize::MAX, 2, 1, 10, true), &mut store).err(),
        Some(PartitionError::InvalidConfig)
    );
    assert_eq!(store.len(), 0);
}

#[test]
fn cycles_per_shard_formula() {
    assert_eq!(shard_cycles(10, 4, 1, 100), 3);
    assert_eq!(shard_cycles(12, 4, 1, 100), 3);
    assert_eq!(shard_cycles(10, 4, 5, 100), 5);
    assert_eq!(shard_cycles(1000, 4, 1, 100), 100);
    assert_eq!(shard_cycles(u64::MAX, 1, 0, u64::MAX), u64::MAX);
    assert_eq!(shard_cycles(0, 3, 2, 9), 2);
}

#[test]
fn large_offsets_are_encoded_in_decimal() {
    let mut store = CheckpointStore::new();
    let shards = create_shards(&workload(5), 40_000_000, &config(2, 1, 1, 20_000_000, true), &mut store).unwrap();
    assert_eq!(ranges(&shards), vec![(0, 20_000_000), (20_000_000, 40_000_000)]);
    assert_eq!(shards[1].checkpoint_data, Some(b"checkpoint_cycle_20000000".to_vec()));
}
