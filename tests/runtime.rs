use spn_node_core::{
    check_alerts, init_memory_optimizations, unacknowledged, Alert, AlertCategory, AlertKind, AlertLevel,
    AssuranceMode, CacheOptimizedBuffer, GateError, GpuReading, MemoryError, MemoryOptimizer, MemoryPool,
    PartitionError, ProofTimings, ShardScheduler, ShardedProverMetrics, ShardingConfig, VectorizedOps, Workload,
};

#[test]
fn allocation_counters() {
    let mut m = MemoryOptimizer::new();
    m.record_allocation(100);
    m.record_allocation(50);
    m.record_deallocation(120);
    m.record_allocation(10);
    let s = m.get_stats();
    assert_eq!((s.allocations, s.deallocations, s.current_memory, s.peak_memory), (3, 1, 40, 150));
    m.record_deallocation(100);
    assert_eq!(m.get_stats().current_memory, usize::MAX - 59);
    assert!(m.optimize_for_proving().is_ok());
    assert!(init_memory_optimizations().is_ok());
}

#[test]
fn pool_hands_out_up_to_its_capacity() {
    let mut p: MemoryPool<u32> = MemoryPool::new(2);
    assert_eq!(p.acquire(), Some(0));
    assert_eq!(p.acquire(), Some(0));
    assert_eq!(p.acquire(), None);
    assert_eq!(p.usage(), (2, 2));
    p.release(0);
    assert_eq!(p.usage(), (1, 2));
    p.release(0);
    p.release(0);
    assert_eq!(p.usage(), (0, 2));
}

#[test]
fn buffers_are_whole_cache_lines() {
    let b = CacheOptimizedBuffer::new(100);
    assert_eq!(b.len(), 128);
    assert!(!b.is_empty());
    assert_eq!(CacheOptimizedBuffer::new(64).len(), 64);
    assert!(CacheOptimizedBuffer::new(0).is_empty());
    assert!(b.in_bounds(0, 128));
    assert!(!b.in_bounds(100, 29));
    assert!(!b.in_bounds(usize::MAX, 2));
    b.flush_cache(0, 64);
}

#[test]
fn element_wise_field_ops() {
    let a = [1u64, u64::MAX, 7];
    let b = [2u64, 2, 3];
    let mut r = [0u64; 3];
    VectorizedOps::field_add_avx256(&a, &b, &mut r).unwrap();
    assert_eq!(r, [3, 1, 10]);
    VectorizedOps::field_mul_avx256(&a, &b, &mut r).unwrap();
    assert_eq!(r, [2, u64::MAX - 1, 21]);
    VectorizedOps::field_add_neon(&a, &b, &mut r).unwrap();
    assert_eq!(r, [3, 1, 10]);
    let mut short = [9u64; 2];
    assert_eq!(VectorizedOps::field_add_avx256(&a, &b, &mut short), Err(MemoryError::LengthMismatch));
    assert_eq!(short, [9, 9]);
}

#[test]
fn digest_is_spread_over_the_buffer() {
    let mut out = [0u8; 32];
    VectorizedOps::spread_digest(0x0807060504030201, &mut out);
    assert_eq!(&out[0..8], &[1, 2, 3, 4, 5, 6, 7, 8]);
    assert_eq!(&out[24..32], &[1, 2, 3, 4, 5, 6, 7, 8]);
    let mut h = [0u8; 32];
    VectorizedOps::hash_avx256(b"shard", &mut h).unwrap();
    for i in 8..32 {
        assert_eq!(h[i], h[i % 8]);
    }
}

#[test]
fn alert_rules() {
    let gpus = vec![
        GpuReading { device_id: 0, temperature: 855, utilization: 690 },
        GpuReading { device_id: 1, temperature: 801, utilization: 700 },
        GpuReading { device_id: 2, temperature: 800, utilization: 950 },
    ];
    let alerts = check_alerts(&gpus, 2, 949, 1_700_000_000);
    let kinds: Vec<(AlertKind, Option<usize>)> = alerts.iter().map(|a| (a.kind, a.device_id)).collect();
    assert_eq!(
        kinds,
        vec![
            (AlertKind::TemperatureCritical(855), Some(0)),
            (AlertKind::LowUtilization(690), Some(0)),
            (AlertKind::TemperatureHigh(801), Some(1)),
            (AlertKind::DeadlineMisses(2), None),
            (AlertKind::LowSuccessRate(949), None),
        ]
    );
    assert_eq!((alerts[0].level, alerts[0].category), (AlertLevel::Critical, AlertCategory::Hardware));
    assert_eq!((alerts[1].level, alerts[1].category), (AlertLevel::Warning, AlertCategory::Performance));
    assert_eq!((alerts[3].level, alerts[3].category), (AlertLevel::Critical, AlertCategory::Performance));
    assert_eq!((alerts[4].level, alerts[4].category), (AlertLevel::Warning, AlertCategory::Reliability));
    assert!(alerts.iter().all(|a| a.timestamp == 1_700_000_000 && !a.acknowledged));
    assert!(check_alerts(&vec![], 0, 1000, 0).is_empty());
}

#[test]
fn acknowledged_alerts_are_filtered_out() {
    let mut alerts = check_alerts(&vec![], 1, 500, 5);
    alerts[0].acknowledged = true;
    let open: Vec<Alert> = unacknowledged(&alerts);
    assert_eq!(open.len(), 1);
    assert_eq!(open[0].kind, AlertKind::LowSuccessRate(500));
}

#[test]
fn scheduler_runs_a_workload() {
    let config = ShardingConfig {
        num_gpus: 2,
        shards_per_gpu: 1,
        min_cycles_per_shard: 1,
        max_cycles_per_shard: 100,
        enable_checkpointing: true,
        checkpoint_interval: 10,
    };
    let mut s = ShardScheduler::new(config).unwrap();
    assert_eq!(s.devices(), &vec![0, 1]);
    assert_eq!(s.config().num_gpus, 2);
    let w = Workload { id: 42, program: vec![1], input: vec![2], mode: AssuranceMode::Groth16, deadline: None };
    let shards = s.plan(&w, 30).unwrap();
    assert_eq!(shards.len(), 2);
    let first = s.acquire(shards[0].gpu_id).unwrap();
    assert_eq!(s.acquire(0).err(), Some(GateError::NoFreeSlot));
    s.release(first).unwrap();
    assert!(s.finish_workload(42, 900, shards.len()));
    assert!(s.finish_workload(43, 100, 1));
    let m = s.metrics();
    assert_eq!((m.total_proofs_processed, m.total_shards_processed, m.total_processing_time_ms, m.average_latency_ms), (2, 3, 1000, 500));
    let mut bad = config;
    bad.num_gpus = 0;
    assert_eq!(ShardScheduler::new(bad).err().map(|_| ()), Some(()));
    assert!(matches!(ShardScheduler::new(bad), Err(PartitionError::InvalidConfig)));
}

#[test]
fn metrics_refuse_to_overflow() {
    let mut m = ShardedProverMetrics::new();
    assert!(m.record(u64::MAX, 1));
    let before = m;
    assert!(!m.record(1, 1));
    assert_eq!(m, before);
    assert_eq!(m.average_latency_ms, u64::MAX);
}

#[test]
fn proof_timings_track_extremes_and_mean() {
    let mut t = ProofTimings::new();
    assert_eq!(t.success_rate(), 1000);
    assert!(t.record_proof_completion(300, true));
    assert!(t.record_proof_completion(100, true));
    assert!(t.record_proof_completion(500, false));
    assert!(t.record_proof_completion(200, true));
    assert_eq!((t.completed, t.failed, t.fastest_ms, t.slowest_ms, t.average_ms), (3, 1, 100, 300, 200));
    assert_eq!(t.success_rate(), 750);
    assert!(t.record_deadline_miss());
    assert_eq!(t.deadline_misses, 1);
    let mut full = ProofTimings { total_ms: u64::MAX, ..ProofTimings::new() };
    assert!(!full.record_proof_completion(1, true));
    assert_eq!(full, ProofTimings { total_ms: u64::MAX, ..ProofTimings::new() });
}

#[test]
fn failed_workloads_drop_snapshots_without_counting() {
    let config = ShardingConfig {
        num_gpus: 2,
        shards_per_gpu: 2,
        min_cycles_per_shard: 1,
        max_cycles_per_shard: 100,
        enable_checkpointing: true,
        checkpoint_interval: 10,
    };
    let mut s = ShardScheduler::new(config).unwrap();
    let w = Workload { id: 7, program: vec![], input: vec![], mode: AssuranceMode::Core, deadline: None };
    let shards = s.plan(&w, 40).unwrap();
    assert_eq!(shards.len(), 4);
    s.drop_workload(7);
    assert_eq!(s.metrics(), ShardedProverMetrics::new());
    // The snapshots were dropped, so planning again makes them anew.
    let again = s.plan(&w, 40).unwrap();
    assert_eq!(again[3].checkpoint_data, Some(b"checkpoint_cycle_30".to_vec()));
    assert!(s.finish_workload(7, 40, again.len()));
    let m = s.metrics();
    assert_eq!((m.total_proofs_processed, m.total_shards_processed, m.average_latency_ms), (1, 4, 40));
}
