use spn_node_core::{
    detect_rtx4090_setup, get_recommended_config_for_proof_size, validate_rtx4090_setup, CudaError, CudaOptimizer,
    KernelOp, MemoryAllocationStrategy, RTX4090Config, RTX4090MemorySettings, SetupError, ShardingConfig,
};

#[test]
fn device_count_prefers_the_listing() {
    let listing = b"GPU 0: RTX 3080 (UUID: a)\nGPU 1: RTX 3080 (UUID: b)\n";
    assert_eq!(ShardingConfig::gpu_count_from(Some(&listing[..]), Some(&b"0,1,2"[..])), 2);
    assert_eq!(ShardingConfig::gpu_count_from(Some(&b"GPU 0\nGPU 1\nGPU 2"[..]), None), 3);
    assert_eq!(ShardingConfig::gpu_count_from(Some(&b""[..]), Some(&b"0,1,2"[..])), 3);
    assert_eq!(ShardingConfig::gpu_count_from(None, Some(&b"3"[..])), 1);
    assert_eq!(ShardingConfig::gpu_count_from(None, Some(&b""[..])), 1);
    assert_eq!(ShardingConfig::gpu_count_from(None, None), 1);
}

#[test]
fn card_presets() {
    let c = ShardingConfig::rtx4090_optimized(2);
    assert_eq!((c.num_gpus, c.shards_per_gpu, c.min_cycles_per_shard, c.max_cycles_per_shard), (2, 6, 5_000_000, 50_000_000));
    assert!(c.enable_checkpointing && c.checkpoint_interval == 5_000_000);
    let c = ShardingConfig::rtx4080_optimized(1);
    assert_eq!((c.shards_per_gpu, c.min_cycles_per_shard, c.max_cycles_per_shard), (4, 3_000_000, 30_000_000));
    let c = ShardingConfig::a100_optimized(8);
    assert_eq!((c.num_gpus, c.shards_per_gpu, c.max_cycles_per_shard), (8, 8, 100_000_000));
    let c = ShardingConfig::rtx3090_optimized(1);
    assert_eq!((c.shards_per_gpu, c.checkpoint_interval), (6, 4_000_000));
    let c = ShardingConfig::rtx3080_optimized(3);
    assert_eq!((c.num_gpus, c.shards_per_gpu, c.min_cycles_per_shard), (3, 3, 1_500_000));
    let c = ShardingConfig::standard(4);
    assert_eq!((c.num_gpus, c.shards_per_gpu, c.min_cycles_per_shard, c.max_cycles_per_shard), (4, 4, 2_000_000, 20_000_000));
    assert_eq!(ShardingConfig::detect_gpu_configuration(5), (5, 4, 2_000_000, 20_000_000, 2_000_000));
    assert!(c.is_valid());
    assert!(!ShardingConfig::standard(0).is_valid());
}

#[test]
fn device_table_knows_two_cards() {
    let o = CudaOptimizer::new(3);
    assert_eq!(o.device_count, 3);
    assert_eq!(o.devices.len(), 2);
    assert_eq!(o.devices[1].id, 1);
    assert_eq!(o.devices[0].name, "NVIDIA GeForce RTX 3080");
    assert_eq!(o.devices[0].memory_total, 10 * 1024 * 1024 * 1024);
    assert_eq!(CudaOptimizer::get_device_info(2).err(), Some(CudaError::DeviceNotFound(2)));
    assert_eq!(CudaOptimizer::new(0).devices.len(), 0);
    assert!(o.synchronize_all().is_ok());
}

#[test]
fn transfer_chunks() {
    let o = CudaOptimizer::new(1);
    let mib = 1024 * 1024;
    // Ten GiB of memory: 640 MiB by memory, capped at a quarter of the data.
    let plan = o.optimize_memory_transfer(0, 4096 * mib).unwrap();
    assert_eq!(plan.chunk_size, 640 * mib);
    assert!(plan.use_pinned_memory);
    let plan = o.optimize_memory_transfer(0, 100 * mib).unwrap();
    assert_eq!(plan.chunk_size, 25 * mib);
    let plan = o.optimize_memory_transfer(0, 1000).unwrap();
    assert_eq!(plan.chunk_size, mib);
    assert!(!plan.use_pinned_memory);
    assert_eq!(o.optimize_memory_transfer(1, 10).err(), Some(CudaError::InvalidDevice(1)));
}

#[test]
fn kernel_launch_plans() {
    let o = CudaOptimizer::new(2);
    let k = o.launch_parallel_kernel(1, "merkle_tree", 1000).unwrap();
    assert_eq!((k.op, k.device_id, k.block_size, k.grid_size), (KernelOp::MerkleTree, 1, 256, 4));
    let k = o.launch_parallel_kernel(0, "hash_ops", 10_000_000).unwrap();
    assert_eq!((k.op, k.grid_size), (KernelOp::HashOps, 272));
    assert_eq!(o.launch_parallel_kernel(0, "quotient_calc", 1).unwrap().op, KernelOp::QuotientCalc);
    assert_eq!(o.launch_parallel_kernel(0, "field_ops", 0).unwrap().grid_size, 0);
    assert_eq!(o.launch_parallel_kernel(0, "fft", 10).err(), Some(CudaError::UnknownKernel));
    assert_eq!(o.launch_parallel_kernel(2, "fft", 10).err(), Some(CudaError::InvalidDevice(2)));
    assert_eq!(KernelOp::parse(b"field_ops"), Some(KernelOp::FieldOps));
    assert_eq!(KernelOp::parse(b"field_op"), None);
}

#[test]
fn rtx4090_pool_sizing() {
    let c = RTX4090Config::for_gpu_count(1);
    assert_eq!((c.num_gpus, c.shards_per_gpu, c.memory_per_shard_mb()), (1, 6, 3754));
    let c = RTX4090Config::for_gpu_count(2);
    assert_eq!((c.shards_per_gpu, c.memory_per_shard_mb), (4, 5632));
    assert_eq!(RTX4090Config::for_gpu_count(4).shards_per_gpu, 3);
    assert_eq!(RTX4090Config::for_gpu_count(8).shards_per_gpu, 2);
    assert_eq!(c.total_shards(), 8);
    assert_eq!(c.total_available_memory_mb(), 2 * 22 * 1024);
    let d = RTX4090Config::default();
    assert_eq!((d.num_gpus, d.shards_per_gpu, d.memory_per_shard_mb, d.max_concurrent_shards), (4, 4, 5120, 4));
    assert_eq!(d.memory_settings, RTX4090MemorySettings::default());
    assert_eq!(d.memory_settings.allocation_strategy, MemoryAllocationStrategy::Dynamic);
    assert_eq!(d.performance_settings.memory_fraction_permille, 950);
    assert_eq!(detect_rtx4090_setup().unwrap().num_gpus, 4);
}

#[test]
fn rtx4090_validation() {
    assert_eq!(validate_rtx4090_setup(&RTX4090Config::for_gpu_count(2)), Ok(()));
    let mut c = RTX4090Config::default();
    c.num_gpus = 0;
    assert_eq!(validate_rtx4090_setup(&c), Err(SetupError::InvalidConfig));
    let mut c = RTX4090Config::default();
    c.num_gpus = 9;
    assert!(!c.is_valid());
    let mut c = RTX4090Config::default();
    c.memory_per_shard_mb = 6000;
    assert_eq!(
        validate_rtx4090_setup(&c),
        Err(SetupError::InsufficientMemory { required_mb: 16 * 6000, available_mb: 4 * 22 * 1024 })
    );
    assert_eq!(get_recommended_config_for_proof_size(100).num_gpus, 1);
    assert_eq!(get_recommended_config_for_proof_size(101).num_gpus, 2);
    assert_eq!(get_recommended_config_for_proof_size(1000).num_gpus, 3);
    assert_eq!(get_recommended_config_for_proof_size(1001).num_gpus, 4);
}
