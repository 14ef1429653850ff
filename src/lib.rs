//! Compute-scheduling core of a proof-generation node: workload partitioning,
//! per-device admission, checkpoint reuse, result aggregation and calibration.

mod aggregate;
mod calibration;
mod capacity;
mod checkpoint;
mod config;
mod cuda;
mod memory;
mod monitoring;
mod partition;
mod rtx4090;
mod scheduler;

pub use aggregate::{combine_shards, CompositionError, ExecutionError, ShardResult};
pub use calibration::{
    price_work, CalibrationError, CalibratorMetrics, Ratio, ShardedCalibrator, SinglePassCalibrator,
    MS_PER_HOUR, PPM,
};
pub use capacity::{CapacityGate, GateError, Permit};
pub use checkpoint::{Checkpoint, CheckpointStore};
pub use config::{GpuInfo, ShardingConfig};
pub use cuda::{CudaDevice, CudaError, CudaOptimizer, KernelLaunch, KernelOp, TransferPlan};
pub use memory::{
    init_memory_optimizations, CacheOptimizedBuffer, MemoryError, MemoryOptimizer, MemoryPool, MemoryStats,
    VectorizedOps, CACHE_LINE_SIZE,
};
pub use monitoring::{
    check_alerts, unacknowledged, Alert, AlertCategory, AlertKind, AlertLevel, GpuReading, ProofTimings,
};
pub use partition::{
    create_shards, shard_cycles, AssuranceMode, PartitionError, ProofShard, Workload,
};
pub use rtx4090::{
    detect_rtx4090_setup, get_recommended_config_for_proof_size, validate_rtx4090_setup,
    MemoryAllocationStrategy, RTX4090Config, RTX4090MemorySettings, RTX4090PerformanceSettings, SetupError,
};
pub use scheduler::{ShardScheduler, ShardedProverMetrics};
