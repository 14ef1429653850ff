use vstd::prelude::*;

verus! {

/// How device memory is handed to shards.
#[derive(Clone, Copy, Debug, PartialEq, Eq, Structural)]
pub enum MemoryAllocationStrategy {
    PerShard,
    PerGPU,
    Dynamic,
}

/// Tuning of 24 GB cards of the RTX 4090 class.
#[derive(Clone, Copy, Debug, PartialEq, Eq, Structural)]
pub struct RTX4090PerformanceSettings {
    pub enable_graph_capture: bool,
    pub max_connections_per_device: u32,
    pub enable_unified_memory: bool,
    /// Share of device memory to use, in thousandths.
    pub memory_fraction_permille: u32,
    pub enable_memory_growth: bool,
    pub enable_peer_memory: bool,
}

#[derive(Clone, Copy, Debug, PartialEq, Eq, Structural)]
pub struct RTX4090MemorySettings {
    pub total_vram_gb: u32,
    pub reserved_vram_gb: u32,
    pub available_vram_gb: u32,
    pub allocation_strategy: MemoryAllocationStrategy,
}

#[derive(Clone, Copy, Debug, PartialEq, Eq, Structural)]
pub struct RTX4090Config {
    pub num_gpus: usize,
    pub shards_per_gpu: usize,
    pub memory_per_shard_mb: u64,
    pub max_concurrent_shards: usize,
    pub performance_settings: RTX4090PerformanceSettings,
    pub memory_settings: RTX4090MemorySettings,
}

#[derive(Clone, Copy, Debug, PartialEq, Eq, Structural)]
pub enum SetupError {
    /// No device, no shard, no memory per shard, or more than 32 shards.
    InvalidConfig,
    /// The shards need more memory than the devices offer.
    InsufficientMemory { required_mb: u128, available_mb: u128 },
}

impl Default for RTX4090PerformanceSettings {
    fn default() -> (s: Self)
        ensures
            s == (RTX4090PerformanceSettings {
                enable_graph_capture: true,
                max_connections_per_device: 32,
                enable_unified_memory: true,
                memory_fraction_permille: 950,
                enable_memory_growth: true,
                enable_peer_memory: true,
            }),
    {
        RTX4090PerformanceSettings {
            enable_graph_capture: true,
            max_connections_per_device: 32,
            enable_unified_memory: true,
            memory_fraction_permille: 950,
            enable_memory_growth: true,
            enable_peer_memory: true,
        }
    }
}

impl Default for RTX4090MemorySettings {
    fn default() -> (s: Self)
        ensures
            s == (RTX4090MemorySettings {
                total_vram_gb: 24,
                reserved_vram_gb: 2,
                available_vram_gb: 22,
                allocation_strategy: MemoryAllocationStrategy::Dynamic,
            }),
    {
        RTX4090MemorySettings {
            total_vram_gb: 24,
            reserved_vram_gb: 2,
            available_vram_gb: 22,
            allocation_strategy: MemoryAllocationStrategy::Dynamic,
        }
    }
}

impl Default for RTX4090Config {
    fn default() -> (c: Self)
        ensures
            c.num_gpus == 4,
            c.shards_per_gpu == 4,
            c.memory_per_shard_mb == 5120,
            c.max_concurrent_shards == 4,
            c.memory_settings.available_vram_gb == 22,
            c.performance_settings.memory_fraction_permille == 950,
    {
        RTX4090Config {
            num_gpus: 4,
            shards_per_gpu: 4,
            memory_per_shard_mb: 5120,
            max_concurrent_shards: 4,
            performance_settings: RTX4090PerformanceSettings::default(),
            memory_settings: RTX4090MemorySettings::default(),
        }
    }
}

/// Shards per device for a pool of `num_gpus` cards: fewer as the pool grows.
pub open spec fn shards_for_pool(num_gpus: usize) -> usize {
    if num_gpus == 1 {
        6
    } else if num_gpus == 2 {
        4
    } else if num_gpus == 3 || num_gpus == 4 {
        3
    } else {
        2
    }
}

/// Pool size recommended for a proof of `proof_size_mb` megabytes.
pub open spec fn pool_for_proof(proof_size_mb: u64) -> usize {
    if proof_size_mb <= 100 {
        1
    } else if proof_size_mb <= 500 {
        2
    } else if proof_size_mb <= 1000 {
        3
    } else {
        4
    }
}

impl RTX4090Config {
    pub open spec fn spec_total_shards(&self) -> int {
        self.num_gpus * self.shards_per_gpu
    }

    pub open spec fn spec_available_mb(&self) -> int {
        self.num_gpus * self.memory_settings.available_vram_gb * 1024
    }

    pub open spec fn spec_valid(&self) -> bool {
        &&& self.num_gpus > 0
        &&& self.shards_per_gpu > 0
        &&& self.memory_per_shard_mb > 0
        &&& self.spec_total_shards() <= 32
    }

    /// The standard configuration resized for a pool of `num_gpus` cards, with
    /// the available memory split evenly over each card's shards.
    pub fn for_gpu_count(num_gpus: usize) -> (c: Self)
        ensures
            c.num_gpus == num_gpus,
            c.shards_per_gpu == shards_for_pool(num_gpus),
            c.memory_per_shard_mb == 22528int / (shards_for_pool(num_gpus) as int),
            c.max_concurrent_shards == 4,
            c.memory_settings.available_vram_gb == 22,
    {
        let mut config = Self::default();
        config.num_gpus = num_gpus;
        config.shards_per_gpu = if num_gpus == 1 {
            6
        } else if num_gpus == 2 {
            4
        } else if num_gpus == 3 || num_gpus == 4 {
            3
        } else {
            2
        };
        config.memory_per_shard_mb = config.memory_settings.available_vram_gb as u64 * 1024 / config.shards_per_gpu as u64;
        config
    }

    /// Shards over the whole pool.
    pub fn total_shards(&self) -> (n: usize)
        requires
            self.spec_total_shards() <= usize::MAX,
        ensures
            n == self.spec_total_shards(),
    {
        self.num_gpus * self.shards_per_gpu
    }

    /// Memory for proving over the whole pool, in MB.
    pub fn total_available_memory_mb(&self) -> (n: u64)
        requires
            self.spec_available_mb() <= u64::MAX,
        ensures
            n == self.spec_available_mb(),
    {
        self.num_gpus as u64 * self.memory_settings.available_vram_gb as u64 * 1024
    }

    pub fn memory_per_shard_mb(&self) -> (n: u64)
        ensures
            n == self.memory_per_shard_mb,
    {
        self.memory_per_shard_mb
    }

    /// Whether the pool has devices, shards and memory per shard, and at most
    /// 32 shards in all.
    pub fn is_valid(&self) -> (r: bool)
        ensures
            r == self.spec_valid(),
    {
        if self.num_gpus == 0 || self.shards_per_gpu == 0 || self.memory_per_shard_mb == 0 {
            return false;
        }
        match self.num_gpus.checked_mul(self.shards_per_gpu) {
            Some(total) => total <= 32,
            None => false,
        }
    }
}

/// Checks that a configuration is valid and that its shards fit in the
/// memory its devices offer.
pub fn validate_rtx4090_setup(config: &RTX4090Config) -> (r: Result<(), SetupError>)
    ensures
        match r {
            Ok(()) => config.spec_valid()
                && config.spec_total_shards() * config.memory_per_shard_mb <= config.spec_available_mb(),
            Err(SetupError::InvalidConfig) => !config.spec_valid(),
            Err(SetupError::InsufficientMemory { required_mb, available_mb }) => {
                &&& config.spec_valid()
                &&& required_mb == config.spec_total_shards() * config.memory_per_shard_mb
                &&& available_mb == config.spec_available_mb()
                &&& required_mb > available_mb
            },
        },
{
    if !config.is_valid() {
        return Err(SetupError::InvalidConfig);
    }
    let shards = config.num_gpus * config.shards_per_gpu;
    proof {
        assert(config.num_gpus <= 32) by (nonlinear_arith)
            requires
                config.num_gpus * config.shards_per_gpu <= 32,
                config.shards_per_gpu >= 1,
        ;
        assert((shards as int) * (config.memory_per_shard_mb as int) <= 32 * (u64::MAX as int)) by (nonlinear_arith)
            requires
                shards <= 32,
                config.memory_per_shard_mb <= u64::MAX,
        ;
        assert((config.num_gpus as int) * (config.memory_settings.available_vram_gb as int) <= 32 * (u32::MAX as int)) by (nonlinear_arith)
            requires
                config.num_gpus <= 32,
                config.memory_settings.available_vram_gb <= u32::MAX,
        ;
    }
    let required_mb: u128 = shards as u128 * config.memory_per_shard_mb as u128;
    let available_mb: u128 = config.num_gpus as u128 * config.memory_settings.available_vram_gb as u128 * 1024;
    if required_mb > available_mb {
        return Err(SetupError::InsufficientMemory { required_mb, available_mb });
    }
    Ok(())
}

/// The configuration recommended for a proof of `proof_size_mb` megabytes:
/// one card up to 100 MB, two up to 500, three up to 1000, else four.
pub fn get_recommended_config_for_proof_size(proof_size_mb: u64) -> (c: RTX4090Config)
    ensures
        c.num_gpus == pool_for_proof(proof_size_mb),
        c.shards_per_gpu == shards_for_pool(pool_for_proof(proof_size_mb)),
{
    let pool: usize = if proof_size_mb <= 100 {
        1
    } else if proof_size_mb <= 500 {
        2
    } else if proof_size_mb <= 1000 {
        3
    } else {
        4
    };
    RTX4090Config::for_gpu_count(pool)
}

/// The configuration assumed for a host of RTX 4090 cards.
pub fn detect_rtx4090_setup() -> (r: Option<RTX4090Config>)
    ensures
        r is Some,
        r.unwrap().num_gpus == 4,
{
    Some(RTX4090Config::default())
}

} // verus!
