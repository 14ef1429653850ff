use vstd::prelude::*;

verus! {

/// Number of occurrences of byte `b` in `s`.
pub open spec fn count_byte(s: Seq<u8>, b: u8) -> nat
    decreases s.len(),
{
    if s.len() == 0 {
        0
    } else {
        count_byte(s.drop_last(), b) + if s.last() == b { 1nat } else { 0nat }
    }
}

/// Number of lines in a text, as `str::lines` counts them: every newline ends
/// a line, and a trailing piece without a newline is a line of its own.
pub open spec fn line_count(s: Seq<u8>) -> nat {
    count_byte(s, 10u8) + if s.len() > 0 && s.last() != 10u8 { 1nat } else { 0nat }
}

/// Number of pieces that splitting a text at `sep` yields (at least one).
pub open spec fn field_count(s: Seq<u8>, sep: u8) -> nat {
    count_byte(s, sep) + 1
}

/// No byte occurs more often than the text is long.
pub proof fn lemma_count_byte_bound(s: Seq<u8>, b: u8)
    ensures
        count_byte(s, b) <= s.len(),
    decreases s.len(),
{
    if s.len() > 0 {
        lemma_count_byte_bound(s.drop_last(), b);
    }
}

/// Counts the occurrences of `b` in `s`.
pub fn count_occurrences(s: &[u8], b: u8) -> (n: usize)
    ensures
        n == count_byte(s@, b),
        n <= s@.len(),
{
    let mut n: usize = 0;
    let mut i: usize = 0;
    while i < s.len()
        invariant
            i <= s@.len(),
            n == count_byte(s@.subrange(0, i as int), b),
            n <= i,
        decreases s@.len() - i,
    {
        assert(s@.subrange(0, i as int + 1).drop_last() =~= s@.subrange(0, i as int));
        if s[i] == b {
            n = n + 1;
        }
        i = i + 1;
    }
    assert(s@.subrange(0, s@.len() as int) =~= s@);
    n
}

/// Configuration of the device pool and of the shard sizing policy.
#[derive(Clone, Copy, Debug, PartialEq, Eq, Structural)]
pub struct ShardingConfig {
    pub num_gpus: usize,
    pub shards_per_gpu: usize,
    pub min_cycles_per_shard: u64,
    pub max_cycles_per_shard: u64,
    pub enable_checkpointing: bool,
    pub checkpoint_interval: u64,
}

/// Description of one device of the pool.
#[derive(Clone, Debug)]
pub struct GpuInfo {
    pub id: usize,
    pub name: String,
    pub memory_total: u64,
    pub memory_free: u64,
}

impl ShardingConfig {
    /// A configuration the scheduler can run: at least one device, at least one
    /// slot per device, and a shard size range that is not empty.
    pub open spec fn wf(&self) -> bool {
        &&& self.num_gpus >= 1
        &&& self.shards_per_gpu >= 1
        &&& self.min_cycles_per_shard <= self.max_cycles_per_shard
    }

    /// Number of shards a workload is split into.
    pub open spec fn spec_shard_count(&self) -> int {
        self.num_gpus * self.shards_per_gpu
    }

    pub open spec fn has(
        &self,
        num_gpus: usize,
        shards_per_gpu: usize,
        min_cycles: u64,
        max_cycles: u64,
        checkpoint_interval: u64,
    ) -> bool {
        &&& self.num_gpus == num_gpus
        &&& self.shards_per_gpu == shards_per_gpu
        &&& self.min_cycles_per_shard == min_cycles
        &&& self.max_cycles_per_shard == max_cycles
        &&& self.enable_checkpointing
        &&& self.checkpoint_interval == checkpoint_interval
    }

    /// Checks the configuration invariant at run time.
    pub fn is_valid(&self) -> (r: bool)
        ensures
            r == self.wf(),
    {
        self.num_gpus >= 1 && self.shards_per_gpu >= 1
            && self.min_cycles_per_shard <= self.max_cycles_per_shard
    }

    /// The device count to use, decided from what the host reports: the number
    /// of lines that the device listing tool printed when it succeeded and
    /// printed any, else the number of comma-separated entries of the visible
    /// device list when it is set, else a single device.
    pub fn gpu_count_from(listing: Option<&[u8]>, visible_devices: Option<&[u8]>) -> (n: usize)
        requires
            visible_devices.is_some() ==> visible_devices.unwrap()@.len() < usize::MAX,
        ensures
            n == (if listing.is_some() && line_count(listing.unwrap()@) > 0 {
                line_count(listing.unwrap()@)
            } else if visible_devices.is_some() {
                field_count(visible_devices.unwrap()@, 44u8)
            } else {
                1
            }),
    {
        if let Some(out) = listing {
            let newlines = count_occurrences(out, 10u8);
            let n = if out.len() > 0 && out[out.len() - 1] != 10u8 {
                proof {
                    lemma_count_byte_bound(out@.drop_last(), 10u8);
                }
                newlines + 1
            } else {
                newlines
            };
            if n > 0 {
                return n;
            }
        }
        if let Some(v) = visible_devices {
            return count_occurrences(v, 44u8) + 1;
        }
        1
    }

    /// Standard sizing for a pool of `num_gpus` devices, as the tuple
    /// (devices, shards per device, minimum cycles, maximum cycles, checkpoint interval).
    pub fn detect_gpu_configuration(num_gpus: usize) -> (r: (usize, usize, u64, u64, u64))
        ensures
            r == (num_gpus, 4usize, 2_000_000u64, 20_000_000u64, 2_000_000u64),
    {
        (num_gpus, 4, 2_000_000, 20_000_000, 2_000_000)
    }

    /// Standard configuration for a pool of `num_gpus` devices, with checkpointing on.
    pub fn standard(num_gpus: usize) -> (c: Self)
        ensures
            c.has(num_gpus, 4, 2_000_000, 20_000_000, 2_000_000),
    {
        let (n, s, lo, hi, interval) = Self::detect_gpu_configuration(num_gpus);
        ShardingConfig {
            num_gpus: n,
            shards_per_gpu: s,
            min_cycles_per_shard: lo,
            max_cycles_per_shard: hi,
            enable_checkpointing: true,
            checkpoint_interval: interval,
        }
    }

    /// Sizing for 24 GB cards of the RTX 4090 class.
    pub fn rtx4090_optimized(num_gpus: usize) -> (c: Self)
        ensures
            c.has(num_gpus, 6, 5_000_000, 50_000_000, 5_000_000),
    {
        ShardingConfig {
            num_gpus,
            shards_per_gpu: 6,
            min_cycles_per_shard: 5_000_000,
            max_cycles_per_shard: 50_000_000,
            enable_checkpointing: true,
            checkpoint_interval: 5_000_000,
        }
    }

    /// Sizing for 16 GB cards of the RTX 4080 class.
    pub fn rtx4080_optimized(num_gpus: usize) -> (c: Self)
        ensures
            c.has(num_gpus, 4, 3_000_000, 30_000_000, 3_000_000),
    {
        ShardingConfig {
            num_gpus,
            shards_per_gpu: 4,
            min_cycles_per_shard: 3_000_000,
            max_cycles_per_shard: 30_000_000,
            enable_checkpointing: true,
            checkpoint_interval: 3_000_000,
        }
    }

    /// Sizing for 40 GB cards of the A100 class.
    pub fn a100_optimized(num_gpus: usize) -> (c: Self)
        ensures
            c.has(num_gpus, 8, 10_000_000, 100_000_000, 10_000_000),
    {
        ShardingConfig {
            num_gpus,
            shards_per_gpu: 8,
            min_cycles_per_shard: 10_000_000,
            max_cycles_per_shard: 100_000_000,
            enable_checkpointing: true,
            checkpoint_interval: 10_000_000,
        }
    }

    /// Sizing for 24 GB cards of the RTX 3090 class.
    pub fn rtx3090_optimized(num_gpus: usize) -> (c: Self)
        ensures
            c.has(num_gpus, 6, 4_000_000, 40_000_000, 4_000_000),
    {
        ShardingConfig {
            num_gpus,
            shards_per_gpu: 6,
            min_cycles_per_shard: 4_000_000,
            max_cycles_per_shard: 40_000_000,
            enable_checkpointing: true,
            checkpoint_interval: 4_000_000,
        }
    }

    /// Sizing for 10 GB cards of the RTX 3080 class.
    pub fn rtx3080_optimized(num_gpus: usize) -> (c: Self)
        ensures
            c.has(num_gpus, 3, 1_500_000, 15_000_000, 1_500_000),
    {
        ShardingConfig {
            num_gpus,
            shards_per_gpu: 3,
            min_cycles_per_shard: 1_500_000,
            max_cycles_per_shard: 15_000_000,
            enable_checkpointing: true,
            checkpoint_interval: 1_500_000,
        }
    }
}

} // verus!
