use vstd::prelude::*;

use crate::checkpoint::{copy_bytes, snapshot_at, CheckpointStore};
use crate::config::ShardingConfig;
use vstd::arithmetic::div_mod::{lemma_fundamental_div_mod, lemma_mod_pos_bound};
use vstd::arithmetic::mul::lemma_mul_inequality;

verus! {

/// Requested proof strength, from the cheapest to produce to the cheapest to verify.
#[derive(Clone, Copy, Debug, PartialEq, Eq, Structural)]
pub enum AssuranceMode {
    Core,
    Compressed,
    Plonk,
    Groth16,
}

/// One unit of work submitted for proving: a program, its input and the
/// requested assurance mode.
pub struct Workload {
    pub id: u64,
    pub program: Vec<u8>,
    pub input: Vec<u8>,
    pub mode: AssuranceMode,
    pub deadline: Option<u64>,
}

/// One cycle range `[start_cycle, end_cycle)` of a workload, bound to a device.
pub struct ProofShard {
    pub shard_id: usize,
    pub gpu_id: usize,
    pub program_data: Vec<u8>,
    pub stdin_data: Vec<u8>,
    pub start_cycle: u64,
    pub end_cycle: u64,
    pub mode: AssuranceMode,
    pub checkpoint_data: Option<Vec<u8>>,
}

#[derive(Clone, Copy, Debug, PartialEq, Eq, Structural)]
pub enum PartitionError {
    /// No device, no slot per device, an empty shard size range, or more
    /// shards than can be counted.
    InvalidConfig,
}

/// Cycles per shard: `total / count` rounded up, clamped to `[lo, hi]`.
pub open spec fn cycles_per_shard(total: int, count: int, lo: int, hi: int) -> int {
    let even = (total + count - 1) / count;
    if even < lo {
        lo
    } else if even > hi {
        hi
    } else {
        even
    }
}

/// Where the `i`-th span of `size` cycles starts, cut off at `total`.
#[verifier::opaque]
pub open spec fn span_start(i: int, size: int, total: int) -> int {
    if i * size < total {
        i * size
    } else {
        total
    }
}

pub open spec fn shard_size(c: ShardingConfig, total: u64) -> int {
    cycles_per_shard(
        total as int,
        c.spec_shard_count(),
        c.min_cycles_per_shard as int,
        c.max_cycles_per_shard as int,
    )
}

/// Shard `i` of workload `w` as the partitioner lays it out.
pub open spec fn shard_ok(s: ProofShard, w: Workload, c: ShardingConfig, total: u64, i: int) -> bool {
    let size = shard_size(c, total);
    &&& s.shard_id == i
    &&& s.gpu_id == i % (c.num_gpus as int)
    &&& s.program_data@ == w.program@
    &&& s.stdin_data@ == w.input@
    &&& s.mode == w.mode
    &&& s.start_cycle == span_start(i, size, total as int)
    &&& s.end_cycle == span_start(i + 1, size, total as int)
    &&& s.checkpoint_data.is_some() == (c.enable_checkpointing && s.start_cycle > 0)
    &&& s.checkpoint_data.is_some() ==> s.checkpoint_data.unwrap()@ == snapshot_at(s.start_cycle)
}

/// `shards` is the partition of workload `w` of `total` cycles under `c`: one
/// shard per (device, slot) pair, or a single empty shard when there is no work.
pub open spec fn is_partition(shards: Seq<ProofShard>, w: Workload, c: ShardingConfig, total: u64) -> bool {
    &&& shards.len() == if total == 0 { 1 } else { c.spec_shard_count() }
    &&& forall|i: int| 0 <= i < shards.len() ==> #[trigger] shard_ok(shards[i], w, c, total, i)
}

/// The (workload, offset) keys of the snapshots that the first `n` shards need.
pub open spec fn snapshot_keys(w: Workload, c: ShardingConfig, total: u64, n: int) -> Set<(u64, u64)> {
    Set::new(|key: (u64, u64)| key.0 == w.id && c.enable_checkpointing
        && exists|j: int| 0 <= j < n && 0 < #[trigger] span_start(j, shard_size(c, total), total as int)
            && span_start(j, shard_size(c, total), total as int) == key.1)
}

/// Cycles per shard for `total` cycles over `count` shards.
pub fn shard_cycles(total: u64, count: usize, lo: u64, hi: u64) -> (r: u64)
    requires
        count >= 1,
        lo <= hi,
    ensures
        r == cycles_per_shard(total as int, count as int, lo as int, hi as int),
{
    let even: u128 = (total as u128 + count as u128 - 1) / count as u128;
    if even < lo as u128 {
        lo
    } else if even > hi as u128 {
        hi
    } else {
        even as u64
    }
}

fn span_bound(i: usize, size: u64, total: u64) -> (r: u64)
    ensures
        r == span_start(i as int, size as int, total as int),
{
    proof {
        reveal(span_start);
        assert((i as int) * (size as int) <= (usize::MAX as int) * (u64::MAX as int)) by (nonlinear_arith)
            requires
                i <= usize::MAX,
                size <= u64::MAX,
        ;
        assert((usize::MAX as int) * (u64::MAX as int) <= u128::MAX);
    }
    let at: u128 = i as u128 * size as u128;
    if at < total as u128 {
        at as u64
    } else {
        total
    }
}

/// Splits workload `w` of `total_cycles` cycles into shards, one per
/// (device, slot) pair, each bound to a device in turn. A shard that starts
/// past cycle zero gets the snapshot at its start when checkpointing is on,
/// reused from `store` or made there. A workload of no cycles yields one empty
/// shard.
pub fn create_shards(
    w: &Workload,
    total_cycles: u64,
    config: &ShardingConfig,
    store: &mut CheckpointStore,
) -> (r: Result<Vec<ProofShard>, PartitionError>)
    requires
        old(store).wf(),
    ensures
        final(store).wf(),
        match r {
            Ok(shards) => {
                &&& config.wf()
                &&& config.spec_shard_count() <= usize::MAX
                &&& is_partition(shards@, *w, *config, total_cycles)
                &&& final(store)@ == old(store)@.union(snapshot_keys(*w, *config, total_cycles, shards@.len() as int))
            },
            Err(e) => {
                &&& e == PartitionError::InvalidConfig
                &&& !(config.wf() && config.spec_shard_count() <= usize::MAX)
                &&& final(store)@ == old(store)@
            },
        },
{
    if !config.is_valid() {
        return Err(PartitionError::InvalidConfig);
    }
    let count = match config.num_gpus.checked_mul(config.shards_per_gpu) {
        Some(c) => c,
        None => {
            return Err(PartitionError::InvalidConfig);
        },
    };
    proof {
        let (g, k) = (config.num_gpus as int, config.shards_per_gpu as int);
        assert(g * k >= 1) by (nonlinear_arith)
            requires
                g >= 1,
                k >= 1,
        ;
    }
    let n: usize = if total_cycles == 0 { 1 } else { count };
    let size = shard_cycles(total_cycles, count, config.min_cycles_per_shard, config.max_cycles_per_shard);
    let ghost c = *config;
    let ghost start_set = old(store)@;
    let mut shards: Vec<ProofShard> = Vec::new();
    let mut i: usize = 0;
    while i < n
        invariant
            i <= n,
            n == if total_cycles == 0 { 1 } else { c.spec_shard_count() },
            count == c.spec_shard_count(),
            c == *config,
            c.wf(),
            size == shard_size(c, total_cycles),
            shards@.len() == i,
            forall|j: int| 0 <= j < i ==> #[trigger] shard_ok(shards@[j], *w, c, total_cycles, j),
            store.wf(),
            store@ == start_set.union(snapshot_keys(*w, c, total_cycles, i as int)),
        decreases n - i,
    {
        let start = span_bound(i, size, total_cycles);
        let end = span_bound(i + 1, size, total_cycles);
        let ghost before = store@;
        let checkpoint_data = if config.enable_checkpointing && start > 0 {
            Some(store.obtain(w.id, start))
        } else {
            None
        };
        proof {
            assert(store@ =~= start_set.union(snapshot_keys(*w, c, total_cycles, i as int + 1))) by {
                assert forall|key: (u64, u64)| #[trigger] snapshot_keys(*w, c, total_cycles, i as int + 1).contains(key)
                    <==> (snapshot_keys(*w, c, total_cycles, i as int).contains(key)
                        || (c.enable_checkpointing && start > 0 && key == (w.id, start))) by {
                    if snapshot_keys(*w, c, total_cycles, i as int + 1).contains(key) {
                        let j = choose|j: int| 0 <= j < i + 1
                            && 0 < #[trigger] span_start(j, shard_size(c, total_cycles), total_cycles as int)
                            && span_start(j, shard_size(c, total_cycles), total_cycles as int) == key.1;
                        if j < i {
                            assert(snapshot_keys(*w, c, total_cycles, i as int).contains(key));
                        }
                    }
                    if snapshot_keys(*w, c, total_cycles, i as int).contains(key) {
                        let j = choose|j: int| 0 <= j < i
                            && 0 < #[trigger] span_start(j, shard_size(c, total_cycles), total_cycles as int)
                            && span_start(j, shard_size(c, total_cycles), total_cycles as int) == key.1;
                        assert(0 <= j < i + 1);
                    }
                    if c.enable_checkpointing && start > 0 && key == (w.id, start) {
                        assert(0 < span_start(i as int, shard_size(c, total_cycles), total_cycles as int));
                    }
                }
            }
        }
        let shard = ProofShard {
            shard_id: i,
            gpu_id: i % config.num_gpus,
            program_data: copy_bytes(&w.program),
            stdin_data: copy_bytes(&w.input),
            start_cycle: start,
            end_cycle: end,
            mode: w.mode,
            checkpoint_data,
        };
        shards.push(shard);
        proof {
            assert(shard_ok(shards@[i as int], *w, c, total_cycles, i as int));
            assert forall|j: int| 0 <= j < i + 1 implies #[trigger] shard_ok(shards@[j], *w, c, total_cycles, j) by {
                if j < i {
                    assert(shard_ok(shards@[j], *w, c, total_cycles, j));
                }
            }
        }
        i = i + 1;
    }
    Ok(shards)
}

/// Cycle `x` lies in the range of one of `shards`.
pub open spec fn in_some_shard(shards: Seq<ProofShard>, x: int) -> bool {
    exists|i: int| 0 <= i < shards.len() && (#[trigger] shards[i]).start_cycle <= x < shards[i].end_cycle
}

/// Spans of one size start later the later they come.
pub proof fn lemma_span_monotone(i: int, j: int, size: int, total: int)
    requires
        0 <= i <= j,
        size >= 0,
    ensures
        span_start(i, size, total) <= span_start(j, size, total),
{
    reveal(span_start);
    lemma_mul_inequality(i, j, size);
}

/// With at least one cycle of work, shards are at least one cycle long, and
/// all of them together are long enough for the work when the largest shard
/// size allows it.
pub proof fn lemma_shard_size_fits(total: int, count: int, lo: int, hi: int)
    requires
        total > 0,
        count >= 1,
        0 <= lo <= hi,
        total <= count * hi,
    ensures
        cycles_per_shard(total, count, lo, hi) >= 1,
        count * cycles_per_shard(total, count, lo, hi) >= total,
{
    let x = total + count - 1;
    lemma_fundamental_div_mod(x, count);
    lemma_mod_pos_bound(x, count);
    let even = x / count;
    let r = x % count;
    assert(even >= 1 && count * even >= total) by (nonlinear_arith)
        requires
            x == count * even + r,
            0 <= r < count,
            x == total + count - 1,
            total > 0,
    ;
    let size = cycles_per_shard(total, count, lo, hi);
    if size != hi {
        assert(count * size >= count * even) by (nonlinear_arith)
            requires
                size >= even,
                count >= 1,
        ;
    }
    assert(hi >= 1) by (nonlinear_arith)
        requires
            total <= count * hi,
            total > 0,
            count >= 1,
    ;
}

/// Cycle `x` lies in one of the first `count` spans of `size` cycles.
pub open spec fn in_some_span(count: int, size: int, total: int, x: int) -> bool {
    exists|i: int| 0 <= i < count && #[trigger] span_start(i, size, total) <= x < span_start(i + 1, size, total)
}

/// Spans of `size >= 1` cycles, `count` of them long enough for `total`
/// cycles, start at zero, end at `total` and leave no cycle out.
pub proof fn lemma_spans_cover(count: int, size: int, total: int)
    requires
        count >= 1,
        size >= 1,
        total > 0,
        count * size >= total,
    ensures
        span_start(0, size, total) == 0,
        span_start(count, size, total) == total,
        forall|x: int| 0 <= x < total ==> #[trigger] in_some_span(count, size, total, x),
{
    reveal(span_start);
    assert(span_start(count, size, total) == total);
    assert forall|x: int| 0 <= x < total implies #[trigger] in_some_span(count, size, total, x) by {
        lemma_fundamental_div_mod(x, size);
        lemma_mod_pos_bound(x, size);
        let i = x / size;
        let r = x % size;
        assert(0 <= i < count && i * size <= x < (i + 1) * size) by (nonlinear_arith)
            requires
                x == size * i + r,
                0 <= r < size,
                0 <= x < total,
                count * size >= total,
        ;
        assert(span_start(i, size, total) <= x < span_start(i + 1, size, total));
    }
}

/// For a valid configuration and a workload of at least one cycle that fits in
/// the shards at their largest size, there is one shard per (device, slot)
/// pair, and the shard ranges lie back to back from cycle zero to the end of
/// the work: every cycle falls in exactly one shard.
pub proof fn lemma_partition_covers(shards: Seq<ProofShard>, w: Workload, c: ShardingConfig, total: u64)
    requires
        c.wf(),
        total > 0,
        total <= c.spec_shard_count() * c.max_cycles_per_shard,
        is_partition(shards, w, c, total),
    ensures
        shards.len() == c.num_gpus * c.shards_per_gpu,
        shards[0].start_cycle == 0,
        shards.last().end_cycle == total,
        forall|i: int| 0 <= i < shards.len() ==> (#[trigger] shards[i]).start_cycle <= shards[i].end_cycle,
        forall|i: int, j: int| 0 <= i && j == i + 1 && j < shards.len() ==> (#[trigger] shards[i]).end_cycle == (#[trigger] shards[j]).start_cycle,
        forall|i: int, j: int| 0 <= i < j < shards.len() ==> (#[trigger] shards[i]).end_cycle <= (#[trigger] shards[j]).start_cycle,
        forall|x: int| 0 <= x < total ==> #[trigger] in_some_shard(shards, x),
{
    let count = c.spec_shard_count();
    let size = shard_size(c, total);
    let t = total as int;
    assert(count >= 1) by (nonlinear_arith)
        requires
            count == c.num_gpus * c.shards_per_gpu,
            c.num_gpus >= 1,
            c.shards_per_gpu >= 1,
    ;
    lemma_shard_size_fits(t, count, c.min_cycles_per_shard as int, c.max_cycles_per_shard as int);
    lemma_spans_cover(count, size, t);
    assert forall|i: int| 0 <= i < shards.len() implies (#[trigger] shards[i]).start_cycle == span_start(i, size, t)
        && shards[i].end_cycle == span_start(i + 1, size, t) by {
        assert(shard_ok(shards[i], w, c, total, i));
    }
    lemma_spans_ordered(shards, count, size, t);
}

/// Shards laid on consecutive spans are ordered and cover the spans.
proof fn lemma_spans_ordered(shards: Seq<ProofShard>, count: int, size: int, t: int)
    requires
        shards.len() == count,
        count >= 1,
        size >= 1,
        forall|i: int| 0 <= i < shards.len() ==> (#[trigger] shards[i]).start_cycle == span_start(i, size, t)
            && shards[i].end_cycle == span_start(i + 1, size, t),
        span_start(0, size, t) == 0,
        span_start(count, size, t) == t,
        forall|x: int| 0 <= x < t ==> #[trigger] in_some_span(count, size, t, x),
    ensures
        shards[0].start_cycle == 0,
        shards.last().end_cycle == t,
        forall|i: int| 0 <= i < shards.len() ==> (#[trigger] shards[i]).start_cycle <= shards[i].end_cycle,
        forall|i: int, j: int| 0 <= i && j == i + 1 && j < shards.len() ==> (#[trigger] shards[i]).end_cycle == (#[trigger] shards[j]).start_cycle,
        forall|i: int, j: int| 0 <= i < j < shards.len() ==> (#[trigger] shards[i]).end_cycle <= (#[trigger] shards[j]).start_cycle,
        forall|x: int| 0 <= x < t ==> #[trigger] in_some_shard(shards, x),
{
    assert(shards[count - 1].end_cycle == t);
    assert forall|i: int| 0 <= i < shards.len() implies (#[trigger] shards[i]).start_cycle <= shards[i].end_cycle by {
        lemma_span_monotone(i, i + 1, size, t);
    }
    lemma_spans_adjacent(shards, count, size, t);
    lemma_spans_disjoint(shards, count, size, t);
    lemma_spans_no_gap(shards, count, size, t);
}

proof fn lemma_spans_adjacent(shards: Seq<ProofShard>, count: int, size: int, t: int)
    requires
        shards.len() == count,
        count >= 1,
        size >= 1,
        forall|i: int| 0 <= i < shards.len() ==> (#[trigger] shards[i]).start_cycle == span_start(i, size, t)
            && shards[i].end_cycle == span_start(i + 1, size, t),
    ensures
        forall|i: int, j: int| 0 <= i && j == i + 1 && j < shards.len() ==> (#[trigger] shards[i]).end_cycle == (#[trigger] shards[j]).start_cycle,
{
    assert forall|i: int, j: int| 0 <= i && j == i + 1 && j < shards.len() implies (#[trigger] shards[i]).end_cycle == (#[trigger] shards[j]).start_cycle by {
        assert(shards[j].start_cycle == span_start(i + 1, size, t));
    }
}

proof fn lemma_spans_disjoint(shards: Seq<ProofShard>, count: int, size: int, t: int)
    requires
        shards.len() == count,
        count >= 1,
        size >= 1,
        forall|i: int| 0 <= i < shards.len() ==> (#[trigger] shards[i]).start_cycle == span_start(i, size, t)
            && shards[i].end_cycle == span_start(i + 1, size, t),
    ensures
        forall|i: int, j: int| 0 <= i < j < shards.len() ==> (#[trigger] shards[i]).end_cycle <= (#[trigger] shards[j]).start_cycle,
{
    assert forall|i: int, j: int| 0 <= i < j < shards.len() implies (#[trigger] shards[i]).end_cycle <= (#[trigger] shards[j]).start_cycle by {
        lemma_span_monotone(i + 1, j, size, t);
    }
}

proof fn lemma_spans_no_gap(shards: Seq<ProofShard>, count: int, size: int, t: int)
    requires
        shards.len() == count,
        count >= 1,
        size >= 1,
        forall|i: int| 0 <= i < shards.len() ==> (#[trigger] shards[i]).start_cycle == span_start(i, size, t)
            && shards[i].end_cycle == span_start(i + 1, size, t),
        forall|x: int| 0 <= x < t ==> #[trigger] in_some_span(count, size, t, x),
    ensures
        forall|x: int| 0 <= x < t ==> #[trigger] in_some_shard(shards, x),
{
    assert forall|x: int| 0 <= x < t implies #[trigger] in_some_shard(shards, x) by {
        assert(in_some_span(count, size, t, x));
        let i = choose|i: int| 0 <= i < count && #[trigger] span_start(i, size, t) <= x < span_start(i + 1, size, t);
        assert(shards[i].start_cycle <= x < shards[i].end_cycle);
    }
}

/// A workload of no cycles is a single empty shard at cycle zero, with no snapshot.
pub proof fn lemma_empty_workload(shards: Seq<ProofShard>, w: Workload, c: ShardingConfig)
    requires
        c.wf(),
        is_partition(shards, w, c, 0),
    ensures
        shards.len() == 1,
        shards[0].shard_id == 0,
        shards[0].start_cycle == 0,
        shards[0].end_cycle == 0,
        shards[0].checkpoint_data.is_none(),
{
    let count = c.spec_shard_count();
    assert(count >= 1) by (nonlinear_arith)
        requires
            count == c.num_gpus * c.shards_per_gpu,
            c.num_gpus >= 1,
            c.shards_per_gpu >= 1,
    ;
    reveal(span_start);
    lemma_fundamental_div_mod(count - 1, count);
    lemma_mod_pos_bound(count - 1, count);
    let q = (count - 1) / count;
    let r = (count - 1) % count;
    assert(q >= 0) by (nonlinear_arith)
        requires
            count - 1 == count * q + r,
            0 <= r < count,
    ;
    assert(shard_ok(shards[0], w, c, 0, 0));
}

} // verus!
