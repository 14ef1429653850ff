use vstd::prelude::*;

use crate::capacity::{CapacityGate, GateError, Permit};
use crate::checkpoint::CheckpointStore;
use crate::config::ShardingConfig;
use crate::partition::{create_shards, is_partition, PartitionError, ProofShard, Workload};

verus! {

/// Running totals over the workloads a scheduler has completed.
#[derive(Clone, Copy, Debug, PartialEq, Eq, Structural)]
pub struct ShardedProverMetrics {
    pub total_proofs_processed: u64,
    pub total_shards_processed: u64,
    pub average_latency_ms: u64,
    pub total_processing_time_ms: u64,
}

impl ShardedProverMetrics {
    /// No workload completed yet.
    pub fn new() -> (m: Self)
        ensures
            m == (ShardedProverMetrics {
                total_proofs_processed: 0,
                total_shards_processed: 0,
                average_latency_ms: 0,
                total_processing_time_ms: 0,
            }),
    {
        ShardedProverMetrics {
            total_proofs_processed: 0,
            total_shards_processed: 0,
            average_latency_ms: 0,
            total_processing_time_ms: 0,
        }
    }

    /// Whether one more workload of `processing_time_ms` and `num_shards`
    /// shards can be counted without a total overflowing.
    pub open spec fn can_record(&self, processing_time_ms: u64, num_shards: usize) -> bool {
        &&& self.total_proofs_processed < u64::MAX
        &&& self.total_shards_processed + num_shards <= u64::MAX
        &&& self.total_processing_time_ms + processing_time_ms <= u64::MAX
    }

    /// Counts one completed workload and updates the average latency. When a
    /// total would overflow nothing is counted and `false` is returned.
    pub fn record(&mut self, processing_time_ms: u64, num_shards: usize) -> (ok: bool)
        ensures
            ok == old(self).can_record(processing_time_ms, num_shards),
            ok ==> {
                &&& final(self).total_proofs_processed == old(self).total_proofs_processed + 1
                &&& final(self).total_shards_processed == old(self).total_shards_processed + num_shards
                &&& final(self).total_processing_time_ms == old(self).total_processing_time_ms + processing_time_ms
                &&& final(self).average_latency_ms == final(self).total_processing_time_ms / final(self).total_proofs_processed
            },
            !ok ==> *final(self) == *old(self),
    {
        if self.total_proofs_processed == u64::MAX || num_shards as u128 > (u64::MAX - self.total_shards_processed) as u128
            || processing_time_ms > u64::MAX - self.total_processing_time_ms {
            return false;
        }
        self.total_proofs_processed = self.total_proofs_processed + 1;
        self.total_shards_processed = self.total_shards_processed + num_shards as u64;
        self.total_processing_time_ms = self.total_processing_time_ms + processing_time_ms;
        self.average_latency_ms = self.total_processing_time_ms / self.total_proofs_processed;
        true
    }
}

/// The scheduler's own state: the device pool, its admission gate, the
/// snapshots of running workloads and the running totals.
pub struct ShardScheduler {
    config: ShardingConfig,
    gpu_devices: Vec<usize>,
    gate: CapacityGate,
    checkpoints: CheckpointStore,
    metrics: ShardedProverMetrics,
}

impl ShardScheduler {
    pub closed spec fn wf(&self) -> bool {
        &&& self.config.wf()
        &&& self.gate.wf()
        &&& self.checkpoints.wf()
        &&& self.gate.devices() == self.config.num_gpus
        &&& self.gate.limit() == self.config.shards_per_gpu
    }

    pub closed spec fn spec_config(&self) -> ShardingConfig {
        self.config
    }

    pub closed spec fn spec_gate(&self) -> CapacityGate {
        self.gate
    }

    pub closed spec fn spec_checkpoints(&self) -> CheckpointStore {
        self.checkpoints
    }

    pub closed spec fn spec_metrics(&self) -> ShardedProverMetrics {
        self.metrics
    }

    pub closed spec fn spec_devices(&self) -> Seq<usize> {
        self.gpu_devices@
    }

    /// A scheduler for `config`, with every slot free and nothing stored.
    pub fn new(config: ShardingConfig) -> (r: Result<Self, PartitionError>)
        ensures
            match r {
                Ok(s) => {
                    &&& config.wf()
                    &&& s.wf()
                    &&& s.spec_config() == config
                    &&& s.spec_devices() == Seq::new(config.num_gpus as nat, |i: int| i as usize)
                    &&& s.spec_gate().devices() == config.num_gpus
                    &&& s.spec_gate().limit() == config.shards_per_gpu
                    &&& forall|d: int| 0 <= d < config.num_gpus ==> #[trigger] s.spec_gate().held(d) == 0
                    &&& s.spec_checkpoints()@ == Set::<(u64, u64)>::empty()
                    &&& s.spec_metrics() == ShardedProverMetrics::new_spec()
                },
                Err(e) => !config.wf() && e == PartitionError::InvalidConfig,
            },
    {
        if !config.is_valid() {
            return Err(PartitionError::InvalidConfig);
        }
        let mut gpu_devices: Vec<usize> = Vec::new();
        let mut i: usize = 0;
        while i < config.num_gpus
            invariant
                i <= config.num_gpus,
                gpu_devices@ == Seq::new(i as nat, |j: int| j as usize),
            decreases config.num_gpus - i,
        {
            gpu_devices.push(i);
            i = i + 1;
            assert(gpu_devices@ =~= Seq::new(i as nat, |j: int| j as usize));
        }
        let gate = CapacityGate::new(config.num_gpus, config.shards_per_gpu);
        let checkpoints = CheckpointStore::new();
        let metrics = ShardedProverMetrics::new();
        Ok(ShardScheduler { config, gpu_devices, gate, checkpoints, metrics })
    }

    /// The configuration.
    pub fn config(&self) -> (c: &ShardingConfig)
        ensures
            *c == self.spec_config(),
    {
        &self.config
    }

    /// The device ids of the pool.
    pub fn devices(&self) -> (d: &Vec<usize>)
        ensures
            d@ == self.spec_devices(),
    {
        &self.gpu_devices
    }

    /// The running totals.
    pub fn metrics(&self) -> (m: ShardedProverMetrics)
        ensures
            m == self.spec_metrics(),
    {
        self.metrics
    }

    /// Splits a workload into shards, making or reusing the snapshots they start from.
    pub fn plan(&mut self, w: &Workload, total_cycles: u64) -> (r: Result<Vec<ProofShard>, PartitionError>)
        requires
            old(self).wf(),
        ensures
            final(self).wf(),
            final(self).spec_config() == old(self).spec_config(),
            final(self).spec_gate() == old(self).spec_gate(),
            final(self).spec_metrics() == old(self).spec_metrics(),
            match r {
                Ok(shards) => is_partition(shards@, *w, old(self).spec_config(), total_cycles),
                Err(_) => old(self).spec_config().spec_shard_count() > usize::MAX,
            },
            final(self).spec_checkpoints()@.subset_of(
                old(self).spec_checkpoints()@.union(Set::new(|key: (u64, u64)| key.0 == w.id)),
            ),
            old(self).spec_checkpoints()@.subset_of(final(self).spec_checkpoints()@),
    {
        create_shards(w, total_cycles, &self.config, &mut self.checkpoints)
    }

    /// Takes a slot of `device` for one shard when one is free.
    pub fn acquire(&mut self, device: usize) -> (r: Result<Permit, GateError>)
        requires
            old(self).wf(),
        ensures
            final(self).wf(),
            final(self).spec_config() == old(self).spec_config(),
            final(self).spec_checkpoints() == old(self).spec_checkpoints(),
            final(self).spec_metrics() == old(self).spec_metrics(),
            r is Ok <==> (device < old(self).spec_config().num_gpus
                && old(self).spec_gate().held(device as int) < old(self).spec_config().shards_per_gpu),
            r is Ok ==> {
                &&& r->Ok_0.spec_device() == device
                &&& final(self).spec_gate().held(device as int) == old(self).spec_gate().held(device as int) + 1
            },
            r is Err ==> {
                &&& final(self).spec_gate() == old(self).spec_gate()
                &&& r->Err_0 == if device >= old(self).spec_config().num_gpus {
                    GateError::UnknownDevice
                } else {
                    GateError::NoFreeSlot
                }
            },
            forall|d: int| 0 <= d < old(self).spec_config().num_gpus && d != device
                ==> #[trigger] final(self).spec_gate().held(d) == old(self).spec_gate().held(d),
    {
        self.gate.try_acquire(device)
    }

    /// Frees the slot a finished shard held.
    pub fn release(&mut self, permit: Permit) -> (r: Result<(), GateError>)
        requires
            old(self).wf(),
        ensures
            final(self).wf(),
            final(self).spec_config() == old(self).spec_config(),
            final(self).spec_checkpoints() == old(self).spec_checkpoints(),
            final(self).spec_metrics() == old(self).spec_metrics(),
            r is Ok <==> (permit.spec_device() < old(self).spec_config().num_gpus
                && old(self).spec_gate().held(permit.spec_device() as int) > 0),
            r is Ok ==> final(self).spec_gate().held(permit.spec_device() as int)
                == old(self).spec_gate().held(permit.spec_device() as int) - 1,
            r is Err ==> {
                &&& final(self).spec_gate() == old(self).spec_gate()
                &&& r->Err_0 == if permit.spec_device() >= old(self).spec_config().num_gpus {
                    GateError::UnknownDevice
                } else {
                    GateError::NotHeld
                }
            },
            forall|d: int| 0 <= d < old(self).spec_config().num_gpus && d != permit.spec_device()
                ==> #[trigger] final(self).spec_gate().held(d) == old(self).spec_gate().held(d),
    {
        self.gate.release(permit)
    }

    /// Ends a workload that failed: its snapshots are dropped and the totals,
    /// which count proved workloads only, stay as they are.
    pub fn drop_workload(&mut self, workload_id: u64)
        requires
            old(self).wf(),
        ensures
            final(self).wf(),
            final(self).spec_config() == old(self).spec_config(),
            final(self).spec_gate() == old(self).spec_gate(),
            final(self).spec_checkpoints()@ == old(self).spec_checkpoints()@.filter(|key: (u64, u64)| key.0 != workload_id),
            final(self).spec_metrics() == old(self).spec_metrics(),
    {
        self.checkpoints.discard(workload_id);
    }

    /// Ends a workload that was proved: its snapshots are dropped and it is
    /// counted in the totals.
    pub fn finish_workload(&mut self, workload_id: u64, processing_time_ms: u64, num_shards: usize) -> (counted: bool)
        requires
            old(self).wf(),
        ensures
            final(self).wf(),
            final(self).spec_config() == old(self).spec_config(),
            final(self).spec_gate() == old(self).spec_gate(),
            final(self).spec_checkpoints()@ == old(self).spec_checkpoints()@.filter(|key: (u64, u64)| key.0 != workload_id),
            counted == old(self).spec_metrics().can_record(processing_time_ms, num_shards),
            counted ==> {
                &&& final(self).spec_metrics().total_proofs_processed == old(self).spec_metrics().total_proofs_processed + 1
                &&& final(self).spec_metrics().total_shards_processed
                    == old(self).spec_metrics().total_shards_processed + num_shards
                &&& final(self).spec_metrics().total_processing_time_ms
                    == old(self).spec_metrics().total_processing_time_ms + processing_time_ms
                &&& final(self).spec_metrics().average_latency_ms
                    == final(self).spec_metrics().total_processing_time_ms / final(self).spec_metrics().total_proofs_processed
            },
            !counted ==> final(self).spec_metrics() == old(self).spec_metrics(),
    {
        self.checkpoints.discard(workload_id);
        self.metrics.record(processing_time_ms, num_shards)
    }
}

impl ShardedProverMetrics {
    pub open spec fn new_spec() -> Self {
        ShardedProverMetrics {
            total_proofs_processed: 0,
            total_shards_processed: 0,
            average_latency_ms: 0,
            total_processing_time_ms: 0,
        }
    }
}

} // verus!
