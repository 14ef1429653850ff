use vstd::prelude::*;

use crate::partition::ProofShard;

verus! {

/// Why one shard produced no artifact.
#[derive(Debug)]
pub enum ExecutionError {
    /// The proving engine failed to set up, execute or prove.
    Engine(String),
    /// The device's admission gate could not hand out a permit.
    PermitPoisoned,
}

/// What running one shard produced, with the measurements taken on completion.
#[derive(Debug)]
pub struct ShardResult<A> {
    pub shard_id: usize,
    pub gpu_id: usize,
    pub proof: Result<A, ExecutionError>,
    pub cycles: u64,
    pub processing_time_ms: u64,
    pub memory_usage: u64,
    /// Device utilization in tenths of a percent.
    pub gpu_utilization_permille: u32,
}

#[derive(Debug)]
pub enum CompositionError {
    /// There were no shard results at all.
    NoShards,
    /// These shards failed, in the order their results came.
    FailedShards(Vec<usize>),
    /// The shard ids are not exactly `0..n` for `n` results: a shard is
    /// missing, repeated or unknown.
    IncompleteShards,
}

impl<A> ShardResult<A> {
    /// The result of running `shard`, which ended with `proof`.
    pub fn from_shard(
        shard: &ProofShard,
        proof: Result<A, ExecutionError>,
        processing_time_ms: u64,
        memory_usage: u64,
        gpu_utilization_permille: u32,
    ) -> (r: Self)
        requires
            shard.start_cycle <= shard.end_cycle,
        ensures
            r.shard_id == shard.shard_id,
            r.gpu_id == shard.gpu_id,
            r.proof == proof,
            r.cycles == shard.end_cycle - shard.start_cycle,
            r.processing_time_ms == processing_time_ms,
            r.memory_usage == memory_usage,
            r.gpu_utilization_permille == gpu_utilization_permille,
    {
        ShardResult {
            shard_id: shard.shard_id,
            gpu_id: shard.gpu_id,
            proof,
            cycles: shard.end_cycle - shard.start_cycle,
            processing_time_ms,
            memory_usage,
            gpu_utilization_permille,
        }
    }
}

/// Ids of the failed shards among `rs`, in order.
pub open spec fn failing_ids<A>(rs: Seq<ShardResult<A>>) -> Seq<usize>
    decreases rs.len(),
{
    if rs.len() == 0 {
        Seq::empty()
    } else if rs.last().proof is Err {
        failing_ids(rs.drop_last()).push(rs.last().shard_id)
    } else {
        failing_ids(rs.drop_last())
    }
}

/// The shard ids of `rs` are `0..rs.len()`, each once.
pub open spec fn ids_exact<A>(rs: Seq<ShardResult<A>>) -> bool {
    &&& forall|j: int| 0 <= j < rs.len() ==> (#[trigger] rs[j]).shard_id < rs.len()
    &&& forall|i: int, j: int| 0 <= i < j < rs.len() ==> (#[trigger] rs[i]).shard_id != (#[trigger] rs[j]).shard_id
}

/// `artifacts` are the artifacts of `rs` in shard id order.
pub open spec fn in_shard_order<A>(rs: Seq<ShardResult<A>>, artifacts: Seq<A>) -> bool {
    &&& artifacts.len() == rs.len()
    &&& forall|j: int| 0 <= j < rs.len() ==> (#[trigger] rs[j]).proof == Ok::<A, ExecutionError>(artifacts[rs[j].shard_id as int])
}

/// What combining the results `rs` of a workload's shards yields.
pub open spec fn combined<A>(rs: Seq<ShardResult<A>>, r: Result<Vec<A>, CompositionError>) -> bool {
    if rs.len() == 0 {
        r matches Err(CompositionError::NoShards)
    } else if failing_ids(rs).len() > 0 {
        r matches Err(CompositionError::FailedShards(ids)) && ids@ == failing_ids(rs)
    } else if !ids_exact(rs) {
        r matches Err(CompositionError::IncompleteShards)
    } else {
        r matches Ok(artifacts) && in_shard_order(rs, artifacts@)
    }
}

proof fn lemma_failing_ids_empty<A>(rs: Seq<ShardResult<A>>)
    requires
        failing_ids(rs).len() == 0,
    ensures
        forall|j: int| 0 <= j < rs.len() ==> (#[trigger] rs[j]).proof is Ok,
    decreases rs.len(),
{
    if rs.len() > 0 {
        lemma_failing_ids_empty(rs.drop_last());
        assert forall|j: int| 0 <= j < rs.len() implies (#[trigger] rs[j]).proof is Ok by {
            if j < rs.len() - 1 {
                assert(rs.drop_last()[j] == rs[j]);
            }
        }
    }
}

proof fn lemma_failing_ids_has<A>(rs: Seq<ShardResult<A>>, j: int)
    requires
        0 <= j < rs.len(),
        rs[j].proof is Err,
    ensures
        failing_ids(rs).len() > 0,
        failing_ids(rs).contains(rs[j].shard_id),
    decreases rs.len(),
{
    if j < rs.len() - 1 {
        assert(rs.drop_last()[j] == rs[j]);
        lemma_failing_ids_has(rs.drop_last(), j);
        if rs.last().proof is Err {
            let k = choose|k: int| 0 <= k < failing_ids(rs.drop_last()).len()
                && failing_ids(rs.drop_last())[k] == rs[j].shard_id;
            assert(failing_ids(rs)[k] == rs[j].shard_id);
        }
    } else {
        assert(failing_ids(rs).last() == rs[j].shard_id);
    }
}

/// Ids of the shards whose result is a failure, in order.
fn collect_failures<A>(rs: &Vec<ShardResult<A>>) -> (ids: Vec<usize>)
    ensures
        ids@ == failing_ids(rs@),
{
    let mut ids: Vec<usize> = Vec::new();
    let mut i: usize = 0;
    while i < rs.len()
        invariant
            i <= rs@.len(),
            ids@ == failing_ids(rs@.subrange(0, i as int)),
        decreases rs@.len() - i,
    {
        assert(rs@.subrange(0, i as int + 1).drop_last() =~= rs@.subrange(0, i as int));
        if rs[i].proof.is_err() {
            ids.push(rs[i].shard_id);
        }
        i = i + 1;
    }
    assert(rs@.subrange(0, rs@.len() as int) =~= rs@);
    ids
}

/// Whether the shard ids of `rs` are exactly `0..rs.len()`.
fn check_ids<A>(rs: &Vec<ShardResult<A>>) -> (ok: bool)
    ensures
        ok == ids_exact(rs@),
{
    let n = rs.len();
    let mut seen: Vec<bool> = Vec::new();
    let mut k: usize = 0;
    while k < n
        invariant
            k <= n,
            n == rs@.len(),
            seen@.len() == k,
            forall|m: int| 0 <= m < k ==> !(#[trigger] seen@[m]),
        decreases n - k,
    {
        seen.push(false);
        k = k + 1;
    }
    let mut i: usize = 0;
    while i < n
        invariant
            i <= n,
            n == rs@.len(),
            seen@.len() == n,
            forall|j: int| 0 <= j < i ==> (#[trigger] rs@[j]).shard_id < n,
            forall|a: int, b: int| 0 <= a < b < i ==> (#[trigger] rs@[a]).shard_id != (#[trigger] rs@[b]).shard_id,
            forall|m: int| 0 <= m < n ==> (#[trigger] seen@[m] <==> exists|j: int| 0 <= j < i && (#[trigger] rs@[j]).shard_id == m),
        decreases n - i,
    {
        let id = rs[i].shard_id;
        if id >= n {
            return false;
        }
        if seen[id] {
            let ghost j = choose|j: int| 0 <= j < i && (#[trigger] rs@[j]).shard_id == id;
            assert(rs@[j].shard_id == rs@[i as int].shard_id);
            return false;
        }
        seen.set(id, true);
        proof {
            assert forall|m: int| 0 <= m < n implies (#[trigger] seen@[m] <==> exists|j: int| 0 <= j < i + 1 && (#[trigger] rs@[j]).shard_id == m) by {
                if m == id {
                    assert(rs@[i as int].shard_id == m);
                } else if exists|j: int| 0 <= j < i + 1 && (#[trigger] rs@[j]).shard_id == m {
                    let j = choose|j: int| 0 <= j < i + 1 && (#[trigger] rs@[j]).shard_id == m;
                    assert(j != i);
                }
            }
            assert forall|a: int, b: int| 0 <= a < b < i + 1 implies (#[trigger] rs@[a]).shard_id != (#[trigger] rs@[b]).shard_id by {
                if b == i {
                    if rs@[a].shard_id == id {
                        assert(seen@[id as int]);
                    }
                }
            }
        }
        i = i + 1;
    }
    true
}

/// Combines the results of a workload's shards: the artifacts in shard id
/// order when every shard succeeded, else the failed shards' ids. Nothing is
/// left out: a missing or repeated shard id is an error too.
pub fn combine_shards<A>(results: Vec<ShardResult<A>>) -> (r: Result<Vec<A>, CompositionError>)
    ensures
        combined(results@, r),
{
    if results.len() == 0 {
        return Err(CompositionError::NoShards);
    }
    let failed = collect_failures(&results);
    if failed.len() > 0 {
        return Err(CompositionError::FailedShards(failed));
    }
    if !check_ids(&results) {
        return Err(CompositionError::IncompleteShards);
    }
    let ghost rs = results@;
    proof {
        lemma_failing_ids_empty(rs);
    }
    let n = results.len();
    let mut slots: Vec<Option<A>> = Vec::new();
    let mut k: usize = 0;
    while k < n
        invariant
            k <= n,
            slots@.len() == k,
            forall|m: int| 0 <= m < k ==> (#[trigger] slots@[m]) is None,
        decreases n - k,
    {
        slots.push(None);
        k = k + 1;
    }
    let mut rest = results;
    // Move each artifact into the slot of its shard id, from the last result back.
    while rest.len() > 0
        invariant
            n == rs.len(),
            ids_exact(rs),
            forall|j: int| 0 <= j < rs.len() ==> (#[trigger] rs[j]).proof is Ok,
            rest@.len() <= n,
            rest@ == rs.subrange(0, rest@.len() as int),
            slots@.len() == n,
            forall|j: int| rest@.len() <= j < n ==> slots@[(#[trigger] rs[j]).shard_id as int] == Some(rs[j].proof->Ok_0),
            forall|m: int| 0 <= m < n ==> ((#[trigger] slots@[m]) is Some <==> exists|j: int| rest@.len() <= j < n && (#[trigger] rs[j]).shard_id == m),
        decreases rest@.len(),
    {
        let ghost top = rest@.len() as int - 1;
        let item = rest.pop().unwrap();
        assert(item == rs[top]);
        let id = item.shard_id;
        match item.proof {
            Ok(a) => {
                slots.set(id, Some(a));
            },
            Err(_) => {
                assert(false);
            },
        }
        proof {
            assert forall|j: int| rest@.len() <= j < n implies slots@[(#[trigger] rs[j]).shard_id as int] == Some(rs[j].proof->Ok_0) by {
                if j != top {
                    assert(rs[j].shard_id != rs[top].shard_id);
                }
            }
            assert forall|m: int| 0 <= m < n implies ((#[trigger] slots@[m]) is Some <==> exists|j: int| rest@.len() <= j < n && (#[trigger] rs[j]).shard_id == m) by {
                if m == id {
                    assert(rs[top].shard_id == m);
                }
            }
        }
    }
    proof {
        assert forall|m: int| 0 <= m < n implies (#[trigger] slots@[m]) is Some by {
            // The n ids are distinct and below n, so every slot is hit.
            lemma_ids_onto(rs, m);
        }
    }
    let ghost filled = slots@;
    let mut out: Vec<A> = Vec::new();
    let mut k: usize = 0;
    while k < n
        invariant
            k <= n,
            n == filled.len(),
            slots@ == filled.subrange(k as int, n as int),
            out@.len() == k,
            forall|m: int| 0 <= m < k ==> Some(#[trigger] out@[m]) == filled[m],
            forall|m: int| 0 <= m < n ==> (#[trigger] filled[m]) is Some,
        decreases n - k,
    {
        let s = slots.remove(0);
        assert(s == filled[k as int]);
        match s {
            Some(a) => {
                out.push(a);
            },
            None => {
                assert(false);
            },
        }
        k = k + 1;
        assert(slots@ =~= filled.subrange(k as int, n as int));
    }
    proof {
        assert forall|j: int| 0 <= j < rs.len() implies (#[trigger] rs[j]).proof == Ok::<A, ExecutionError>(out@[rs[j].shard_id as int]) by {
            assert(Some(out@[rs[j].shard_id as int]) == filled[rs[j].shard_id as int]);
        }
    }
    Ok(out)
}

/// Among `n` results with distinct ids below `n`, every id below `n` occurs.
proof fn lemma_ids_onto<A>(rs: Seq<ShardResult<A>>, m: int)
    requires
        ids_exact(rs),
        0 <= m < rs.len(),
    ensures
        exists|j: int| 0 <= j < rs.len() && (#[trigger] rs[j]).shard_id == m,
{
    let ids = Seq::new(rs.len(), |j: int| rs[j].shard_id as int);
    if !(exists|j: int| 0 <= j < rs.len() && (#[trigger] rs[j]).shard_id == m) {
        // The ids map rs.len() results into the rs.len() - 1 values other than m.
        let s = ids.to_set();
        let range = Set::new(|v: int| 0 <= v < rs.len() && v != m);
        assert(s.subset_of(range)) by {
            assert forall|v: int| s.contains(v) implies range.contains(v) by {
                let j = choose|j: int| 0 <= j < ids.len() && ids[j] == v;
                assert(rs[j].shard_id == v);
            }
        }
        assert(ids.no_duplicates()) by {
            assert forall|i: int, j: int| 0 <= i < ids.len() && 0 <= j < ids.len() && i != j implies ids[i] != ids[j] by {
                if i < j {
                    assert(rs[i].shard_id != rs[j].shard_id);
                } else {
                    assert(rs[j].shard_id != rs[i].shard_id);
                }
            }
        }
        ids.unique_seq_to_set();
        assert(range =~= vstd::set_lib::set_int_range(0, rs.len() as int).remove(m));
        vstd::set_lib::lemma_int_range(0, rs.len() as int);
        vstd::set_lib::lemma_set_subset_finite(vstd::set_lib::set_int_range(0, rs.len() as int).remove(m), s);
        vstd::set_lib::lemma_len_subset(s, range);
    }
}

/// A workload with a single shard that succeeded comes out as that shard's
/// artifact, unchanged.
pub proof fn lemma_single_shard_identity<A>(results: Seq<ShardResult<A>>, r: Result<Vec<A>, CompositionError>)
    requires
        results.len() == 1,
        results[0].shard_id == 0,
        results[0].proof is Ok,
        combined(results, r),
    ensures
        r matches Ok(artifacts) && artifacts@ == seq![results[0].proof->Ok_0],
{
    assert(failing_ids(results.drop_last()) == Seq::<usize>::empty());
    let artifacts = r->Ok_0;
    assert(results[0].proof == Ok::<A, ExecutionError>(artifacts@[0]));
    assert(artifacts@ =~= seq![results[0].proof->Ok_0]);
}

/// When any shard of a workload failed, combining its results fails and names
/// that shard; no artifact comes out.
pub proof fn lemma_failure_fails_workload<A>(results: Seq<ShardResult<A>>, r: Result<Vec<A>, CompositionError>, j: int)
    requires
        0 <= j < results.len(),
        results[j].proof is Err,
        combined(results, r),
    ensures
        r matches Err(CompositionError::FailedShards(ids)) && ids@.contains(results[j].shard_id),
{
    lemma_failing_ids_has(results, j);
}

} // verus!
