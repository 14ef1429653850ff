use spn_node_core::{
    combine_shards, create_shards, AssuranceMode, CheckpointStore, CompositionError, ExecutionError, ShardResult,
    ShardingConfig, Workload,
};

fn ok(id: usize, artifact: &str) -> ShardResult<String> {
    ShardResult {
        shard_id: id,
        gpu_id: id % 2,
        proof: Ok(artifact.to_string()),
        cycles: 10,
        processing_time_ms: 5,
        memory_usage: 0,
        gpu_utilization_permille: 800,
    }
}

fn failed(id: usize) -> ShardResult<String> {
    ShardResult {
        shard_id: id,
        gpu_id: 0,
        proof: Err(ExecutionError::Engine("prove failed".to_string())),
        cycles: 10,
        processing_time_ms: 5,
        memory_usage: 0,
        gpu_utilization_permille: 0,
    }
}

#[test]
fn single_shard_artifact_is_returned_unchanged() {
    let out = combine_shards(vec![ok(0, "proof-A")]).unwrap();
    assert_eq!(out, vec!["proof-A".to_string()]);
}

#[test]
fn any_failure_fails_the_workload() {
    match combine_shards(vec![ok(0, "a"), failed(1), ok(2, "c")]) {
        Err(CompositionError::FailedShards(ids)) => assert_eq!(ids, vec![1]),
        other => panic!("unexpected {:?}", other),
    }
    match combine_shards(vec![failed(2), ok(0, "a"), failed(1)]) {
        Err(CompositionError::FailedShards(ids)) => assert_eq!(ids, vec![2, 1]),
        other => panic!("unexpected {:?}", other),
    }
    match combine_shards(vec![failed(0)]) {
        Err(CompositionError::FailedShards(ids)) => assert_eq!(ids, vec![0]),
        other => panic!("unexpected {:?}", other),
    }
}

#[test]
fn artifacts_come_out_in_shard_order() {
    let out = combine_shards(vec![ok(2, "c"), ok(0, "a"), ok(1, "b")]).unwrap();
    assert_eq!(out, vec!["a".to_string(), "b".to_string(), "c".to_string()]);
}

#[test]
fn no_results_is_an_error() {
    assert!(matches!(combine_shards(Vec::<ShardResult<String>>::new()), Err(CompositionError::NoShards)));
}

#[test]
fn missing_or_repeated_shards_are_errors() {
    assert!(matches!(combine_shards(vec![ok(0, "a"), ok(0, "b")]), Err(CompositionError::IncompleteShards)));
    assert!(matches!(combine_shards(vec![ok(0, "a"), ok(2, "c")]), Err(CompositionError::IncompleteShards)));
    assert!(matches!(combine_shards(vec![ok(1, "b")]), Err(CompositionError::IncompleteShards)));
}

#[test]
fn result_of_a_shard_counts_its_cycles() {
    let w = Workload { id: 1, program: vec![], input: vec![], mode: AssuranceMode::Core, deadline: Some(60) };
    let c = ShardingConfig {
        num_gpus: 2,
        shards_per_gpu: 1,
        min_cycles_per_shard: 1,
        max_cycles_per_shard: 100,
        enable_checkpointing: false,
        checkpoint_interval: 10,
    };
    let mut store = CheckpointStore::new();
    let shards = create_shards(&w, 15, &c, &mut store).unwrap();
    let r = ShardResult::from_shard(&shards[1], Ok::<u8, ExecutionError>(7), 1200, 4096, 855);
    assert_eq!((r.shard_id, r.gpu_id, r.cycles), (1, 1, 7));
    assert_eq!((r.processing_time_ms, r.memory_usage, r.gpu_utilization_permille), (1200, 4096, 855));
    assert!(matches!(r.proof, Ok(7)));
}

#[test]
fn empty_workload_aggregates_trivially() {
    let w = Workload { id: 1, program: vec![9], input: vec![], mode: AssuranceMode::Plonk, deadline: None };
    let c = ShardingConfig::standard(3);
    let mut store = CheckpointStore::new();
    let shards = create_shards(&w, 0, &c, &mut store).unwrap();
    let results: Vec<ShardResult<&str>> = shards
        .iter()
        .map(|s| ShardResult::from_shard(s, Ok("empty-proof"), 0, 0, 0))
        .collect();
    assert_eq!(results[0].cycles, 0);
    assert_eq!(combine_shards(results).unwrap(), vec!["empty-proof"]);
}
