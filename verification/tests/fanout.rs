use sluiceway::checkpoint::{load_optional, save_optional, Checkpoint, NoCheckpoint};
use sluiceway::error::{DeliveryFailure, PipelineError};
use sluiceway::fanout::{
    branches_outcome, cloned_inputs, drain, fanout_outcome, gather_branches, owned_inputs,
    require_branches, shared_inputs, Joined,
};
use sluiceway::identity::PipelineId;
use sluiceway::num::NonZeroUsize;
use sluiceway::pipeline::Pipeline;
use sluiceway::policy::{AfterRecords, BatchPolicy, CollectPolicy};
use sluiceway::record::Record;
use sluiceway::sink::Batch;
use sluiceway::source::Source;
use sluiceway::telemetry::{Change, Run, Stage, Topology};
use sluiceway::time::Duration;
use sluiceway::transform::{Identity, Transform, Transformer};
use std::sync::Arc;

type Failure = PipelineError<&'static str, &'static str, &'static str>;

struct Cursor;

impl Checkpoint<u64> for Cursor {
    type Content = ();

    fn start_epoch(_first_position: &u64) -> Self {
        Cursor
    }

    fn include_position(&mut self, _position: &u64) {}
}

#[derive(Debug, PartialEq, Eq)]
struct Numbers(u64);

impl Source for Numbers {
    type Payload = u64;
    type Position = u64;
    type Checkpoint = Cursor;
    type Error = &'static str;
}

fn task_failure() -> tokio::task::JoinError {
    let runtime = tokio::runtime::Builder::new_current_thread()
        .build()
        .unwrap();
    runtime.block_on(async {
        let task = tokio::spawn(std::future::pending::<()>());
        task.abort();
        task.await.unwrap_err()
    })
}

#[test]
fn an_empty_fanout_is_refused() {
    let refused: Result<(), Failure> = require_branches(0);
    assert!(matches!(refused, Err(PipelineError::NoSinks)));
    let accepted: Result<(), Failure> = require_branches(1);
    assert!(accepted.is_ok());

    let fanout = Pipeline::source(Numbers(3))
        .transform(Identity)
        .fanout()
        .shared()
        .sinks(Vec::<&str>::new());
    let refused: Result<(), Failure> = fanout.require_sinks();
    assert!(matches!(refused, Err(PipelineError::NoSinks)));

    let fanout = Pipeline::source(Numbers(3))
        .transform(Identity)
        .fanout()
        .cloned()
        .collectors(vec!["collector"]);
    let accepted: Result<(), Failure> = fanout.require_collectors();
    assert!(accepted.is_ok());
}

#[test]
fn cloned_branches_get_copies_and_the_last_the_unit_itself() {
    let batch = Batch::new(vec![Record::new(0u64, "a".to_owned())]);
    let inputs = owned_inputs(batch.clone(), 3);
    assert_eq!(inputs, vec![batch.clone(), batch.clone(), batch.clone()]);
    assert_eq!(cloned_inputs(&batch, 2), vec![batch.clone(), batch]);
}

#[test]
fn shared_branches_get_the_same_unit() {
    let inputs = shared_inputs(Batch::new(vec![Record::new(0u64, 7u64)]), 2);
    assert_eq!(inputs.len(), 2);
    assert!(Arc::ptr_eq(&inputs[0], &inputs[1]));
    assert_eq!(inputs[0].records[0].payload, 7);
}

#[test]
fn every_failure_is_reported() {
    let joined: Vec<Joined<&'static str>> =
        vec![Ok(Ok(())), Ok(Err("first")), Err(task_failure()), Ok(Err("second"))];
    let failures = drain(joined);
    assert_eq!(failures.len(), 3);
    assert!(matches!(failures[0], DeliveryFailure::Sink("first")));
    assert!(matches!(failures[1], DeliveryFailure::Task(_)));
    assert!(matches!(failures[2], DeliveryFailure::Sink("second")));
    assert_eq!(failures[0].message(), "sink failed");
    assert_eq!(failures[1].message(), "sink task failed");
    let outcome: Result<(), Failure> = branches_outcome(failures);
    assert_eq!(outcome.unwrap_err().message(), "3 sink deliveries failed");
}

#[test]
fn a_fanout_succeeds_only_where_every_branch_does() {
    let joined: Vec<Joined<&'static str>> = vec![Ok(Ok(())), Ok(Ok(()))];
    let outcome: Result<(), Failure> = fanout_outcome(joined);
    assert!(outcome.is_ok());
    let joined: Vec<Joined<&'static str>> = vec![Ok(Ok(())), Err(task_failure())];
    let outcome: Result<(), Failure> = fanout_outcome(joined);
    assert!(matches!(outcome, Err(PipelineError::Sinks(failures)) if failures.len() == 1));
}

#[test]
fn branches_are_all_heard() {
    let begun: Result<Vec<u64>, Failure> = gather_branches(vec![Ok(1), Ok(2)]);
    assert_eq!(begun.unwrap(), vec![1, 2]);
    let begun: Result<Vec<u64>, Failure> =
        gather_branches(vec![Err("first"), Ok(2), Err("third")]);
    match begun {
        Err(PipelineError::Sinks(failures)) => {
            assert_eq!(failures.len(), 2);
            assert!(matches!(failures[0], DeliveryFailure::Sink("first")));
            assert!(matches!(failures[1], DeliveryFailure::Sink("third")));
        }
        _ => panic!("both failures are reported"),
    }
}

#[test]
fn failures_are_worded() {
    let failures: Vec<(Failure, &str)> = vec![
        (PipelineError::NoSinks, "fanout requires at least one sink"),
        (PipelineError::Source(""), "source failed"),
        (PipelineError::Transform(""), "transform failed"),
        (
            PipelineError::Sink(DeliveryFailure::Sink("")),
            "sink delivery failed",
        ),
        (PipelineError::Sinks(Vec::new()), "0 sink deliveries failed"),
        (
            PipelineError::Sinks((0..12).map(|_| DeliveryFailure::Sink("")).collect()),
            "12 sink deliveries failed",
        ),
        (PipelineError::Commit(""), "source commit failed"),
    ];
    for (failure, words) in failures {
        assert_eq!(failure.message(), words);
    }
}

#[test]
fn builders_keep_what_they_are_given() {
    let id = PipelineId::new("numbers").unwrap();
    let policy = BatchPolicy::try_new(2, Duration::from_secs(1)).unwrap();
    let pipeline = Pipeline::source(Numbers(3))
        .id(id.clone())
        .transform(Identity)
        .sink("sink")
        .batched(policy)
        .commit_policy(AfterRecords::try_new(5).unwrap());
    assert_eq!(pipeline.id, Some(id.clone()));
    assert_eq!(pipeline.source, Numbers(3));
    assert_eq!(pipeline.sink, "sink");
    assert_eq!(pipeline.strategy.policy.size().get(), 2);
    assert_eq!(pipeline.strategy.commit_policy.records.get(), 5);

    let pipeline = Pipeline::source(Numbers(4))
        .transform(Identity)
        .fanout()
        .cloned()
        .sinks(vec!["left", "right"])
        .each()
        .commit_policy(AfterRecords::try_new(6).unwrap());
    assert_eq!(pipeline.id, None);
    assert_eq!(pipeline.source, Numbers(4));
    assert_eq!(pipeline.sinks, vec!["left", "right"]);
    assert_eq!(pipeline.strategy.commit_policy.records.get(), 6);

    let limits = CollectPolicy::try_new(3, Duration::from_secs(1)).unwrap();
    let pipeline = Pipeline::source(Numbers(5))
        .transform(Identity)
        .fanout()
        .shared()
        .collectors(vec![1, 2, 3])
        .collect(limits)
        .commit_policy(AfterRecords::try_new(7).unwrap());
    assert_eq!(pipeline.collectors, vec![1, 2, 3]);
    assert_eq!(pipeline.strategy.policy.size().get(), 3);
    assert_eq!(pipeline.strategy.commit_policy.records.get(), 7);

    let pipeline = Pipeline::source(Numbers(6))
        .transform(Identity)
        .sink("sink")
        .collect(limits)
        .commit_policy(AfterRecords::try_new(8).unwrap());
    assert_eq!(pipeline.strategy.policy.size().get(), 3);
    assert_eq!(pipeline.strategy.commit_policy.records.get(), 8);

    let pipeline = Pipeline::source(Numbers(7))
        .transform(Identity)
        .fanout()
        .shared()
        .sinks(vec!["only"])
        .batched(policy)
        .commit_policy(AfterRecords::try_new(9).unwrap());
    assert_eq!(pipeline.strategy.policy.size().get(), 2);
    assert_eq!(pipeline.strategy.commit_policy.records.get(), 9);

    let pipeline = Pipeline::source(Numbers(8))
        .transform(Identity)
        .sink("sink")
        .each()
        .commit_policy(AfterRecords::try_new(10).unwrap());
    assert_eq!(pipeline.strategy.commit_policy.records.get(), 10);
}

#[test]
fn transformers_control_their_concurrency() {
    let two = NonZeroUsize::new(2).unwrap();
    let transformer = Transformer::new(Identity);
    assert_eq!(
        <Transformer<Identity> as Transform<u64, u64>>::max_concurrency(&transformer).get(),
        1
    );
    let transformer = transformer.concurrency(two);
    assert_eq!(
        <Transformer<Identity> as Transform<u64, u64>>::max_concurrency(&transformer.clone()),
        two
    );
    assert_eq!(
        <Identity as Transform<u64, u64>>::max_concurrency(&Identity).get(),
        1
    );
}

#[test]
fn identity_ignores_position() {
    assert_eq!(Identity.pass(&"position", 42), 42);
}

#[test]
fn no_checkpoint_is_generic_over_cursor_type() {
    let store = Some(NoCheckpoint);
    assert_eq!(load_optional(store.map(NoCheckpoint::load::<u64>)).unwrap(), None);
    save_optional(store.map(|store| store.save(&4u64))).unwrap();
    assert_eq!(load_optional(store.map(NoCheckpoint::load::<String>)).unwrap(), None);
}

#[test]
fn absent_stores_keep_nothing() {
    assert_eq!(load_optional::<u64, &str>(None), Ok(None));
    assert_eq!(save_optional::<&str>(None), Ok(()));
    assert_eq!(load_optional::<u64, &str>(Some(Ok(Some(4)))), Ok(Some(4)));
    assert_eq!(load_optional::<u64, &str>(Some(Err("load"))), Err("load"));
    assert_eq!(save_optional(Some(Err("save"))), Err("save"));
}

#[test]
fn updates_name_their_metrics() {
    let run = Run {
        topology: Topology::FanoutShared,
        pipeline_id: PipelineId::new("orders").unwrap(),
    };
    let update = run.started();
    assert_eq!(update.metric, "sluiceway_pipeline_active");
    assert_eq!(update.topology.label(), "fanout_shared");
    assert_eq!(update.pipeline_id.as_str(), "orders");
    assert_eq!(update.detail, None);
    assert_eq!(update.change, Change::Increase);
    assert_eq!(run.ended().change, Change::Decrease);
    assert_eq!(run.record().metric, "sluiceway_records_total");
    let (counted, observed) = run.batch(3, "full");
    assert_eq!(counted.metric, "sluiceway_batches_total");
    assert_eq!(counted.detail, Some(("reason", "full")));
    assert_eq!(observed.metric, "sluiceway_batch_records");
    assert_eq!(observed.change, Change::Observe(3));
    assert_eq!(
        run.sink_delivery(true).metric,
        "sluiceway_sink_deliveries_total"
    );
    assert_eq!(
        run.sink_delivery(true).detail,
        Some(("status", "success"))
    );
    assert_eq!(run.commit(false).metric, "sluiceway_commits_total");
    assert_eq!(run.commit(false).detail, Some(("status", "error")));
    assert_eq!(run.error(Stage::Source).metric, "sluiceway_errors_total");
    assert_eq!(
        run.error(Stage::SinkTask).detail,
        Some(("stage", "sink_task"))
    );
    assert_eq!(
        run.stage_duration(Stage::Commit).metric,
        "sluiceway_stage_duration_seconds"
    );
    assert_eq!(Topology::Linear.label(), "linear");
    assert_eq!(Topology::FanoutCloned.label(), "fanout_cloned");
}

#[test]
fn ended_branches_are_counted() {
    let run = Run {
        topology: Topology::FanoutCloned,
        pipeline_id: PipelineId::unnamed(),
    };
    let (delivery, error) = run.joined::<&str>(&Ok(Ok(())));
    assert_eq!(delivery.detail, Some(("status", "success")));
    assert!(error.is_none());
    let (delivery, error) = run.joined(&Ok(Err("failed")));
    assert_eq!(delivery.detail, Some(("status", "error")));
    assert_eq!(error.unwrap().detail, Some(("stage", "sink")));
    let (_, error) = run.joined::<&str>(&Err(task_failure()));
    assert_eq!(error.unwrap().detail, Some(("stage", "sink_task")));
}

#[test]
fn every_branch_gets_equal_records() {
    let unit = Batch::new(vec![Record::new(4u64, "a".to_owned()), Record::new(2, "b".to_owned())]);
    let owned = owned_inputs(unit.clone(), 3);
    assert_eq!(owned.len(), 3);
    assert!(owned.iter().all(|input| *input == unit));
    let copies = cloned_inputs(&unit.records[1], 2);
    assert!(copies.iter().all(|input| *input == unit.records[1]));
    assert_eq!(copies.len(), 2);
}
