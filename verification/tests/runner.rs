use sluiceway::checkpoint::{Checkpoint, CheckpointEpochTransition};
use sluiceway::commit::CommitState;
use sluiceway::error::{DeliveryFailure, PipelineError};
use sluiceway::fanout::sink_outcome;
use sluiceway::policy::{
    AfterRecords, AfterRecordsOrTimeout, BatchPolicy, CollectPolicy, CommitAction, CommitEach, CommitPolicy,
    PositionAction,
};
use sluiceway::record::Record;
use sluiceway::runner::collecting::{CollectStep, CollectingRunner, Gathered};
use sluiceway::runner::prefetch::{prefetch_step, Lookahead, Prefetch};
use sluiceway::runner::units::{Phase, Step, UnitRunner};
use sluiceway::sink::Batch;
use sluiceway::source::take_in;
use sluiceway::time::{Clock, Duration, Moment};
use sluiceway::transform::reattach;

/// Every position of an epoch.
#[derive(Debug, Clone, PartialEq, Eq)]
struct Positions(Vec<u64>);

impl Checkpoint<u64> for Positions {
    type Content = ();

    fn start_epoch(first_position: &u64) -> Self {
        Positions(vec![*first_position])
    }

    fn include_position(&mut self, position: &u64) {
        self.0.push(*position);
    }
}

/// A complete frontier that carries over into the next epoch.
#[derive(Debug, Clone, PartialEq, Eq)]
struct Frontier(Vec<u64>);

impl Checkpoint<u64> for Frontier {
    type Content = ();

    fn start_epoch(first_position: &u64) -> Self {
        Frontier(vec![*first_position])
    }

    fn include_position(&mut self, position: &u64) {
        self.0.push(*position);
    }

    fn start_next_epoch(self, first_position_of_next_epoch: &u64) -> CheckpointEpochTransition<Self> {
        let mut next_epoch = self.clone();
        next_epoch.0.push(*first_position_of_next_epoch);
        CheckpointEpochTransition {
            completed_epoch: self,
            next_epoch,
        }
    }
}

/// Starts a new epoch at every multiple of ten, and commits no epoch but those.
struct EveryTen;

impl CommitPolicy<u64> for EveryTen {
    type State = ();

    fn on_position(&mut self, position: &u64) -> PositionAction {
        if position % 10 == 0 {
            PositionAction::StartNewEpoch
        } else {
            PositionAction::Continue
        }
    }

    fn on_acknowledged(&mut self, _records: usize, _now: Moment) -> CommitAction {
        CommitAction::Continue
    }

    fn deadline(&self) -> Option<Moment> {
        None
    }

    fn on_timeout(&mut self) -> CommitAction {
        CommitAction::CommitLatest
    }

    fn on_committed(&mut self) {}
}

type Failure = PipelineError<&'static str, &'static str, &'static str>;
type Unit = Batch<(), u64>;

fn at(nanos: u128) -> Moment {
    Moment { nanos }
}

fn batch(positions: &[u64]) -> Unit {
    Batch::new(positions.iter().map(|p| Record::new(*p, ())).collect())
}

fn positions(unit: &Unit) -> Vec<u64> {
    unit.iter().map(|record| *record.position()).collect()
}

const HOUR: u128 = 3_600_000_000_000;

/// A clock that was started two hours ago.
fn old_clock() -> Clock {
    let two_hours = std::time::Duration::from_secs(7200);
    Clock {
        origin: tokio::time::Instant::now().checked_sub(two_hours).unwrap(),
    }
}

/// A policy that commits an hour after the first acknowledgement.
fn hourly() -> AfterRecordsOrTimeout {
    AfterRecordsOrTimeout::try_new(10, Duration::from_secs(3600)).unwrap()
}

/// Runs units to the end, with a clock that stands still.
fn run<Policy: CommitPolicy<u64>>(
    policy: Policy,
    units: Vec<Result<Option<Unit>, Failure>>,
    mut deliver: impl FnMut(&Unit) -> Result<(), &'static str>,
    mut commit: impl FnMut(Positions) -> Result<(), &'static str>,
) -> Result<(), Failure> {
    let mut units = units.into_iter();
    let (mut runner, mut step) =
        UnitRunner::<Positions, Policy, u64>::start::<Unit, Failure>(policy);
    loop {
        step = match step {
            Step::Wait(_) => match units.next() {
                Some(unit) => runner.on_unit(unit),
                None => runner.on_end(),
            },
            Step::Deliver(unit) => {
                let outcome = sink_outcome(deliver(&unit));
                runner.on_delivered_at(outcome, at(0), at(0))
            }
            Step::Commit(epoch) => runner.on_committed(commit(epoch)),
            Step::Complete => return Ok(()),
            Step::Fail(failure) => return Err(failure),
        };
    }
}

#[test]
fn each_unit_is_delivered_and_then_committed() {
    let mut delivered = Vec::new();
    let mut committed = Vec::new();
    run(
        CommitEach,
        vec![Ok(Some(batch(&[0, 1]))), Ok(None), Ok(Some(batch(&[2])))],
        |unit| {
            delivered.push(positions(unit));
            Ok(())
        },
        |epoch| {
            committed.push(epoch.0);
            Ok(())
        },
    )
    .unwrap();
    assert_eq!(delivered, vec![vec![0, 1], vec![2]]);
    assert_eq!(committed, vec![vec![0, 1], vec![2]]);
}

#[test]
fn sink_failure_prevents_commit() {
    let mut committed = Vec::new();
    let result = run(
        CommitEach,
        vec![Ok(Some(batch(&[1])))],
        |_| Err("sink"),
        |epoch| {
            committed.push(epoch.0);
            Ok(())
        },
    );
    assert!(matches!(
        result,
        Err(PipelineError::Sink(DeliveryFailure::Sink("sink")))
    ));
    assert!(committed.is_empty());
}

#[test]
fn a_failure_commits_only_what_was_committed_before() {
    let mut committed = Vec::new();
    let mut calls = 0;
    let result = run(
        AfterRecords::try_new(2).unwrap(),
        vec![
            Ok(Some(batch(&[0, 1]))),
            Ok(Some(batch(&[2]))),
            Ok(Some(batch(&[3, 4]))),
        ],
        |_| {
            calls += 1;
            if calls == 3 {
                Err("sink")
            } else {
                Ok(())
            }
        },
        |epoch| {
            committed.push(epoch.0);
            Ok(())
        },
    );
    assert!(result.is_err());
    assert_eq!(committed, vec![vec![0, 1]]);
}

#[test]
fn source_transform_and_commit_errors_retain_their_stage() {
    let never = |_: Positions| -> Result<(), &'static str> { Ok(()) };
    let failed: Result<(u64, u64), Failure> = take_in(Err::<Record<u64, u64>, _>("source"));
    let result = run(
        CommitEach,
        vec![failed.map(|_| None)],
        |_| Ok(()),
        never,
    );
    assert!(matches!(result, Err(PipelineError::Source("source"))));

    let failed: Result<Record<u64, u64>, Failure> = reattach(0, Err::<u64, _>("transform"));
    let result = run(
        CommitEach,
        vec![failed.map(|_| None)],
        |_| Ok(()),
        never,
    );
    assert!(matches!(result, Err(PipelineError::Transform("transform"))));

    let mut asked = false;
    let result = run(
        CommitEach,
        vec![Ok(Some(batch(&[0])))],
        |_| Ok(()),
        |_| {
            asked = true;
            Err("commit")
        },
    );
    assert!(matches!(result, Err(PipelineError::Commit("commit"))));
    assert!(asked);
}

#[test]
fn the_end_of_the_source_commits_what_is_left() {
    let mut committed = Vec::new();
    run(
        AfterRecords::try_new(100).unwrap(),
        vec![Ok(Some(batch(&[0, 1]))), Ok(Some(batch(&[2])))],
        |_| Ok(()),
        |epoch| {
            committed.push(epoch.0);
            Ok(())
        },
    )
    .unwrap();
    assert_eq!(committed, vec![vec![0, 1, 2]]);
}

#[test]
fn an_empty_source_commits_nothing() {
    let mut commits = 0;
    run(
        CommitEach,
        vec![],
        |_| Ok(()),
        |_| {
            commits += 1;
            Ok(())
        },
    )
    .unwrap();
    assert_eq!(commits, 0);
}

#[test]
fn position_boundaries_close_epochs_in_source_order() {
    let mut committed = Vec::new();
    run(
        EveryTen,
        vec![
            Ok(Some(batch(&[8, 9, 10, 11]))),
            Ok(Some(batch(&[20, 30, 31]))),
        ],
        |_| Ok(()),
        |epoch| {
            committed.push(epoch.0);
            Ok(())
        },
    )
    .unwrap();
    assert_eq!(
        committed,
        vec![vec![8, 9], vec![10, 11], vec![20], vec![30, 31]]
    );
}

#[test]
fn closed_epochs_wait_for_their_unit() {
    let mut state = CommitState::<Positions, EveryTen, u64>::new(EveryTen);
    state.track(&9);
    state.track(&10);
    assert_eq!(state.pop_eligible(), None);
    state.acknowledge_delivery_at(2, at(0), at(0));
    assert_eq!(state.pop_eligible(), Some(Positions(vec![9])));
    state.committed();
    assert_eq!(state.pop_eligible(), None);
    state.finish();
    assert_eq!(state.pop_eligible(), Some(Positions(vec![10])));
}

#[test]
fn frontiers_carry_over_into_the_next_epoch() {
    let mut state = CommitState::<Frontier, EveryTen, u64>::new(EveryTen);
    state.track(&9);
    state.track(&10);
    state.acknowledge_delivery(2, &Clock::start());
    assert_eq!(state.pop_eligible(), Some(Frontier(vec![9])));
    state.finish();
    assert_eq!(state.pop_eligible(), Some(Frontier(vec![9, 10])));
}

#[test]
fn a_deadline_is_given_only_between_deliveries() {
    let policy = AfterRecordsOrTimeout::try_new(10, Duration::from_nanos(50)).unwrap();
    let mut state = CommitState::<Positions, AfterRecordsOrTimeout, u64>::new(policy);
    assert_eq!(state.deadline(), None);
    state.track(&1);
    assert_eq!(state.deadline(), None);
    state.acknowledge_delivery_at(1, at(100), at(100));
    assert_eq!(state.deadline(), Some(at(150)));
    state.track(&2);
    assert_eq!(state.deadline(), None);
}

#[test]
fn a_passed_deadline_includes_the_unit_in_flight() {
    let policy = AfterRecordsOrTimeout::try_new(10, Duration::from_nanos(50)).unwrap();
    let mut state = CommitState::<Positions, AfterRecordsOrTimeout, u64>::new(policy);
    state.track(&1);
    state.acknowledge_delivery_at(1, at(100), at(100));
    assert_eq!(state.pop_eligible(), None);
    state.track(&2);
    state.acknowledge_delivery_at(1, at(149), at(150));
    assert_eq!(state.pop_eligible(), Some(Positions(vec![1, 2])));
}

#[test]
fn a_deadline_commits_while_the_source_is_idle() {
    let policy = AfterRecordsOrTimeout::try_new(10, Duration::from_nanos(50)).unwrap();
    let (mut runner, _) =
        UnitRunner::<Positions, AfterRecordsOrTimeout, u64>::start::<Unit, Failure>(policy);
    let step: Step<Unit, Positions, Failure> = runner.on_unit(Ok(Some(batch(&[7, 8]))));
    assert!(matches!(step, Step::Deliver(_)));
    assert_eq!(runner.current_phase(), Phase::Delivering { records: 2 });
    let step: Step<Unit, Positions, Failure> = runner.on_delivered_at(Ok(()), at(10), at(10));
    assert!(matches!(step, Step::Wait(Some(deadline)) if deadline == at(60)));
    let step: Step<Unit, Positions, Failure> = runner.on_deadline();
    let epoch = match step {
        Step::Commit(epoch) => epoch,
        _ => panic!("the deadline commits"),
    };
    assert_eq!(epoch, Positions(vec![7, 8]));
    let step: Step<Unit, Positions, Failure> = runner.on_committed(Ok(()));
    assert!(matches!(step, Step::Wait(None)));
    let step: Step<Unit, Positions, Failure> = runner.on_end();
    assert!(matches!(step, Step::Complete));
    assert_eq!(runner.current_phase(), Phase::Finished);
}

#[test]
fn deliveries_are_timed_by_the_clock() {
    let policy = AfterRecordsOrTimeout::try_new(10, Duration::from_secs(3600)).unwrap();
    let (mut runner, _) =
        UnitRunner::<Positions, AfterRecordsOrTimeout, u64>::start::<Unit, Failure>(policy);
    let clock = Clock::start();
    let _: Step<Unit, Positions, Failure> = runner.on_unit(Ok(Some(batch(&[7]))));
    let before = clock.now();
    let step: Step<Unit, Positions, Failure> = runner.on_delivered(Ok(()), &clock);
    let after = clock.now();
    match step {
        Step::Wait(Some(deadline)) => {
            let hour = Duration::from_secs(3600);
            assert!(before.after(hour).has_passed(deadline));
            assert!(deadline.has_passed(after.after(hour)));
        }
        _ => panic!("the runner waits until the deadline"),
    }
}

/// Runs records through collections, with a clock that stands still; `None` is a timeout.
fn collect(
    size: usize,
    items: Vec<Option<Result<u64, Failure>>>,
    mut begin: impl FnMut() -> Result<(), Failure>,
    mut push: impl FnMut(u64) -> Result<(), Failure>,
    mut finish: impl FnMut() -> Result<(), Failure>,
) -> (Vec<Vec<u64>>, Result<(), Failure>) {
    let limits = CollectPolicy::try_new(size, Duration::from_nanos(50)).unwrap();
    let mut items = items.into_iter();
    let mut committed = Vec::new();
    let (mut runner, mut step) =
        CollectingRunner::<(), Positions, CommitEach, u64, Failure>::start(limits, CommitEach);
    loop {
        step = match step {
            CollectStep::Wait(_) => match items.next() {
                Some(Some(item)) => {
                    runner.on_first(item.map(|position| Record::new(position, ())))
                }
                Some(None) => runner.on_deadline(),
                None => runner.on_end(),
            },
            CollectStep::Begin => runner.on_begun_at(begin(), at(100)),
            CollectStep::Push(record) => runner.on_pushed(push(*record.position())),
            CollectStep::Gather(deadline) => {
                assert_eq!(deadline, at(150));
                runner.on_gathered(match items.next() {
                    Some(Some(item)) => {
                        Gathered::Item(item.map(|position| Record::new(position, ())))
                    }
                    Some(None) => Gathered::TimedOut,
                    None => Gathered::End,
                })
            }
            CollectStep::Finish => runner.on_finished_at(finish(), at(0), at(0)),
            CollectStep::Commit(epoch) => {
                committed.push(epoch.0);
                runner.on_committed(Ok(()))
            }
            CollectStep::Complete => return (committed, Ok(())),
            CollectStep::Fail(failure) => return (committed, Err(failure)),
        };
    }
}

#[test]
fn collections_close_at_their_size_on_timeout_and_at_the_end() {
    let mut sessions = 0;
    let mut pushed = Vec::new();
    let mut finished = 0;
    let (committed, result) = collect(
        2,
        vec![
            Some(Ok(0)),
            Some(Ok(1)),
            Some(Ok(2)),
            None,
            Some(Ok(3)),
        ],
        || {
            sessions += 1;
            Ok(())
        },
        |position| {
            pushed.push(position);
            Ok(())
        },
        || {
            finished += 1;
            Ok(())
        },
    );
    result.unwrap();
    assert_eq!(committed, vec![vec![0, 1], vec![2], vec![3]]);
    assert_eq!(pushed, vec![0, 1, 2, 3]);
    assert_eq!(sessions, 3);
    assert_eq!(finished, 3);
}

#[test]
fn a_collection_is_begun_before_a_failed_first_record_is_seen() {
    let mut sessions = 0;
    let (committed, result) = collect(
        2,
        vec![Some(Err(PipelineError::Source("source")))],
        || {
            sessions += 1;
            Ok(())
        },
        |_| Ok(()),
        || Ok(()),
    );
    assert!(matches!(result, Err(PipelineError::Source("source"))));
    assert_eq!(sessions, 1);
    assert!(committed.is_empty());
}

#[test]
fn collections_that_fail_are_not_committed() {
    let failure = || -> Failure { PipelineError::Sinks(Vec::new()) };
    for stage in 0..3 {
        let (committed, result) = collect(
            1,
            vec![Some(Ok(0))],
            || if stage == 0 { Err(failure()) } else { Ok(()) },
            |_| if stage == 1 { Err(failure()) } else { Ok(()) },
            || if stage == 2 { Err(failure()) } else { Ok(()) },
        );
        assert!(matches!(result, Err(PipelineError::Sinks(_))));
        assert!(committed.is_empty());
    }
}

#[test]
fn a_failure_in_the_middle_of_a_collection_ends_the_run() {
    let mut finished = 0;
    let (committed, result) = collect(
        3,
        vec![Some(Ok(0)), Some(Err(PipelineError::Transform("transform")))],
        || Ok(()),
        |_| Ok(()),
        || {
            finished += 1;
            Ok(())
        },
    );
    assert!(matches!(result, Err(PipelineError::Transform("transform"))));
    assert_eq!(finished, 0);
    assert!(committed.is_empty());
}

#[test]
fn collections_read_the_clock() {
    let limits = CollectPolicy::try_new(2, Duration::from_secs(3600)).unwrap();
    let (mut runner, _) =
        CollectingRunner::<(), Positions, CommitEach, u64, Failure>::start(limits, CommitEach);
    let clock = Clock::start();
    runner.on_first(Ok(Record::new(1, ())));
    runner.on_begun(Ok(()), &clock);
    let step = runner.on_pushed(Ok(()));
    match step {
        CollectStep::Gather(deadline) => {
            assert!(deadline.has_passed(clock.now().after(Duration::from_secs(3600))));
            assert!(!deadline.has_passed(clock.now()));
        }
        _ => panic!("the collection takes another record"),
    }
    runner.on_gathered(Gathered::End);
    let step = runner.on_finished(Ok(()), &clock);
    assert!(matches!(step, CollectStep::Commit(Positions(positions)) if positions == vec![1]));
}

#[test]
fn prefetching_hands_over_every_batch_up_to_the_first_failure() {
    let items: Vec<Result<Option<u64>, &str>> =
        vec![Ok(Some(1)), Ok(None), Ok(Some(2)), Err("failed"), Ok(Some(3))];
    let mut handed = Vec::new();
    let mut stream = items.into_iter();
    loop {
        match prefetch_step(stream.next()) {
            Prefetch::Send(batch) => handed.push(Ok(batch)),
            Prefetch::Skip => {}
            Prefetch::SendLast(error) => {
                handed.push(Err(error));
                break;
            }
            Prefetch::Stop => break,
        }
    }
    assert_eq!(handed, vec![Ok(1), Ok(2), Err("failed")]);
    assert!(matches!(prefetch_step::<u64, &str>(None), Prefetch::Stop));
}

#[test]
fn chunks_become_batches() {
    let chunk: Vec<Result<Record<char, u64>, &str>> =
        vec![Ok(Record::new(0, 'a')), Ok(Record::new(1, 'b'))];
    let batch = Batch::try_from_chunk(chunk).unwrap().unwrap();
    assert_eq!(batch.len(), 2);
    assert_eq!(
        batch.into_iter().map(Record::into_parts).collect::<Vec<_>>(),
        vec![(0, 'a'), (1, 'b')]
    );
    let empty: Vec<Result<Record<char, u64>, &str>> = Vec::new();
    assert!(Batch::try_from_chunk(empty).unwrap().is_none());
    let failed: Vec<Result<Record<char, u64>, &str>> =
        vec![Ok(Record::new(0, 'a')), Err("first"), Err("second")];
    assert_eq!(Batch::try_from_chunk(failed).unwrap_err(), "first");
}

#[test]
fn acknowledgements_are_timed_from_the_origin_of_the_clock() {
    let clock = old_clock();
    let mut state = CommitState::<Positions, AfterRecordsOrTimeout, u64>::new(hourly());
    state.track(&1);
    state.acknowledge_delivery(1, &clock);
    let deadline = state.deadline().unwrap();
    assert!(deadline.nanos >= 3 * HOUR);
    assert!(deadline.has_passed(clock.now().after(Duration::from_secs(3600))));

    let mut state = CommitState::<Positions, AfterRecordsOrTimeout, u64>::new(hourly());
    state.track(&1);
    state.acknowledge_delivery_at(1, at(0), at(0));
    assert_eq!(state.deadline(), Some(at(HOUR)));
    assert_eq!(state.pop_eligible(), None);
    state.track(&2);
    assert_eq!(state.deadline(), None);
    state.acknowledge_delivery(1, &clock);
    assert_eq!(state.pop_eligible(), Some(Positions(vec![1, 2])));
    assert_eq!(state.deadline(), None);
}

#[test]
fn deliveries_are_timed_from_the_origin_of_the_clock() {
    let (mut runner, _) =
        UnitRunner::<Positions, AfterRecordsOrTimeout, u64>::start::<Unit, Failure>(hourly());
    let _: Step<Unit, Positions, Failure> = runner.on_unit(Ok(Some(batch(&[1]))));
    let step: Step<Unit, Positions, Failure> = runner.on_delivered_at(Ok(()), at(0), at(0));
    assert!(matches!(step, Step::Wait(Some(deadline)) if deadline == at(HOUR)));
    let _: Step<Unit, Positions, Failure> = runner.on_unit(Ok(Some(batch(&[2]))));
    let step: Step<Unit, Positions, Failure> = runner.on_delivered(Ok(()), &old_clock());
    assert!(matches!(step, Step::Commit(Positions(positions)) if positions == vec![1, 2]));
}

#[test]
fn collections_are_timed_from_the_origin_of_the_clock() {
    let clock = old_clock();
    let limits = CollectPolicy::try_new(2, Duration::from_secs(3600)).unwrap();
    let (mut runner, _) =
        CollectingRunner::<(), Positions, AfterRecordsOrTimeout, u64, Failure>::start(
            limits,
            hourly(),
        );
    runner.on_first(Ok(Record::new(1, ())));
    runner.on_begun(Ok(()), &clock);
    match runner.on_pushed(Ok(())) {
        CollectStep::Gather(deadline) => {
            assert!(deadline.nanos >= 3 * HOUR);
            assert!(deadline.has_passed(clock.now().after(Duration::from_secs(3600))));
        }
        _ => panic!("the collection takes another record"),
    }
    runner.on_gathered(Gathered::TimedOut);
    match runner.on_finished(Ok(()), &clock) {
        CollectStep::Wait(Some(deadline)) => assert!(deadline.nanos >= 3 * HOUR),
        _ => panic!("the runner waits until the deadline"),
    }

    let (mut runner, _) =
        CollectingRunner::<(), Positions, AfterRecordsOrTimeout, u64, Failure>::start(
            limits,
            hourly(),
        );
    for (position, at_once) in [(1, true), (2, false)] {
        runner.on_first(Ok(Record::new(position, ())));
        runner.on_begun_at(Ok(()), at(0));
        runner.on_pushed(Ok(()));
        runner.on_gathered(Gathered::TimedOut);
        if at_once {
            let step = runner.on_finished_at(Ok(()), at(0), at(0));
            assert!(matches!(step, CollectStep::Wait(Some(deadline)) if deadline == at(HOUR)));
        } else {
            let step = runner.on_finished(Ok(()), &clock);
            assert!(
                matches!(step, CollectStep::Commit(Positions(positions)) if positions == vec![1, 2])
            );
        }
    }
}

#[test]
fn batches_are_never_too_far_ahead() {
    let limits = BatchPolicy::try_new(5, Duration::from_secs(1)).unwrap();
    assert!(!Lookahead::start(limits).may_poll());
    let mut lookahead = Lookahead::start(limits.prefetch(7).prefetch(2));
    assert!(lookahead.may_poll());
    assert!(matches!(lookahead.on_item::<u64, &str>(Some(Ok(None))), Prefetch::Skip));
    assert!(matches!(lookahead.on_item::<u64, &str>(Some(Ok(Some(1)))), Prefetch::Send(1)));
    assert!(lookahead.may_poll());
    let step = lookahead.on_item::<u64, &str>(Some(Err("failed")));
    assert!(matches!(step, Prefetch::SendLast("failed")));
    assert!(!lookahead.may_poll());
    lookahead.on_taken();
    assert!(lookahead.may_poll());
    assert!(matches!(lookahead.on_item::<u64, &str>(None), Prefetch::Stop));
    lookahead.on_taken();
    assert!(lookahead.may_poll());
}

#[test]
fn batched_runs_deliver_every_record_of_the_stream() {
    for cut in [vec![5], vec![2, 2, 1], vec![1, 0, 3, 1]] {
        let mut stream = 0u64..5;
        let units: Vec<Result<Option<Unit>, Failure>> = cut
            .iter()
            .map(|size| {
                let chunk = stream
                    .by_ref()
                    .take(*size)
                    .map(|position| reattach::<(), u64, _, _, _>(position * 3, Ok(())))
                    .collect();
                Batch::try_from_chunk(chunk)
            })
            .collect();
        let mut delivered = Vec::new();
        let mut committed = Vec::new();
        run(
            AfterRecords::try_new(2).unwrap(),
            units,
            |unit| {
                assert!(!unit.is_empty() && unit.len() <= 5);
                delivered.extend(positions(unit));
                Ok(())
            },
            |epoch| {
                committed.extend(epoch.0);
                Ok(())
            },
        )
        .unwrap();
        assert_eq!(delivered, vec![0, 3, 6, 9, 12]);
        assert_eq!(committed, delivered);
    }
}
