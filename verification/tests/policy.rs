use sluiceway::error::{BatchConfigError, CollectConfigError, CommitConfigError};
use sluiceway::num::NonZeroUsize;
use sluiceway::policy::{
    AfterRecords, AfterRecordsOrTimeout, BatchPolicy, CollectPolicy, CommitAction, CommitEach,
    CommitPolicy, PositionAction,
};
use sluiceway::time::{Clock, Duration, Moment};

fn at(nanos: u128) -> Moment {
    Moment { nanos }
}

#[test]
fn batching_rejects_zero_bounds() {
    assert!(matches!(
        BatchPolicy::try_new(0, Duration::from_secs(1)),
        Err(BatchConfigError::ZeroSize)
    ));
    assert!(matches!(
        BatchPolicy::try_new(1, Duration::from_secs(0)),
        Err(BatchConfigError::ZeroTimeout)
    ));
}

#[test]
fn zero_size_is_reported_before_zero_timeout() {
    assert!(matches!(
        BatchPolicy::try_new(0, Duration::from_secs(0)),
        Err(BatchConfigError::ZeroSize)
    ));
    assert!(matches!(
        CollectPolicy::try_new(0, Duration::from_secs(0)),
        Err(CollectConfigError::ZeroSize)
    ));
    assert!(matches!(
        AfterRecordsOrTimeout::try_new(0, Duration::from_secs(0)),
        Err(CommitConfigError::ZeroRecords)
    ));
    assert_eq!(
        BatchConfigError::ZeroSize.message(),
        "batch size must be greater than zero"
    );
    assert_eq!(
        BatchConfigError::ZeroTimeout.message(),
        "batch timeout must be greater than zero"
    );
}

#[test]
fn collecting_and_committing_reject_zero_bounds() {
    assert!(matches!(
        CollectPolicy::try_new(0, Duration::from_millis(1)),
        Err(CollectConfigError::ZeroSize)
    ));
    assert!(matches!(
        CollectPolicy::try_new(1, Duration::from_nanos(0)),
        Err(CollectConfigError::ZeroTimeout)
    ));
    assert!(matches!(
        AfterRecords::try_new(0),
        Err(CommitConfigError::ZeroRecords)
    ));
    assert!(matches!(
        AfterRecordsOrTimeout::try_new(1, Duration::from_millis(0)),
        Err(CommitConfigError::ZeroTimeout)
    ));
}

#[test]
fn batch_limits_are_kept() {
    let policy = BatchPolicy::try_new(3, Duration::from_millis(1500)).unwrap();
    assert_eq!(policy.size().get(), 3);
    assert_eq!(policy.timeout(), Duration::from_millis(1500));
    assert_eq!(policy.prefetched(), 0);
    let policy = policy.prefetch(4);
    assert_eq!(policy.prefetched(), 4);
    assert_eq!(policy.size().get(), 3);
    assert_eq!(policy.emit_reason(3), "full");
    assert_eq!(policy.emit_reason(2), "timeout");
    let policy = CollectPolicy::new(NonZeroUsize::one(), Duration::from_secs(2)).unwrap();
    assert_eq!(policy.size().get(), 1);
    assert_eq!(policy.timeout().as_secs(), 2);
    assert_eq!(policy.emit_reason(1), "full");
}

#[test]
fn after_records_resets_only_after_a_successful_commit() {
    let mut policy = AfterRecords::try_new(3).unwrap();

    assert_eq!(
        <AfterRecords as CommitPolicy<()>>::on_acknowledged(&mut policy, 2, at(0)),
        CommitAction::Continue
    );
    assert_eq!(
        <AfterRecords as CommitPolicy<()>>::on_acknowledged(&mut policy, 1, at(0)),
        CommitAction::CommitLatest
    );
    <AfterRecords as CommitPolicy<()>>::on_committed(&mut policy);
    assert_eq!(
        <AfterRecords as CommitPolicy<()>>::on_acknowledged(&mut policy, 1, at(0)),
        CommitAction::Continue
    );
}

#[test]
fn after_records_uses_saturating_accounting() {
    let mut policy = AfterRecords::try_new(2).unwrap();
    policy.acknowledged = usize::MAX;

    assert_eq!(
        <AfterRecords as CommitPolicy<()>>::on_acknowledged(&mut policy, 1, at(0)),
        CommitAction::CommitLatest
    );
}

#[test]
fn after_records_counts_across_units() {
    let mut split = AfterRecords::try_new(5).unwrap();
    assert_eq!(
        <AfterRecords as CommitPolicy<()>>::on_acknowledged(&mut split, 2, at(0)),
        CommitAction::Continue
    );
    assert_eq!(
        <AfterRecords as CommitPolicy<()>>::on_acknowledged(&mut split, 3, at(0)),
        CommitAction::CommitLatest
    );
    let mut whole = AfterRecords::try_new(5).unwrap();
    assert_eq!(
        <AfterRecords as CommitPolicy<()>>::on_acknowledged(&mut whole, 5, at(0)),
        CommitAction::CommitLatest
    );
    assert_eq!(split.acknowledged, whole.acknowledged);
}

#[test]
fn the_timer_starts_with_the_first_acknowledgement() {
    type Policy = AfterRecordsOrTimeout;
    let mut policy = Policy::try_new(10, Duration::from_nanos(50)).unwrap();
    assert_eq!(<Policy as CommitPolicy<()>>::deadline(&policy), None);
    <Policy as CommitPolicy<()>>::on_acknowledged(&mut policy, 1, at(100));
    assert_eq!(<Policy as CommitPolicy<()>>::deadline(&policy), Some(at(150)));
    <Policy as CommitPolicy<()>>::on_acknowledged(&mut policy, 1, at(140));
    assert_eq!(<Policy as CommitPolicy<()>>::deadline(&policy), Some(at(150)));
    assert_eq!(
        <Policy as CommitPolicy<()>>::on_timeout(&mut policy),
        CommitAction::CommitLatest
    );
    <Policy as CommitPolicy<()>>::on_committed(&mut policy);
    assert_eq!(<Policy as CommitPolicy<()>>::deadline(&policy), None);
    <Policy as CommitPolicy<()>>::on_acknowledged(&mut policy, 1, at(200));
    assert_eq!(<Policy as CommitPolicy<()>>::deadline(&policy), Some(at(250)));
}

#[test]
fn the_count_is_reached_before_the_deadline() {
    type Policy = AfterRecordsOrTimeout;
    let mut policy = Policy::try_new(2, Duration::from_secs(1)).unwrap();
    assert_eq!(
        <Policy as CommitPolicy<()>>::on_acknowledged(&mut policy, 1, at(0)),
        CommitAction::Continue
    );
    assert_eq!(
        <Policy as CommitPolicy<()>>::on_acknowledged(&mut policy, 1, at(1)),
        CommitAction::CommitLatest
    );
}

#[test]
fn every_acknowledgement_commits_by_default() {
    let mut policy = CommitEach;
    assert_eq!(
        <CommitEach as CommitPolicy<u64>>::on_position(&mut policy, &7),
        PositionAction::Continue
    );
    assert_eq!(
        <CommitEach as CommitPolicy<u64>>::on_acknowledged(&mut policy, 1, at(0)),
        CommitAction::CommitLatest
    );
    assert_eq!(<CommitEach as CommitPolicy<u64>>::deadline(&policy), None);
}

#[test]
fn clocks_do_not_run_backwards() {
    let clock = Clock::start();
    let first = clock.now();
    let mut second = clock.now();
    while second.nanos < first.nanos + 5_000_000 {
        second = clock.now();
    }
    assert!(first.has_passed(second));
    assert!(!second.has_passed(first));
}

#[test]
fn spans_are_exact() {
    assert_eq!(
        Duration::from_millis(1_234),
        Duration::new(1, 234_000_000)
    );
    assert_eq!(
        Duration::from_nanos(1_000_000_007),
        Duration::new(1, 7)
    );
    let carried = Duration::new(2, 3_000_000_004);
    assert_eq!((carried.as_secs(), carried.subsec_nanos()), (5, 4));
    assert_eq!(at(5).after(Duration::from_secs(2)), at(2_000_000_005));
    assert!(Duration::from_secs(0).is_zero());
    assert!(!Duration::from_nanos(1).is_zero());
    assert!(NonZeroUsize::new(0).is_none());
    assert_eq!(NonZeroUsize::new(9).unwrap().get(), 9);
}

#[test]
fn counts_stop_at_the_largest_count() {
    let mut policy = AfterRecords::try_new(usize::MAX).unwrap();
    for (records, action) in [
        (usize::MAX - 3, CommitAction::Continue),
        (2, CommitAction::Continue),
        (5, CommitAction::CommitLatest),
    ] {
        assert_eq!(
            <AfterRecords as CommitPolicy<()>>::on_acknowledged(&mut policy, records, at(0)),
            action
        );
    }
    assert_eq!(policy.acknowledged, usize::MAX);

    type Timed = AfterRecordsOrTimeout;
    let mut policy = Timed::try_new(4, Duration::from_nanos(9)).unwrap();
    for (now, action) in [
        (10, CommitAction::Continue),
        (11, CommitAction::Continue),
        (12, CommitAction::Continue),
        (13, CommitAction::CommitLatest),
    ] {
        assert_eq!(
            <Timed as CommitPolicy<()>>::on_acknowledged(&mut policy, 1, at(now)),
            action
        );
        assert_eq!(<Timed as CommitPolicy<()>>::deadline(&policy), Some(at(19)));
    }
}
