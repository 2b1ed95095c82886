//! How often a run commits under the policies that count records.
use crate::checkpoint::Checkpoint;
use crate::commit;
use crate::commit::{CommitEvent, Progress};
use crate::history;
use crate::policy::{
    AfterRecords, AfterRecordsOrTimeout, CollectPolicy, CommitAction, CommitEach, CommitPolicy,
    PositionAction,
};
use crate::runner::collecting;
use crate::runner::collecting::{CollectEvent, CollectPhase, Collecting};
use crate::runner::units;
use crate::runner::units::{Phase, UnitEvent};
use crate::sink::DeliveryUnit;
use crate::time::{Duration, Moment, MAX_READING};
use vstd::prelude::*;

verus! {

/// Whether a policy counts the records that are acknowledged between two commits, and asks for a
/// commit no later than when they reach its limit, and, but for a deadline, no earlier.
pub open spec fn counts_records<P, Policy: CommitPolicy<P>>(
    count: spec_fn(Policy::State) -> nat,
    limit: spec_fn(Policy::State) -> nat,
) -> bool {
    &&& forall|state: Policy::State, position: P| #[trigger]
        Policy::position_seen(state, position) == (state, PositionAction::Continue)
    &&& forall|state: Policy::State, records: usize, now: Moment|
        #![trigger Policy::delivery_seen(state, records, now)]
        {
            let (told, action) = Policy::delivery_seen(state, records, now);
            &&& limit(told) == limit(state)
            &&& action == CommitAction::Continue ==> count(told) == count(state) + records
                && count(told) < limit(state)
            &&& action == CommitAction::CommitLatest && count(state) + records > 0 ==> count(state)
                + records >= limit(state)
            &&& records == 0 ==> count(told) == count(state)
        }
    &&& forall|state: Policy::State| (#[trigger] Policy::timeout_seen(state)).0 == state
    &&& forall|state: Policy::State|
        count(#[trigger] Policy::commit_seen(state)) == 0 && limit(Policy::commit_seen(state))
            == limit(state)
}

/// How many positions have been acknowledged and not yet persisted.
pub open spec fn unpersisted<C: Checkpoint<P>, Policy: CommitPolicy<P>, P>(
    progress: Progress<C, Policy, P>,
) -> int {
    progress.history.acknowledged - progress.history.persisted().len()
}

/// A history whose epochs have all been persisted but for the open one.
proof fn lemma_all_closed_persisted<P>(history: history::History<P>)
    requires
        history.committed == history.closed.len(),
    ensures
        history.persisted() == history.closed.flatten(),
        history.persisted().len() + history.open.len() == history.entered().len(),
{
    assert(history.closed.take(history.closed.len() as int) =~= history.closed);
}

/// Closing the open epoch of such a history and handing it out leaves one epoch to be persisted, of
/// everything that was not persisted yet.
proof fn lemma_open_epoch_is_handed_out<P>(history: history::History<P>)
    requires
        history.is_consistent(),
        history.committed == history.closed.len(),
        history.open.len() > 0,
    ensures
        ({
            let after = history.close().hand_out();
            &&& after.handed == after.closed.len() == after.committed + 1
            &&& after.open.len() == 0
            &&& after.closed.last() == history.open
            &&& after.persisted() == history.persisted()
            &&& after.persisted().len() + after.closed.last().len() == after.entered().len()
            &&& after.commit().persisted() == after.entered()
            &&& after.commit().committed == after.commit().closed.len()
        }),
{
    lemma_all_closed_persisted(history);
    history::closing_keeps_positions(history);
    let after = history.close().hand_out();
    lemma_all_closed_persisted(after.commit());
}

/// Over a run of complete units under a policy that counts records: between two deliveries fewer
/// records than the limit are delivered and not yet committed, and the policy has counted exactly
/// those. A commit takes in everything that was delivered. Where the policy has no deadlines and the
/// source has not ended, no commit is smaller than the limit.
pub proof fn counted_runs_commit_in_time<U, C, Policy, P>(
    count: spec_fn(Policy::State) -> nat,
    limit: spec_fn(Policy::State) -> nat,
    policy: Policy::State,
    events: Seq<UnitEvent<U>>,
    reached: (Progress<C, Policy, P>, Phase),
) where U: DeliveryUnit<P>, C: Checkpoint<P>, Policy: CommitPolicy<P>
    requires
        counts_records::<P, Policy>(count, limit),
        count(policy) == 0,
        limit(policy) > 0,
        units::may_run(policy, events, reached),
    ensures
        limit(reached.0.policy) == limit(policy),
        match reached.1 {
            Phase::Waiting => {
                &&& unpersisted(reached.0) == count(reached.0.policy)
                &&& unpersisted(reached.0) < limit(policy)
                &&& reached.0.history.acknowledged == reached.0.history.entered().len()
                &&& reached.0.history.committed == reached.0.history.closed.len()
            },
            Phase::Delivering { .. } => {
                &&& unpersisted(reached.0) == count(reached.0.policy)
                &&& unpersisted(reached.0) < limit(policy)
                &&& reached.0.history.committed == reached.0.history.closed.len()
            },
            Phase::Committing { last } => {
                &&& reached.0.history.persisted().len() + reached.0.history.closed.last().len()
                    == reached.0.history.entered().len()
                &&& reached.0.history.handed == reached.0.history.closed.len()
                &&& reached.0.history.open.len() == 0
                &&& !last && (forall|state: Policy::State| #[trigger]
                    Policy::next_deadline(state) is None) && (forall|i: int|
                    0 <= i < events.len() ==> !((#[trigger] events[i]) is Deadline))
                    ==> reached.0.history.closed.last().len() >= limit(policy)
            },
            Phase::Finished => true,
        },
    decreases events.len(),
{
    units::runs_deliver_their_units_in_order(policy, events, reached);
    if events.len() == 0 {
        lemma_all_closed_persisted(reached.0.history);
        assert(reached.0.history.entered() =~= Seq::empty());
    } else {
        let earlier = events.drop_last();
        let before = choose|before: (Progress<C, Policy, P>, Phase)|
            {
                &&& units::may_run(policy, earlier, before)
                &&& #[trigger] units::moves(before, events.last(), reached)
            };
        counted_runs_commit_in_time(count, limit, policy, earlier, before);
        units::runs_deliver_their_units_in_order(policy, earlier, before);
        let progress = before.0;
        let open = progress.history.open.len();
        match events.last() {
            UnitEvent::Unit(unit) => {
                commit::entering_keeps_agreement(progress, unit.positions(), reached.0);
                commit::positions_join_the_open_epoch(progress, unit.positions(), reached.0);
            },
            UnitEvent::Deadline => {
                lemma_all_closed_persisted(progress.history);
                commit::deadlines_commit_as_asked(progress);
                if open > 0 {
                    lemma_open_epoch_is_handed_out(progress.history);
                }
                assert(events[events.len() - 1] is Deadline);
            },
            UnitEvent::End => {
                lemma_all_closed_persisted(progress.history);
                commit::ends_leave_nothing_open(progress);
                if open > 0 {
                    lemma_open_epoch_is_handed_out(progress.history);
                }
            },
            UnitEvent::Delivered { acknowledged_at, checked_at } => {
                let records = before.1->records;
                lemma_all_closed_persisted(progress.history);
                history::acknowledging_keeps_positions(progress.history);
                commit::acknowledgements_commit_as_asked(
                    progress,
                    records,
                    acknowledged_at,
                    checked_at,
                );
                lemma_all_closed_persisted(progress.history.acknowledge());
                if open > 0 {
                    lemma_open_epoch_is_handed_out(progress.history.acknowledge());
                }
            },
            UnitEvent::Committed => {
                lemma_all_closed_persisted(progress.history.commit());
            },
            _ => {
                assert(forall|i: int| 0 <= i < earlier.len() ==> earlier[i] == events[i]);
            },
        }
    }
}

/// Over a run of collections under a policy that counts records: between two collections fewer records
/// than the limit are delivered and not yet committed, and the policy has counted exactly those. A
/// commit takes in everything that was delivered. Where the policy has no deadlines and the source has
/// not ended, no commit is smaller than the limit.
pub proof fn counted_collections_commit_in_time<C, Policy, P>(
    count: spec_fn(Policy::State) -> nat,
    limit: spec_fn(Policy::State) -> nat,
    limits: CollectPolicy,
    policy: Policy::State,
    events: Seq<CollectEvent<P>>,
    reached: Collecting<C, Policy, P>,
) where C: Checkpoint<P>, Policy: CommitPolicy<P>
    requires
        counts_records::<P, Policy>(count, limit),
        count(policy) == 0,
        limit(policy) > 0,
        limits.capacity().count() > 0,
        collecting::may_collect(limits, policy, events, reached),
    ensures
        limit(reached.progress.policy) == limit(policy),
        match reached.phase {
            CollectPhase::Finished => true,
            CollectPhase::Committing { onward } => {
                let history = reached.progress.history;
                &&& history.persisted().len() + history.closed.last().len()
                    == history.entered().len()
                &&& history.handed == history.closed.len()
                &&& history.open.len() == 0
                &&& onward is Resume && (forall|state: Policy::State| #[trigger]
                    Policy::next_deadline(state) is None) && (forall|i: int|
                    0 <= i < events.len() ==> !((#[trigger] events[i]) is Deadline))
                    ==> history.closed.last().len() >= limit(policy)
            },
            _ => {
                &&& unpersisted(reached.progress) == count(reached.progress.policy)
                &&& unpersisted(reached.progress) < limit(policy)
                &&& reached.progress.history.committed == reached.progress.history.closed.len()
            },
        },
    decreases events.len(),
{
    collecting::runs_collect_their_records_in_order(limits, policy, events, reached);
    if events.len() == 0 {
        lemma_all_closed_persisted(reached.progress.history);
        assert(reached.progress.history.entered() =~= Seq::empty());
    } else {
        let earlier = events.drop_last();
        let before = choose|before: Collecting<C, Policy, P>|
            {
                &&& collecting::may_collect(limits, policy, earlier, before)
                &&& #[trigger] collecting::collect_moves(limits, before, events.last(), reached)
            };
        counted_collections_commit_in_time(count, limit, limits, policy, earlier, before);
        collecting::runs_collect_their_records_in_order(limits, policy, earlier, before);
        let progress = before.progress;
        let open = progress.history.open.len();
        match events.last() {
            CollectEvent::Begun { .. } => {
                let positions = seq![before.first->0];
                commit::entering_keeps_agreement(progress, positions, reached.progress);
                commit::positions_join_the_open_epoch(progress, positions, reached.progress);
            },
            CollectEvent::Another(position) => {
                commit::entering_keeps_agreement(progress, seq![position], reached.progress);
                commit::positions_join_the_open_epoch(progress, seq![position], reached.progress);
            },
            CollectEvent::Deadline => {
                lemma_all_closed_persisted(progress.history);
                commit::deadlines_commit_as_asked(progress);
                if open > 0 {
                    lemma_open_epoch_is_handed_out(progress.history);
                }
                assert(events[events.len() - 1] is Deadline);
            },
            CollectEvent::End => {
                lemma_all_closed_persisted(progress.history);
                commit::ends_leave_nothing_open(progress);
                if open > 0 {
                    lemma_open_epoch_is_handed_out(progress.history);
                }
            },
            CollectEvent::Finished { acknowledged_at, checked_at } => {
                let records = before.phase->Finishing_count;
                let told = progress.acknowledge(records, acknowledged_at, checked_at);
                lemma_all_closed_persisted(progress.history);
                history::acknowledging_keeps_positions(progress.history);
                commit::acknowledgements_commit_as_asked(
                    progress,
                    records,
                    acknowledged_at,
                    checked_at,
                );
                lemma_all_closed_persisted(progress.history.acknowledge());
                if open > 0 {
                    lemma_open_epoch_is_handed_out(progress.history.acknowledge());
                }
                commit::operations_keep_agreement(
                    progress,
                    CommitEvent::Acknowledged { records, acknowledged_at, checked_at },
                    told,
                );
                commit::ends_leave_nothing_open(told);
            },
            CollectEvent::Committed => {
                lemma_all_closed_persisted(progress.history.commit());
                commit::operations_keep_agreement(
                    progress,
                    CommitEvent::Committed,
                    progress.commit(),
                );
            },
            _ => {
                assert(forall|i: int| 0 <= i < earlier.len() ==> earlier[i] == events[i]);
            },
        }
    }
}

/// Under the default policy everything that was delivered has been committed before the next unit or
/// collection is waited for.
pub proof fn every_delivery_is_committed<U, C, P>(
    events: Seq<UnitEvent<U>>,
    reached: (Progress<C, CommitEach, P>, Phase),
    limits: CollectPolicy,
    told: Seq<CollectEvent<P>>,
    collected: Collecting<C, CommitEach, P>,
) where U: DeliveryUnit<P>, C: Checkpoint<P>
    requires
        limits.capacity().count() > 0,
    ensures
        units::may_run(CommitEach, events, reached) && reached.1 == Phase::Waiting
            ==> reached.0.history.persisted() == reached.0.history.entered(),
        collecting::may_collect(limits, CommitEach, told, collected) && collected.phase
            == CollectPhase::Waiting ==> collected.progress.history.persisted()
            == collected.progress.history.entered(),
{
    let count = |state: CommitEach| 0nat;
    let limit = |state: CommitEach| 1nat;
    assert(counts_records::<P, CommitEach>(count, limit));
    if units::may_run(CommitEach, events, reached) && reached.1 == Phase::Waiting {
        counted_runs_commit_in_time(count, limit, CommitEach, events, reached);
        units::runs_deliver_their_units_in_order(CommitEach, events, reached);
        history::persisted_is_acknowledged(reached.0.history);
    }
    if collecting::may_collect(limits, CommitEach, told, collected) && collected.phase
        == CollectPhase::Waiting {
        counted_collections_commit_in_time(count, limit, limits, CommitEach, told, collected);
        collecting::runs_collect_their_records_in_order(limits, CommitEach, told, collected);
        history::persisted_is_acknowledged(collected.progress.history);
    }
}

/// A run of complete units under a count policy: whatever was delivered and is not yet committed is
/// fewer records than the threshold, the policy has counted exactly those, and before the source ends
/// no commit takes in fewer records than the threshold.
pub proof fn count_policies_commit_at_the_threshold<U, C, P>(
    policy: AfterRecords,
    events: Seq<UnitEvent<U>>,
    reached: (Progress<C, AfterRecords, P>, Phase),
) where U: DeliveryUnit<P>, C: Checkpoint<P>
    requires
        policy.acknowledged == 0,
        policy.records.count() > 0,
        units::may_run(policy, events, reached),
        forall|i: int| 0 <= i < events.len() ==> !((#[trigger] events[i]) is Deadline),
    ensures
        reached.0.policy.records.count() == policy.records.count(),
        reached.1 == Phase::Waiting || reached.1 is Delivering ==> {
            &&& unpersisted(reached.0) < policy.records.count()
            &&& reached.0.policy.acknowledged == unpersisted(reached.0)
        },
        reached.1 matches Phase::Committing { last } ==> {
            let history = reached.0.history;
            &&& history.persisted().len() + history.closed.last().len() == history.entered().len()
            &&& !last ==> history.closed.last().len() >= policy.records.count()
        },
{
    let count = |state: AfterRecords| state.acknowledged as nat;
    let limit = |state: AfterRecords| state.records.count() as nat;
    assert(counts_records::<P, AfterRecords>(count, limit));
    counted_runs_commit_in_time(count, limit, policy, events, reached);
}

/// A run of collections under a count policy: whatever was delivered and is not yet committed is fewer
/// records than the threshold, the policy has counted exactly those, and before the source ends no
/// commit takes in fewer records than the threshold.
pub proof fn count_policies_commit_collections_at_the_threshold<C, P>(
    limits: CollectPolicy,
    policy: AfterRecords,
    events: Seq<CollectEvent<P>>,
    reached: Collecting<C, AfterRecords, P>,
) where C: Checkpoint<P>
    requires
        limits.capacity().count() > 0,
        policy.acknowledged == 0,
        policy.records.count() > 0,
        collecting::may_collect(limits, policy, events, reached),
        forall|i: int| 0 <= i < events.len() ==> !((#[trigger] events[i]) is Deadline),
    ensures
        reached.progress.policy.records.count() == policy.records.count(),
        !(reached.phase is Committing) && reached.phase != CollectPhase::Finished ==> {
            &&& unpersisted(reached.progress) < policy.records.count()
            &&& reached.progress.policy.acknowledged == unpersisted(reached.progress)
        },
        reached.phase matches CollectPhase::Committing { onward } ==> {
            let history = reached.progress.history;
            &&& history.persisted().len() + history.closed.last().len() == history.entered().len()
            &&& onward is Resume ==> history.closed.last().len() >= policy.records.count()
        },
{
    let count = |state: AfterRecords| state.acknowledged as nat;
    let limit = |state: AfterRecords| state.records.count() as nat;
    assert(counts_records::<P, AfterRecords>(count, limit));
    counted_collections_commit_in_time(count, limit, limits, policy, events, reached);
}

/// The moment of the first delivery since the last commit.
pub open spec fn first_delivered<U>(events: Seq<UnitEvent<U>>) -> Option<Moment>
    decreases events.len(),
{
    if events.len() == 0 {
        None
    } else {
        let before = first_delivered(events.drop_last());
        match events.last() {
            UnitEvent::Delivered { acknowledged_at, .. } => match before {
                Some(moment) => Some(moment),
                None => Some(acknowledged_at),
            },
            UnitEvent::Committed => None,
            _ => before,
        }
    }
}

/// The moment at which the first collection since the last commit was finished.
pub open spec fn first_finished<P>(events: Seq<CollectEvent<P>>) -> Option<Moment>
    decreases events.len(),
{
    if events.len() == 0 {
        None
    } else {
        let before = first_finished(events.drop_last());
        match events.last() {
            CollectEvent::Finished { acknowledged_at, .. } => match before {
                Some(moment) => Some(moment),
                None => Some(acknowledged_at),
            },
            CollectEvent::Committed => None,
            _ => before,
        }
    }
}

/// Whether a deadline lies the timeout after a moment, and is there exactly where the moment is.
pub open spec fn is_deadline_of(
    deadline: Option<Moment>,
    start: Option<Moment>,
    timeout: Duration,
) -> bool {
    match (deadline, start) {
        (Some(deadline), Some(start)) => deadline.nanos == start.nanos + timeout.nanos(),
        (None, None) => true,
        _ => false,
    }
}

/// A run of complete units under a count-or-time policy: whatever was delivered and is not yet
/// committed is fewer records than the threshold, and its deadline lies the timeout after the first
/// delivery since the last commit.
pub proof fn timed_policies_commit_in_time<U, C, P>(
    policy: AfterRecordsOrTimeout,
    events: Seq<UnitEvent<U>>,
    reached: (Progress<C, AfterRecordsOrTimeout, P>, Phase),
) where U: DeliveryUnit<P>, C: Checkpoint<P>
    requires
        policy.acknowledged == 0,
        policy.deadline is None,
        policy.records.count() > 0,
        policy.timeout.nanos() <= MAX_READING,
        units::may_run(policy, events, reached),
        forall|i: int|
            0 <= i < events.len() ==> ((#[trigger] events[i]) matches UnitEvent::Delivered {
                acknowledged_at,
                ..
            } ==> acknowledged_at.is_reading()),
    ensures
        reached.0.policy.timeout == policy.timeout,
        reached.0.policy.records.count() == policy.records.count(),
        reached.1 == Phase::Waiting || reached.1 is Delivering ==> {
            &&& unpersisted(reached.0) < policy.records.count()
            &&& reached.0.policy.acknowledged == unpersisted(reached.0)
        },
        is_deadline_of(reached.0.policy.deadline, first_delivered(events), policy.timeout),
        reached.1 == Phase::Waiting && unpersisted(reached.0) > 0 ==> {
            &&& reached.0.deadline() is Some
            &&& is_deadline_of(reached.0.deadline(), first_delivered(events), policy.timeout)
        },
    decreases events.len(),
{
    let count = |state: AfterRecordsOrTimeout| state.acknowledged as nat;
    let limit = |state: AfterRecordsOrTimeout| state.records.count() as nat;
    assert(counts_records::<P, AfterRecordsOrTimeout>(count, limit));
    counted_runs_commit_in_time(count, limit, policy, events, reached);
    units::runs_deliver_their_units_in_order(policy, events, reached);
    if events.len() > 0 {
        let earlier = events.drop_last();
        let before = choose|before: (Progress<C, AfterRecordsOrTimeout, P>, Phase)|
            {
                &&& units::may_run(policy, earlier, before)
                &&& #[trigger] units::moves(before, events.last(), reached)
            };
        assert(events[events.len() - 1] == events.last());
        assert forall|i: int| 0 <= i < earlier.len() implies (
        (#[trigger] earlier[i]) matches UnitEvent::Delivered { acknowledged_at, .. }
            ==> acknowledged_at.is_reading()) by {
            assert(earlier[i] == events[i]);
        }
        timed_policies_commit_in_time(policy, earlier, before);
        units::runs_deliver_their_units_in_order(policy, earlier, before);
        match events.last() {
            UnitEvent::Unit(unit) => {
                commit::positions_join_the_open_epoch(before.0, unit.positions(), reached.0);
            },
            UnitEvent::Delivered { acknowledged_at, checked_at } => {
                commit::acknowledgements_commit_as_asked(
                    before.0,
                    before.1->records,
                    acknowledged_at,
                    checked_at,
                );
            },
            _ => {},
        }
    }
    if reached.1 == Phase::Waiting {
        lemma_all_closed_persisted(reached.0.history);
        commit::deadlines_are_the_policys_between_units(reached.0);
    }
}

/// A run of collections under a count-or-time policy: whatever was delivered and is not yet committed
/// is fewer records than the threshold, and its deadline lies the timeout after the first collection
/// that was finished since the last commit.
pub proof fn timed_policies_commit_collections_in_time<C, P>(
    limits: CollectPolicy,
    policy: AfterRecordsOrTimeout,
    events: Seq<CollectEvent<P>>,
    reached: Collecting<C, AfterRecordsOrTimeout, P>,
) where C: Checkpoint<P>
    requires
        limits.capacity().count() > 0,
        policy.acknowledged == 0,
        policy.deadline is None,
        policy.records.count() > 0,
        policy.timeout.nanos() <= MAX_READING,
        collecting::may_collect(limits, policy, events, reached),
        forall|i: int|
            0 <= i < events.len() ==> ((#[trigger] events[i]) matches CollectEvent::Finished {
                acknowledged_at,
                ..
            } ==> acknowledged_at.is_reading()),
    ensures
        reached.progress.policy.timeout == policy.timeout,
        reached.progress.policy.records.count() == policy.records.count(),
        !(reached.phase is Committing) && reached.phase != CollectPhase::Finished ==> {
            &&& unpersisted(reached.progress) < policy.records.count()
            &&& reached.progress.policy.acknowledged == unpersisted(reached.progress)
        },
        is_deadline_of(reached.progress.policy.deadline, first_finished(events), policy.timeout),
        reached.phase == CollectPhase::Waiting && unpersisted(reached.progress) > 0 ==> {
            &&& reached.progress.deadline() is Some
            &&& is_deadline_of(reached.progress.deadline(), first_finished(events), policy.timeout)
        },
    decreases events.len(),
{
    let count = |state: AfterRecordsOrTimeout| state.acknowledged as nat;
    let limit = |state: AfterRecordsOrTimeout| state.records.count() as nat;
    assert(counts_records::<P, AfterRecordsOrTimeout>(count, limit));
    counted_collections_commit_in_time(count, limit, limits, policy, events, reached);
    collecting::runs_collect_their_records_in_order(limits, policy, events, reached);
    if events.len() > 0 {
        let earlier = events.drop_last();
        let before = choose|before: Collecting<C, AfterRecordsOrTimeout, P>|
            {
                &&& collecting::may_collect(limits, policy, earlier, before)
                &&& #[trigger] collecting::collect_moves(limits, before, events.last(), reached)
            };
        assert(events[events.len() - 1] == events.last());
        assert forall|i: int| 0 <= i < earlier.len() implies (
        (#[trigger] earlier[i]) matches CollectEvent::Finished { acknowledged_at, .. }
            ==> acknowledged_at.is_reading()) by {
            assert(earlier[i] == events[i]);
        }
        timed_policies_commit_collections_in_time(limits, policy, earlier, before);
        collecting::runs_collect_their_records_in_order(limits, policy, earlier, before);
        match events.last() {
            CollectEvent::Begun { .. } => {
                let positions = seq![before.first->0];
                commit::positions_join_the_open_epoch(
                    before.progress,
                    positions,
                    reached.progress,
                );
            },
            CollectEvent::Another(position) => {
                commit::positions_join_the_open_epoch(
                    before.progress,
                    seq![position],
                    reached.progress,
                );
            },
            CollectEvent::Finished { acknowledged_at, checked_at } => {
                commit::acknowledgements_commit_as_asked(
                    before.progress,
                    before.phase->Finishing_count,
                    acknowledged_at,
                    checked_at,
                );
            },
            _ => {},
        }
    }
    if reached.phase == CollectPhase::Waiting {
        lemma_all_closed_persisted(reached.progress.history);
        commit::deadlines_are_the_policys_between_units(reached.progress);
    }
}

} // verus!
