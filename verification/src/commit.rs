//! Checkpoint state spanning delivery units between commits.
use crate::checkpoint;
use crate::checkpoint::{Checkpoint, CheckpointEpochTransition};
use crate::history;
use crate::history::History;
use crate::policy;
use crate::policy::{
    AfterRecords, AfterRecordsOrTimeout, CommitAction, CommitEach, CommitPolicy, PolicyEvent,
    PositionAction,
};
use crate::sink::DeliveryUnit;
use crate::time::{Clock, Moment, MAX_READING};
use std::collections::VecDeque;
use vstd::prelude::*;

verus! {

/// Checkpoint epochs on their way from delivery to commit.
#[verifier::ext_equal]
pub struct Epochs<C> {
    /// The open checkpoint epoch.
    pub current: Option<C>,
    /// Epochs closed during the current, not-yet-acknowledged delivery unit.
    pub staged: Seq<C>,
    /// Acknowledged checkpoint epochs waiting to be committed in source order.
    pub eligible: Seq<C>,
    /// Whether the open epoch contains only acknowledged progress.
    pub acknowledged: bool,
}

impl<C> Epochs<C> {
    /// No epoch at all.
    pub open spec fn empty() -> Self {
        Epochs { current: None, staged: Seq::empty(), eligible: Seq::empty(), acknowledged: false }
    }

    /// The staged epochs become eligible, and the open one holds acknowledged progress only.
    pub open spec fn acknowledge(self) -> Self {
        Epochs {
            staged: Seq::empty(),
            eligible: self.eligible + self.staged,
            acknowledged: self.current is Some,
            ..self
        }
    }

    /// The open epoch is closed and becomes eligible after every other.
    pub open spec fn queue_latest(self) -> Self {
        Epochs {
            current: None,
            eligible: match self.current {
                Some(epoch) => self.eligible.push(epoch),
                None => self.eligible,
            },
            acknowledged: false,
            ..self
        }
    }

    /// Everything becomes eligible.
    pub open spec fn finish(self) -> Self {
        Epochs {
            staged: Seq::empty(),
            eligible: self.eligible + self.staged,
            ..self
        }.queue_latest()
    }

    /// The first eligible epoch leaves.
    pub open spec fn pop(self) -> Self {
        Epochs {
            eligible: if self.eligible.len() > 0 {
                self.eligible.drop_first()
            } else {
                self.eligible
            },
            ..self
        }
    }
}

/// Whether a position that enters delivery may turn the epochs `before` into the epochs `after`.
///
/// Starting a new epoch closes the checkpoint preceding `position`; the position itself always
/// belongs to the next epoch.
pub open spec fn position_enters<P, C: Checkpoint<P>>(
    before: Epochs<C>,
    action: PositionAction,
    position: P,
    after: Epochs<C>,
) -> bool {
    &&& after.eligible == before.eligible
    &&& !after.acknowledged
    &&& match before.current {
        None => {
            &&& after.staged == before.staged
            &&& after.current is Some
            &&& after.current->0.content() == C::starting(position)
        },
        Some(epoch) => match action {
            PositionAction::Continue => {
                &&& after.staged == before.staged
                &&& after.current is Some
                &&& after.current->0.content() == C::including(epoch.content(), position)
            },
            PositionAction::StartNewEpoch => exists|transition: CheckpointEpochTransition<C>|
                {
                    &&& #[trigger] checkpoint::may_advance(epoch, position, transition)
                    &&& after.staged == before.staged.push(transition.completed_epoch)
                    &&& after.current == Some(transition.next_epoch)
                },
        },
    }
}

/// A policy after it has seen a run of positions, in order.
pub open spec fn policy_after<P, Policy: CommitPolicy<P>>(
    policy: Policy::State,
    positions: Seq<P>,
) -> Policy::State
    decreases positions.len(),
{
    if positions.len() == 0 {
        policy
    } else {
        Policy::position_seen(
            policy_after::<P, Policy>(policy, positions.drop_last()),
            positions.last(),
        ).0
    }
}

/// The action that a policy asks for at the last of a run of positions.
pub open spec fn last_action<P, Policy: CommitPolicy<P>>(
    policy: Policy::State,
    positions: Seq<P>,
) -> PositionAction {
    Policy::position_seen(
        policy_after::<P, Policy>(policy, positions.drop_last()),
        positions.last(),
    ).1
}

/// A history after a run of positions has entered delivery, in order.
pub open spec fn history_after<P, Policy: CommitPolicy<P>>(
    history: History<P>,
    policy: Policy::State,
    positions: Seq<P>,
) -> History<P>
    decreases positions.len(),
{
    if positions.len() == 0 {
        history
    } else {
        history_after::<P, Policy>(history, policy, positions.drop_last()).track(
            last_action::<P, Policy>(policy, positions),
            positions.last(),
        )
    }
}

/// Whether a run of positions that enters delivery, in order, may turn the epochs `before` into the
/// epochs `after`.
pub open spec fn positions_enter<P, C: Checkpoint<P>, Policy: CommitPolicy<P>>(
    before: Epochs<C>,
    policy: Policy::State,
    positions: Seq<P>,
    after: Epochs<C>,
) -> bool
    decreases positions.len(),
{
    if positions.len() == 0 {
        after == before
    } else {
        exists|between: Epochs<C>|
            {
                &&& positions_enter::<P, C, Policy>(before, policy, positions.drop_last(), between)
                &&& #[trigger] position_enters(
                    between,
                    last_action::<P, Policy>(policy, positions),
                    positions.last(),
                    after,
                )
            }
    }
}

/// A run of positions enters delivery where all but its last do, and its last does after them.
proof fn lemma_last_position_enters<P, C: Checkpoint<P>, Policy: CommitPolicy<P>>(
    before: Epochs<C>,
    policy: Policy::State,
    positions: Seq<P>,
    between: Epochs<C>,
    after: Epochs<C>,
)
    requires
        positions.len() > 0,
        positions_enter::<P, C, Policy>(before, policy, positions.drop_last(), between),
        position_enters(between, last_action::<P, Policy>(policy, positions), positions.last(), after),
    ensures
        positions_enter::<P, C, Policy>(before, policy, positions, after),
{
}

/// Whether each epoch stands for the positions that the history gives it.
pub open spec fn epochs_match<P, C: Checkpoint<P>>(epochs: Epochs<C>, history: History<P>) -> bool {
    &&& epochs.eligible.len() == history.eligible - history.handed
    &&& epochs.staged.len() == history.closed.len() - history.eligible
    &&& epochs.current is Some <==> history.open.len() > 0
    &&& epochs.acknowledged <==> history.is_settled() && history.open.len() > 0
    &&& checkpoint::epochs_are_independent::<P, C>() ==> {
        &&& forall|i: int|
            0 <= i < epochs.eligible.len() ==> (#[trigger] epochs.eligible[i]).content() == checkpoint::epoch_of::<P, C>(
                history.closed[history.handed + i],
            )
        &&& forall|i: int|
            0 <= i < epochs.staged.len() ==> (#[trigger] epochs.staged[i]).content() == checkpoint::epoch_of::<P, C>(
                history.closed[history.eligible + i],
            )
        &&& epochs.current matches Some(epoch) ==> epoch.content() == checkpoint::epoch_of::<P, C>(history.open)
    }
}

/// What a policy makes of one acknowledged delivery unit: the policy afterwards, and whether the
/// latest epoch is to be committed.
///
/// When no count action fires, a deadline that has already passed is applied after including this
/// unit's progress, so timeouts never interrupt sink work.
pub open spec fn commit_asked<P, Policy: CommitPolicy<P>>(
    policy: Policy::State,
    records: usize,
    acknowledged_at: Moment,
    checked_at: Moment,
) -> (Policy::State, bool) {
    let (told, action) = Policy::delivery_seen(policy, records, acknowledged_at);
    let passed = match Policy::next_deadline(told) {
        Some(deadline) => deadline.nanos <= checked_at.nanos,
        None => false,
    };
    if action == CommitAction::CommitLatest {
        (told, true)
    } else if passed {
        (
            Policy::timeout_seen(told).0,
            Policy::timeout_seen(told).1 == CommitAction::CommitLatest,
        )
    } else {
        (told, false)
    }
}

/// The policy, the epochs, and the positions that the epochs stand for.
#[verifier::ext_equal]
pub struct Progress<C, Policy: CommitPolicy<P>, P> {
    pub policy: Policy::State,
    pub epochs: Epochs<C>,
    pub history: History<P>,
}

impl<C: Checkpoint<P>, Policy: CommitPolicy<P>, P> Progress<C, Policy, P> {
    /// Nothing has been delivered yet.
    pub open spec fn start(policy: Policy::State) -> Self {
        Progress { policy, epochs: Epochs::empty(), history: History::empty() }
    }

    /// The epochs and the history agree.
    pub open spec fn is_consistent(self) -> bool {
        &&& self.history.is_consistent()
        &&& epochs_match(self.epochs, self.history)
    }

    /// Whether a run of positions that enters delivery, in order, may turn `self` into `after`.
    pub open spec fn may_enter(self, positions: Seq<P>, after: Self) -> bool {
        &&& after.policy == policy_after::<P, Policy>(self.policy, positions)
        &&& positions_enter::<P, C, Policy>(self.epochs, self.policy, positions, after.epochs)
        &&& after.history == history_after::<P, Policy>(self.history, self.policy, positions)
    }

    /// The latest epoch is closed and may be committed.
    pub open spec fn queue_latest(self) -> Self {
        Progress {
            epochs: self.epochs.queue_latest(),
            history: self.history.close(),
            ..self
        }
    }

    /// A unit of `records` records has been delivered: the policy hears of it at
    /// `acknowledged_at`, and its deadline is held against `checked_at`.
    pub open spec fn acknowledge(
        self,
        records: usize,
        acknowledged_at: Moment,
        checked_at: Moment,
    ) -> Self {
        let (policy, asked) = commit_asked::<P, Policy>(
            self.policy,
            records,
            acknowledged_at,
            checked_at,
        );
        let acknowledged = Progress {
            policy,
            epochs: self.epochs.acknowledge(),
            history: self.history.acknowledge(),
        };
        if asked {
            acknowledged.queue_latest()
        } else {
            acknowledged
        }
    }

    /// The policy's deadline has been reached at a safe boundary.
    pub open spec fn time_out(self) -> Self {
        let told = Progress { policy: Policy::timeout_seen(self.policy).0, ..self };
        if Policy::timeout_seen(self.policy).1 == CommitAction::CommitLatest {
            told.queue_latest()
        } else {
            told
        }
    }

    /// The source has ended, or has been cut off.
    pub open spec fn finish(self) -> Self {
        Progress { epochs: self.epochs.finish(), history: self.history.close(), ..self }
    }

    /// The first eligible epoch, if there is one, is handed out.
    pub open spec fn hand_out(self) -> Self {
        Progress { epochs: self.epochs.pop(), history: self.history.hand_out(), ..self }
    }

    /// The epoch that was handed out has been persisted.
    pub open spec fn commit(self) -> Self {
        Progress { policy: Policy::commit_seen(self.policy), history: self.history.commit(), ..self }
    }

    /// Everything that entered delivery is acknowledged, and some of it is still in the open epoch.
    pub open spec fn awaits_commit(self) -> bool {
        &&& self.history.acknowledged == self.history.entered().len()
        &&& self.history.open.len() > 0
    }

    /// The deadline at which the open epoch is to be committed, while it holds acknowledged
    /// progress only.
    pub open spec fn deadline(self) -> Option<Moment> {
        if self.epochs.acknowledged {
            Policy::next_deadline(self.policy)
        } else {
            None
        }
    }
}

/// The epoch that is handed out next stands for a run of positions, every one of them acknowledged,
/// that follows immediately on the positions of the epochs handed out before it.
pub proof fn epochs_are_handed_out_in_order<C, Policy, P>(progress: Progress<C, Policy, P>) where
    C: Checkpoint<P>,
    Policy: CommitPolicy<P>,

    requires
        progress.is_consistent(),
        progress.history.is_safe(),
        progress.epochs.eligible.len() > 0,
        checkpoint::epochs_are_independent::<P, C>(),
    ensures
        ({
            let history = progress.history;
            let start = history.closed.take(history.handed as int).flatten().len();
            let end = history.closed.take((history.handed + 1) as int).flatten().len();
            &&& start < end <= history.acknowledged <= history.entered().len()
            &&& progress.epochs.eligible[0].content() == checkpoint::epoch_of::<P, C>(
                history.entered().subrange(start as int, end as int),
            )
        }),
{
    let history = progress.history;
    let before = history.closed.take(history.handed as int);
    let through = history.closed.take((history.handed + 1) as int);
    let next = history.closed[history.handed as int];
    assert(through =~= before.push(next));
    before.lemma_flatten_push(next);
    history::lemma_flatten_prefix(history.closed, history.handed + 1);
    history::lemma_flatten_prefix(history.closed.take(history.eligible as int), history.handed + 1);
    assert(history.closed.take(history.eligible as int).take((history.handed + 1) as int) =~= through);
    let start = before.flatten().len() as int;
    let end = through.flatten().len() as int;
    assert(history.entered().subrange(start, end) =~= history.closed.flatten().take(end).subrange(
        start,
        end,
    ));
    assert(history.entered().subrange(start, end) =~= next);
}

/// A deadline is given only while everything that entered delivery is acknowledged, so no commit
/// that it brings about holds anything else.
pub proof fn deadlines_wait_for_acknowledgement<C, Policy, P>(
    progress: Progress<C, Policy, P>,
) where C: Checkpoint<P>, Policy: CommitPolicy<P>
    requires
        progress.is_consistent(),
        progress.deadline() is Some,
    ensures
        progress.history.is_settled(),
        progress.time_out().history.is_safe(),
        progress.time_out().history.entered() == progress.history.entered(),
{
    let history = progress.history;
    history::closing_keeps_positions(history);
    assert(history.closed.take(history.eligible as int) =~= history.closed);
}

/// There is no deadline exactly while something that entered delivery is not acknowledged, or
/// nothing is left in the open epoch; else the deadline is the policy's own.
pub proof fn deadlines_are_the_policys_between_units<C, Policy, P>(
    progress: Progress<C, Policy, P>,
) where C: Checkpoint<P>, Policy: CommitPolicy<P>
    requires
        progress.is_consistent(),
    ensures
        progress.deadline() == (if progress.history.acknowledged < progress.history.entered().len()
            || progress.history.open.len() == 0 {
            None
        } else {
            Policy::next_deadline(progress.policy)
        }),
{
}

/// One operation on the state of commits.
pub enum CommitEvent<P> {
    /// A position has entered delivery.
    Entered(P),
    /// A unit of `records` records has been delivered.
    Acknowledged { records: usize, acknowledged_at: Moment, checked_at: Moment },
    /// The policy's deadline has been reached, at a safe boundary.
    TimedOut,
    /// The source has ended, or has been cut off.
    Finished,
    /// The first eligible epoch, if there is one, has been handed out.
    HandedOut,
    /// Whatever was handed out has been persisted.
    Committed,
}

/// Whether an operation may turn `before` into `after`.
pub open spec fn may_happen<C: Checkpoint<P>, Policy: CommitPolicy<P>, P>(
    before: Progress<C, Policy, P>,
    event: CommitEvent<P>,
    after: Progress<C, Policy, P>,
) -> bool {
    match event {
        CommitEvent::Entered(position) => {
            let (policy, action) = Policy::position_seen(before.policy, position);
            &&& after.policy == policy
            &&& position_enters(before.epochs, action, position, after.epochs)
            &&& after.history == before.history.track(action, position)
        },
        CommitEvent::Acknowledged { records, acknowledged_at, checked_at } => {
            after == before.acknowledge(records, acknowledged_at, checked_at)
        },
        CommitEvent::TimedOut => {
            &&& before.epochs.staged.len() == 0
            &&& after == before.time_out()
        },
        CommitEvent::Finished => after == before.finish(),
        CommitEvent::HandedOut => after == before.hand_out(),
        CommitEvent::Committed => after == before.commit(),
    }
}

/// Whether a run of operations on a new state, in order, may lead to `progress`.
pub open spec fn may_lead_to<C: Checkpoint<P>, Policy: CommitPolicy<P>, P>(
    policy: Policy::State,
    events: Seq<CommitEvent<P>>,
    progress: Progress<C, Policy, P>,
) -> bool
    decreases events.len(),
{
    if events.len() == 0 {
        progress == Progress::<C, Policy, P>::start(policy)
    } else {
        exists|before: Progress<C, Policy, P>|
            {
                &&& may_lead_to(policy, events.drop_last(), before)
                &&& #[trigger] may_happen(before, events.last(), progress)
            }
    }
}

/// Whether a position has entered delivery since the last acknowledgement.
pub open spec fn entered_since_acknowledgement<P>(events: Seq<CommitEvent<P>>) -> bool
    decreases events.len(),
{
    if events.len() == 0 {
        false
    } else {
        match events.last() {
            CommitEvent::Entered(_) => true,
            CommitEvent::Acknowledged { .. } => false,
            _ => entered_since_acknowledgement(events.drop_last()),
        }
    }
}

/// Every position that entered delivery, in order.
pub open spec fn positions_entered<P>(events: Seq<CommitEvent<P>>) -> Seq<P>
    decreases events.len(),
{
    if events.len() == 0 {
        Seq::empty()
    } else {
        match events.last() {
            CommitEvent::Entered(position) => positions_entered(events.drop_last()).push(position),
            _ => positions_entered(events.drop_last()),
        }
    }
}

/// Every operation keeps the epochs and the history in agreement, and only a position that enters
/// delivery adds to what has entered it.
pub proof fn operations_keep_agreement<C, Policy, P>(
    before: Progress<C, Policy, P>,
    event: CommitEvent<P>,
    after: Progress<C, Policy, P>,
) where C: Checkpoint<P>, Policy: CommitPolicy<P>
    requires
        before.is_consistent(),
        may_happen(before, event, after),
    ensures
        after.is_consistent(),
        after.history.entered() == (match event {
            CommitEvent::Entered(position) => before.history.entered().push(position),
            _ => before.history.entered(),
        }),
{
    let history = before.history;
    match event {
        CommitEvent::Entered(position) => {
            let action = Policy::position_seen(before.policy, position).1;
            history::tracking_appends(history, action, position);
            assert(history.open.push(position).drop_last() =~= history.open);
        },
        CommitEvent::Acknowledged { .. } => {
            history::acknowledging_keeps_positions(history);
            history::closing_keeps_positions(history.acknowledge());
        },
        CommitEvent::TimedOut => {
            history::closing_keeps_positions(history);
        },
        CommitEvent::Finished => {
            history::closing_keeps_positions(history);
        },
        CommitEvent::HandedOut => {
            history::committing_keeps_positions(history);
        },
        CommitEvent::Committed => {
            history::committing_keeps_positions(history);
        },
    }
}

/// A run of positions that enters delivery keeps the epochs and the history in agreement, comes
/// after every earlier position, and moves neither acknowledgement nor commit.
pub proof fn entering_keeps_agreement<C, Policy, P>(
    before: Progress<C, Policy, P>,
    positions: Seq<P>,
    after: Progress<C, Policy, P>,
) where C: Checkpoint<P>, Policy: CommitPolicy<P>
    requires
        before.is_consistent(),
        before.may_enter(positions, after),
    ensures
        after.is_consistent(),
        before.history.is_safe() ==> after.history.is_safe(),
        after.history.entered() == before.history.entered() + positions,
        after.history.committed == before.history.committed,
        after.history.handed == before.history.handed,
        after.history.eligible == before.history.eligible,
        after.history.acknowledged == before.history.acknowledged,
        after.history.persisted() == before.history.persisted(),
    decreases positions.len(),
{
    if positions.len() == 0 {
        assert(before.history.entered() + positions =~= before.history.entered());
    } else {
        let action = last_action::<P, Policy>(before.policy, positions);
        let epochs = choose|epochs: Epochs<C>|
            {
                &&& positions_enter::<P, C, Policy>(
                    before.epochs,
                    before.policy,
                    positions.drop_last(),
                    epochs,
                )
                &&& #[trigger] position_enters(epochs, action, positions.last(), after.epochs)
            };
        let between = Progress::<C, Policy, P> {
            policy: policy_after::<P, Policy>(before.policy, positions.drop_last()),
            epochs,
            history: history_after::<P, Policy>(
                before.history,
                before.policy,
                positions.drop_last(),
            ),
        };
        entering_keeps_agreement(before, positions.drop_last(), between);
        operations_keep_agreement(between, CommitEvent::Entered(positions.last()), after);
        history::tracking_appends(between.history, action, positions.last());
        assert(before.history.entered() + positions =~= (before.history.entered()
            + positions.drop_last()).push(positions.last()));
    }
}

/// A run of operations goes on by whatever happens next.
pub proof fn operations_go_on<C, Policy, P>(
    policy: Policy::State,
    events: Seq<CommitEvent<P>>,
    before: Progress<C, Policy, P>,
    event: CommitEvent<P>,
    after: Progress<C, Policy, P>,
) where C: Checkpoint<P>, Policy: CommitPolicy<P>
    requires
        may_lead_to(policy, events, before),
        may_happen(before, event, after),
    ensures
        may_lead_to(policy, events.push(event), after),
{
    let longer = events.push(event);
    assert(longer.drop_last() =~= events);
    assert(may_happen(before, longer.last(), after));
}

/// After any run of operations the history holds exactly the positions that entered delivery, in
/// order. There is no deadline where a position has entered since the last acknowledgement, or no
/// epoch is open; else the deadline is the policy's own.
pub proof fn deadlines_hold_after_any_run<C, Policy, P>(
    policy: Policy::State,
    events: Seq<CommitEvent<P>>,
    progress: Progress<C, Policy, P>,
) where C: Checkpoint<P>, Policy: CommitPolicy<P>
    requires
        may_lead_to(policy, events, progress),
    ensures
        progress.is_consistent(),
        progress.history.entered() == positions_entered(events),
        entered_since_acknowledgement(events) <==> progress.history.acknowledged
            < positions_entered(events).len(),
        progress.deadline() == (if entered_since_acknowledgement(events)
            || progress.epochs.current is None {
            None
        } else {
            Policy::next_deadline(progress.policy)
        }),
    decreases events.len(),
{
    if events.len() == 0 {
        assert(Seq::<Seq<P>>::empty().flatten() =~= Seq::empty());
    } else {
        let before = choose|before: Progress<C, Policy, P>|
            {
                &&& may_lead_to(policy, events.drop_last(), before)
                &&& #[trigger] may_happen(before, events.last(), progress)
            };
        deadlines_hold_after_any_run(policy, events.drop_last(), before);
        operations_keep_agreement(before, events.last(), progress);
    }
}

/// Under the default policy every acknowledged unit makes everything delivered so far eligible.
pub proof fn every_acknowledgement_is_committed<C, P>(
    progress: Progress<C, CommitEach, P>,
    records: usize,
    acknowledged_at: Moment,
    checked_at: Moment,
) where C: Checkpoint<P>
    requires
        progress.is_consistent(),
    ensures
        progress.acknowledge(records, acknowledged_at, checked_at).history.persistable()
            == progress.history.entered(),
        progress.acknowledge(records, acknowledged_at, checked_at).epochs.current is None,
{
    history::acknowledging_keeps_positions(progress.history);
    history::closing_keeps_positions(progress.history.acknowledge());
}

/// A deadline that passed while a unit was being delivered commits that unit along with everything
/// before it.
pub proof fn passed_deadline_includes_the_unit<C, P>(
    progress: Progress<C, AfterRecordsOrTimeout, P>,
    records: usize,
    acknowledged_at: Moment,
    checked_at: Moment,
) where C: Checkpoint<P>
    requires
        progress.is_consistent(),
        progress.policy.deadline matches Some(deadline) && deadline.nanos <= checked_at.nanos,
    ensures
        progress.acknowledge(records, acknowledged_at, checked_at).history.persistable()
            == progress.history.entered(),
        progress.acknowledge(records, acknowledged_at, checked_at).epochs.current is None,
{
    history::acknowledging_keeps_positions(progress.history);
    history::closing_keeps_positions(progress.history.acknowledge());
}

/// Runner-owned checkpoint state spanning delivery units between commits.
///
/// Each transition moves the completed epoch into `staged_epochs` until the delivery unit succeeds,
/// then into `eligible_epochs` until it is committed in source order.
pub struct CommitState<C, Policy, Position> {
    policy: Policy,
    current_epoch: Option<C>,
    staged_epochs: VecDeque<C>,
    eligible_epochs: VecDeque<C>,
    current_epoch_acknowledged: bool,
    account: Ghost<History<Position>>,
}

impl<C, Policy: CommitPolicy<Position>, Position> CommitState<C, Policy, Position> {
    /// The policy, the epochs, and the positions that the epochs stand for.
    pub closed spec fn progress(self) -> Progress<C, Policy, Position> {
        Progress {
            policy: self.policy.state(),
            epochs: Epochs {
                current: self.current_epoch,
                staged: self.staged_epochs@,
                eligible: self.eligible_epochs@,
                acknowledged: self.current_epoch_acknowledged,
            },
            history: self.account@,
        }
    }
}

impl<C, Policy, Position> CommitState<C, Policy, Position> where
    C: Checkpoint<Position>,
    Policy: CommitPolicy<Position>,
 {
    /// No progress yet.
    pub fn new(policy: Policy) -> (state: Self)
        ensures
            state.progress() == Progress::<C, Policy, Position>::start(policy.state()),
            state.progress().is_consistent(),
            state.progress().history.is_safe(),
            state.progress().history.is_settled(),
    {
        let state = CommitState {
            policy,
            current_epoch: None,
            staged_epochs: VecDeque::new(),
            eligible_epochs: VecDeque::new(),
            current_epoch_acknowledged: false,
            account: Ghost(History::empty()),
        };
        proof {
            assert(state.progress().history.closed.take(0) =~= Seq::empty());
        }
        state
    }

    /// Observe and fold a position immediately before it enters sink delivery.
    ///
    /// Closed epochs remain staged because the surrounding record, batch, collection, or fanout
    /// operation can still fail.
    pub fn track(&mut self, position: &Position)
        requires
            old(self).progress().is_consistent(),
        ensures
            final(self).progress().is_consistent(),
            final(self).progress().policy == Policy::position_seen(old(self).progress().policy, *position).0,
            position_enters(
                old(self).progress().epochs,
                Policy::position_seen(old(self).progress().policy, *position).1,
                *position,
                final(self).progress().epochs,
            ),
            may_happen(
                old(self).progress(),
                CommitEvent::Entered(*position),
                final(self).progress(),
            ),
            final(self).progress().history == old(self).progress().history.track(
                Policy::position_seen(old(self).progress().policy, *position).1,
                *position,
            ),
            old(self).progress().history.is_safe() ==> final(self).progress().history.is_safe(),
            final(self).progress().history.entered() == old(self).progress().history.entered().push(*position),
    {
        let action = self.policy.on_position(position);
        match action {
            PositionAction::Continue => match self.current_epoch.take() {
                Some(epoch) => {
                    let mut epoch = epoch;
                    epoch.include_position(position);
                    self.current_epoch = Some(epoch);
                },
                None => {
                    self.current_epoch = Some(C::start_epoch(position));
                },
            },
            PositionAction::StartNewEpoch => match self.current_epoch.take() {
                Some(epoch) => {
                    let transition = epoch.start_next_epoch(position);
                    assert(checkpoint::may_advance(epoch, *position, transition));
                    self.staged_epochs.push_back(transition.completed_epoch);
                    self.current_epoch = Some(transition.next_epoch);
                },
                None => {
                    self.current_epoch = Some(C::start_epoch(position));
                },
            },
        }
        self.current_epoch_acknowledged = false;
        proof {
            let history = self.account@;
            self.account@ = history.track(action, *position);
            history::tracking_appends(history, action, *position);
            assert(history.open.push(*position).drop_last() =~= history.open);
        }
    }

    /// Observe and fold every position of a delivery unit, in order, immediately before the unit
    /// enters sink delivery.
    pub fn track_unit<U: DeliveryUnit<Position>>(&mut self, unit: &U)
        requires
            old(self).progress().is_consistent(),
        ensures
            final(self).progress().is_consistent(),
            old(self).progress().may_enter(unit.positions(), final(self).progress()),
            old(self).progress().history.is_safe() ==> final(self).progress().history.is_safe(),
            final(self).progress().history.entered() == old(self).progress().history.entered() + unit.positions(),
            final(self).progress().history.committed == old(self).progress().history.committed,
            final(self).progress().history.handed == old(self).progress().history.handed,
            final(self).progress().history.eligible == old(self).progress().history.eligible,
            final(self).progress().history.acknowledged == old(self).progress().history.acknowledged,
    {
        let count = unit.count();
        let mut index: usize = 0;
        assert(unit.positions().take(0) =~= Seq::empty());
        while index < count
            invariant
                index <= count,
                count == unit.positions().len(),
                self.progress().is_consistent(),
                old(self).progress().may_enter(
                    unit.positions().take(index as int),
                    self.progress(),
                ),
                old(self).progress().history.is_safe() ==> self.progress().history.is_safe(),
                self.progress().history.entered() == old(self).progress().history.entered() + unit.positions().take(
                    index as int,
                ),
                self.progress().history.committed == old(self).progress().history.committed,
                self.progress().history.handed == old(self).progress().history.handed,
                self.progress().history.eligible == old(self).progress().history.eligible,
                self.progress().history.acknowledged == old(self).progress().history.acknowledged,
            decreases count - index,
        {
            proof {
                let longer = unit.positions().take(index + 1);
                assert(longer.drop_last() =~= unit.positions().take(index as int));
                assert(longer.last() == unit.positions()[index as int]);
            }
            let ghost between = self.progress().epochs;
            self.track(unit.position_at(index));
            proof {
                lemma_last_position_enters::<Position, C, Policy>(
                    old(self).progress().epochs,
                    old(self).progress().policy,
                    unit.positions().take(index + 1),
                    between,
                    self.progress().epochs,
                );
            }
            index = index + 1;
        }
        assert(unit.positions().take(count as int) =~= unit.positions());
    }

    /// Mark one complete delivery unit as successful and apply the policy at that safe boundary.
    ///
    /// All epochs closed within the unit become eligible together. A count action, or a deadline
    /// that has passed, may also close the latest epoch.
    pub fn acknowledge_delivery(&mut self, records: usize, clock: &Clock)
        requires
            old(self).progress().is_consistent(),
        ensures
            final(self).progress().is_consistent(),
            final(self).progress().history.is_safe(),
            final(self).progress().history.is_settled(),
            final(self).progress().history.entered() == old(self).progress().history.entered(),
            exists|acknowledged_at: Moment, checked_at: Moment|
                {
                    &&& clock.may_give(acknowledged_at) && acknowledged_at.is_reading()
                    &&& clock.may_give(checked_at) && checked_at.is_reading()
                    &&& final(self).progress() == #[trigger] old(self).progress().acknowledge(
                        records,
                        acknowledged_at,
                        checked_at,
                    )
                },
    {
        let acknowledged_at = clock.now();
        let checked_at = clock.now();
        self.acknowledge_delivery_at(records, acknowledged_at, checked_at);
    }

    /// Mark one complete delivery unit as successful: the policy hears of it at `acknowledged_at`,
    /// and its deadline is held against `checked_at`.
    pub fn acknowledge_delivery_at(
        &mut self,
        records: usize,
        acknowledged_at: Moment,
        checked_at: Moment,
    )
        requires
            old(self).progress().is_consistent(),
            acknowledged_at.is_reading(),
        ensures
            final(self).progress().is_consistent(),
            final(self).progress().history.is_safe(),
            final(self).progress().history.is_settled(),
            final(self).progress().history.entered() == old(self).progress().history.entered(),
            final(self).progress() == old(self).progress().acknowledge(
                records,
                acknowledged_at,
                checked_at,
            ),
            may_happen(
                old(self).progress(),
                CommitEvent::Acknowledged { records, acknowledged_at, checked_at },
                final(self).progress(),
            ),
    {
        self.eligible_epochs.append(&mut self.staged_epochs);
        self.current_epoch_acknowledged = self.current_epoch.is_some();
        proof {
            let history = self.account@;
            self.account@ = history.acknowledge();
            history::acknowledging_keeps_positions(history);
        }
        let action = self.policy.on_acknowledged(records, acknowledged_at);
        let commit_latest = match action {
            CommitAction::CommitLatest => true,
            CommitAction::Continue => {
                let passed = match self.policy.deadline() {
                    Some(deadline) => deadline.has_passed(checked_at),
                    None => false,
                };
                passed && self.policy.on_timeout() == CommitAction::CommitLatest
            },
        };
        if commit_latest {
            self.queue_latest();
        }
    }

    /// Return a deadline only when the open epoch is safe to commit.
    ///
    /// Runners call this while waiting between delivery units. During a delivery, the open
    /// checkpoint may include unacknowledged records and must not be exposed to a timeout commit.
    pub fn deadline(&self) -> (deadline: Option<Moment>)
        ensures
            deadline == self.progress().deadline(),
            self.progress().is_consistent() ==> deadline == (if self.progress().awaits_commit() {
                Policy::next_deadline(self.progress().policy)
            } else {
                None
            }),
    {
        if self.current_epoch_acknowledged {
            self.policy.deadline()
        } else {
            None
        }
    }

    /// Apply a reached policy deadline while the runner is at a safe boundary, where no epoch is
    /// staged.
    pub fn handle_timeout(&mut self)
        requires
            old(self).progress().is_consistent(),
            old(self).progress().epochs.staged.len() == 0,
        ensures
            final(self).progress().is_consistent(),
            final(self).progress() == old(self).progress().time_out(),
            may_happen(old(self).progress(), CommitEvent::TimedOut, final(self).progress()),
            final(self).progress().history.entered() == old(self).progress().history.entered(),
            old(self).progress().history.is_settled() ==> final(self).progress().history.is_settled(),
            old(self).progress().history.is_settled() && old(self).progress().history.is_safe()
                ==> final(self).progress().history.is_safe(),
    {
        if self.policy.on_timeout() == CommitAction::CommitLatest {
            self.queue_latest();
        }
    }

    /// Make all remaining progress eligible after clean EOF or graceful shutdown.
    ///
    /// Error paths deliberately do not call this method, preserving the rule that operational
    /// failures never cause an opportunistic final commit.
    pub fn finish(&mut self)
        requires
            old(self).progress().is_consistent(),
        ensures
            final(self).progress().is_consistent(),
            final(self).progress() == old(self).progress().finish(),
            may_happen(old(self).progress(), CommitEvent::Finished, final(self).progress()),
            final(self).progress().history.entered() == old(self).progress().history.entered(),
            final(self).progress().history.persistable() == old(self).progress().history.entered(),
            old(self).progress().history.is_settled() ==> final(self).progress().history.is_settled() && final(self).progress().history.is_safe(),
    {
        self.eligible_epochs.append(&mut self.staged_epochs);
        proof {
            let history = self.account@;
            self.account@ = History { eligible: history.closed.len(), ..history };
            assert(self.account@.close() =~= history.close());
            history::closing_keeps_positions(history);
        }
        self.queue_latest();
    }

    /// Close the open epoch and append it after any earlier completed epochs.
    fn queue_latest(&mut self)
        requires
            old(self).progress().is_consistent(),
            old(self).progress().epochs.staged.len() == 0,
        ensures
            final(self).progress().is_consistent(),
            final(self).progress() == old(self).progress().queue_latest(),
            final(self).progress().history.entered() == old(self).progress().history.entered(),
            final(self).progress().history.persistable() == old(self).progress().history.entered(),
            old(self).progress().history.acknowledged == old(self).progress().history.entered().len() ==> final(self).progress().history.is_settled() && final(self).progress().history.is_safe(),
    {
        proof {
            let history = self.account@;
            self.account@ = history.close();
            history::closing_keeps_positions(history);
        }
        match self.current_epoch.take() {
            Some(checkpoint) => {
                self.eligible_epochs.push_back(checkpoint);
            },
            None => {},
        }
        self.current_epoch_acknowledged = false;
    }

    /// Hand out the first eligible epoch, to be committed.
    pub fn pop_eligible(&mut self) -> (epoch: Option<C>)
        requires
            old(self).progress().is_consistent(),
        ensures
            final(self).progress().is_consistent(),
            epoch == (if old(self).progress().epochs.eligible.len() > 0 {
                Some(old(self).progress().epochs.eligible[0])
            } else {
                None
            }),
            final(self).progress() == old(self).progress().hand_out(),
            may_happen(old(self).progress(), CommitEvent::HandedOut, final(self).progress()),
    {
        let ghost history = self.account@;
        let epoch = self.eligible_epochs.pop_front();
        proof {
            self.account@ = history.hand_out();
            history::committing_keeps_positions(history);
        }
        epoch
    }

    /// Whatever was handed out has been persisted.
    pub fn committed(&mut self)
        requires
            old(self).progress().is_consistent(),
        ensures
            final(self).progress().is_consistent(),
            final(self).progress() == old(self).progress().commit(),
            may_happen(old(self).progress(), CommitEvent::Committed, final(self).progress()),
    {
        self.policy.on_committed();
        proof {
            let history = self.account@;
            self.account@ = history.commit();
            history::committing_keeps_positions(history);
        }
    }
}

/// Whether a deadline has been reached at a moment.
pub open spec fn is_reached(deadline: Option<Moment>, now: Moment) -> bool {
    deadline matches Some(deadline) && deadline.nanos <= now.nanos
}

/// An acknowledgement commits as the policy asks. Where it asks for a commit of its own accord, or
/// at a deadline that has passed meanwhile, everything that entered delivery may be persisted and no
/// epoch stays open, whether or not the policy has a deadline. Else the open epoch stays as it is.
/// The deadline is not brought up where the policy has asked already, nor before it has passed.
pub proof fn acknowledgements_commit_as_asked<C, Policy, P>(
    progress: Progress<C, Policy, P>,
    records: usize,
    acknowledged_at: Moment,
    checked_at: Moment,
) where C: Checkpoint<P>, Policy: CommitPolicy<P>
    requires
        progress.is_consistent(),
    ensures
        ({
            let after = progress.acknowledge(records, acknowledged_at, checked_at);
            let (told, action) = Policy::delivery_seen(progress.policy, records, acknowledged_at);
            let late = action == CommitAction::Continue && is_reached(
                Policy::next_deadline(told),
                checked_at,
            );
            let asked = action == CommitAction::CommitLatest || (late && Policy::timeout_seen(
                told,
            ).1 == CommitAction::CommitLatest);
            &&& after.policy == (if late {
                Policy::timeout_seen(told).0
            } else {
                told
            })
            &&& asked ==> {
                &&& after.history.persistable() == progress.history.entered()
                &&& after.epochs.current is None
                &&& after.deadline() is None
            }
            &&& !asked ==> {
                &&& after.epochs.current == progress.epochs.current
                &&& after.epochs.eligible == progress.epochs.eligible + progress.epochs.staged
                &&& after.history.open == progress.history.open
                &&& after.history.closed == progress.history.closed
            }
            &&& after.epochs.staged.len() == 0
            &&& after.history.acknowledged == progress.history.entered().len()
            &&& after.history.entered() == progress.history.entered()
            &&& after.history.committed == progress.history.committed
            &&& after.history.handed == progress.history.handed
        }),
{
    history::acknowledging_keeps_positions(progress.history);
    history::closing_keeps_positions(progress.history.acknowledge());
}

/// A count policy commits as soon as the records acknowledged since the last commit reach its
/// threshold, and not before.
pub proof fn reached_counts_are_committed<C, P>(
    progress: Progress<C, AfterRecords, P>,
    records: usize,
    acknowledged_at: Moment,
    checked_at: Moment,
) where C: Checkpoint<P>
    requires
        progress.is_consistent(),
    ensures
        ({
            let after = progress.acknowledge(records, acknowledged_at, checked_at);
            if progress.policy.acknowledged + records >= progress.policy.records.count() {
                after.history.persistable() == progress.history.entered()
                    && after.epochs.current is None
            } else {
                after.epochs.current == progress.epochs.current && after.history.open
                    == progress.history.open
            }
        }),
{
    acknowledgements_commit_as_asked(progress, records, acknowledged_at, checked_at);
}

/// A count-or-time policy commits as soon as the records acknowledged since the last commit reach
/// its threshold or its deadline has passed, whichever comes first, and not before.
pub proof fn reached_counts_or_deadlines_are_committed<C, P>(
    progress: Progress<C, AfterRecordsOrTimeout, P>,
    records: usize,
    acknowledged_at: Moment,
    checked_at: Moment,
) where C: Checkpoint<P>
    requires
        progress.is_consistent(),
        acknowledged_at.is_reading(),
        progress.policy.timeout.nanos() <= MAX_READING,
    ensures
        ({
            let after = progress.acknowledge(records, acknowledged_at, checked_at);
            let deadline = match progress.policy.deadline {
                Some(deadline) => deadline.nanos as int,
                None => acknowledged_at.nanos + progress.policy.timeout.nanos(),
            };
            if progress.policy.acknowledged + records >= progress.policy.records.count()
                || deadline <= checked_at.nanos {
                after.history.persistable() == progress.history.entered()
                    && after.epochs.current is None
            } else {
                after.epochs.current == progress.epochs.current && after.history.open
                    == progress.history.open
            }
        }),
{
    acknowledgements_commit_as_asked(progress, records, acknowledged_at, checked_at);
}

/// A deadline that is reached while waiting commits as the policy asks: everything, or nothing. The
/// policy hears of the deadline once.
pub proof fn deadlines_commit_as_asked<C, Policy, P>(progress: Progress<C, Policy, P>) where
    C: Checkpoint<P>,
    Policy: CommitPolicy<P>,

    requires
        progress.is_consistent(),
    ensures
        ({
            let after = progress.time_out();
            &&& after.policy == Policy::timeout_seen(progress.policy).0
            &&& if Policy::timeout_seen(progress.policy).1 == CommitAction::CommitLatest {
                &&& after.history.persistable() == progress.history.entered()
                &&& after.epochs.current is None
            } else {
                after.epochs == progress.epochs && after.history == progress.history
            }
            &&& after.history.acknowledged == progress.history.acknowledged
            &&& after.history.committed == progress.history.committed
        }),
{
    history::closing_keeps_positions(progress.history);
}

/// The end of the source leaves no epoch open and none staged, makes everything that entered
/// delivery persistable, and tells the policy nothing.
pub proof fn ends_leave_nothing_open<C, Policy, P>(progress: Progress<C, Policy, P>) where
    C: Checkpoint<P>,
    Policy: CommitPolicy<P>,

    requires
        progress.is_consistent(),
    ensures
        progress.finish().policy == progress.policy,
        progress.finish().epochs.current is None,
        progress.finish().epochs.staged.len() == 0,
        progress.finish().history.persistable() == progress.history.entered(),
        progress.finish().history.acknowledged == progress.history.acknowledged,
        progress.finish().history.committed == progress.history.committed,
{
    history::closing_keeps_positions(progress.history);
}

/// Handing out takes the first eligible epoch and tells the policy nothing; a commit tells the policy
/// once, and persists exactly what has been handed out.
pub proof fn commits_persist_what_was_handed_out<C, Policy, P>(
    progress: Progress<C, Policy, P>,
) where C: Checkpoint<P>, Policy: CommitPolicy<P>
    requires
        progress.is_consistent(),
        progress.epochs.eligible.len() > 0,
    ensures
        ({
            let handed = progress.hand_out();
            let committed = handed.commit();
            &&& handed.policy == progress.policy
            &&& handed.history.persisted() == progress.history.persisted()
            &&& handed.epochs.eligible == progress.epochs.eligible.drop_first()
            &&& committed.policy == Policy::commit_seen(progress.policy)
            &&& committed.epochs == handed.epochs
            &&& committed.history.persisted() == progress.history.closed.take(
                progress.history.handed as int,
            ).flatten() + progress.history.closed[progress.history.handed as int]
        }),
{
    let history = progress.history;
    let before = history.closed.take(history.handed as int);
    let next = history.closed[history.handed as int];
    assert(history.closed.take((history.handed + 1) as int) =~= before.push(next));
    before.lemma_flatten_push(next);
}

/// A position at which the policy starts a new epoch belongs to that epoch, and the epoch before it is
/// closed by the checkpoint's own transition; any other position joins the open epoch. Without an open
/// epoch a position starts one. Nothing that was closed before is touched, and nothing becomes
/// eligible. Where epochs are independent, the closed epoch holds what it held, and the next one holds
/// the position alone.
pub proof fn boundaries_lie_before_their_position<P, C: Checkpoint<P>>(
    before: Epochs<C>,
    action: PositionAction,
    position: P,
    after: Epochs<C>,
    history: History<P>,
)
    requires
        position_enters(before, action, position, after),
        before.current is Some <==> history.open.len() > 0,
    ensures
        after.current is Some,
        after.eligible == before.eligible,
        !after.acknowledged,
        ({
            let cuts = action == PositionAction::StartNewEpoch && before.current is Some;
            let next = history.track(action, position);
            &&& cuts ==> {
                &&& after.staged.drop_last() == before.staged
                &&& checkpoint::may_advance(
                    before.current->0,
                    position,
                    CheckpointEpochTransition {
                        completed_epoch: after.staged.last(),
                        next_epoch: after.current->0,
                    },
                )
                &&& checkpoint::epochs_are_independent::<P, C>() ==> {
                    &&& after.staged.last().content() == before.current->0.content()
                    &&& after.current->0.content() == C::starting(position)
                }
                &&& next.closed == history.closed.push(history.open)
                &&& next.open == seq![position]
            }
            &&& !cuts ==> {
                &&& after.staged == before.staged
                &&& next.closed == history.closed
                &&& next.open == history.open.push(position)
                &&& after.current->0.content() == (match before.current {
                    Some(epoch) => C::including(epoch.content(), position),
                    None => C::starting(position),
                })
            }
            &&& next.acknowledged == history.acknowledged
            &&& next.eligible == history.eligible
        }),
{
    if action == PositionAction::StartNewEpoch && before.current is Some {
        let epoch = before.current->0;
        let transition = choose|transition: CheckpointEpochTransition<C>|
            {
                &&& #[trigger] checkpoint::may_advance(epoch, position, transition)
                &&& after.staged == before.staged.push(transition.completed_epoch)
                &&& after.current == Some(transition.next_epoch)
            };
        assert(after.staged.drop_last() =~= before.staged);
        assert(transition == (CheckpointEpochTransition {
            completed_epoch: after.staged.last(),
            next_epoch: after.current->0,
        }));
    }
}

/// A policy hears of every position of a run, in order, before it enters delivery.
pub proof fn policies_hear_of_every_position<C, Policy, P>(
    progress: Progress<C, Policy, P>,
    positions: Seq<P>,
    after: Progress<C, Policy, P>,
) where C: Checkpoint<P>, Policy: CommitPolicy<P>
    requires
        progress.may_enter(positions, after),
    ensures
        after.policy == policy::told::<P, Policy>(
            progress.policy,
            positions.map_values(|position: P| PolicyEvent::Position(position)),
        ),
    decreases positions.len(),
{
    lemma_policy_after_is_told::<P, Policy>(progress.policy, positions);
}

/// Seeing positions is being told of them.
proof fn lemma_policy_after_is_told<P, Policy: CommitPolicy<P>>(
    state: Policy::State,
    positions: Seq<P>,
)
    ensures
        policy_after::<P, Policy>(state, positions) == policy::told::<P, Policy>(
            state,
            positions.map_values(|position: P| PolicyEvent::Position(position)),
        ),
    decreases positions.len(),
{
    let as_event = |position: P| PolicyEvent::Position(position);
    if positions.len() > 0 {
        lemma_policy_after_is_told::<P, Policy>(state, positions.drop_last());
        assert(positions.map_values(as_event).drop_last() =~= positions.drop_last().map_values(
            as_event,
        ));
    }
}

/// Under a policy that never starts a new epoch and learns nothing from positions, a run of positions
/// joins the open epoch and leaves the policy as it is.
pub proof fn positions_join_the_open_epoch<C, Policy, P>(
    progress: Progress<C, Policy, P>,
    positions: Seq<P>,
    after: Progress<C, Policy, P>,
) where C: Checkpoint<P>, Policy: CommitPolicy<P>
    requires
        forall|state: Policy::State, position: P| #[trigger]
            Policy::position_seen(state, position) == (state, PositionAction::Continue),
        progress.may_enter(positions, after),
    ensures
        after.policy == progress.policy,
        after.history.closed == progress.history.closed,
        after.history.open == progress.history.open + positions,
        after.history.acknowledged == progress.history.acknowledged,
        after.history.committed == progress.history.committed,
        after.history.handed == progress.history.handed,
        after.history.eligible == progress.history.eligible,
{
    lemma_positions_join::<P, Policy>(progress.history, progress.policy, positions);
}

/// Positions that start no epoch join the open one.
proof fn lemma_positions_join<P, Policy: CommitPolicy<P>>(
    history: History<P>,
    state: Policy::State,
    positions: Seq<P>,
)
    requires
        forall|state: Policy::State, position: P| #[trigger]
            Policy::position_seen(state, position) == (state, PositionAction::Continue),
    ensures
        policy_after::<P, Policy>(state, positions) == state,
        history_after::<P, Policy>(history, state, positions) == (History {
            open: history.open + positions,
            ..history
        }),
    decreases positions.len(),
{
    if positions.len() == 0 {
        assert(history.open + positions =~= history.open);
    } else {
        lemma_positions_join::<P, Policy>(history, state, positions.drop_last());
        assert(history.open + positions =~= (history.open + positions.drop_last()).push(
            positions.last(),
        ));
    }
}

/// A policy hears of a single position that enters delivery.
pub proof fn lemma_policy_hears_of_one<C, Policy, P>(
    progress: Progress<C, Policy, P>,
    position: P,
    after: Progress<C, Policy, P>,
) where C: Checkpoint<P>, Policy: CommitPolicy<P>
    requires
        progress.may_enter(seq![position], after),
    ensures
        after.policy == Policy::position_seen(progress.policy, position).0,
{
    reveal_with_fuel(policy_after, 2);
    assert(seq![position].drop_last() =~= Seq::empty());
}

} // verus!
