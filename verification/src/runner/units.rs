//! Delivery of complete units: single records, or materialized batches.
use crate::checkpoint;
use crate::checkpoint::Checkpoint;
use crate::commit;
use crate::commit::{CommitEvent, CommitState, Progress};
use crate::error::PipelineError;
use crate::history;
use crate::policy;
use crate::policy::{CommitAction, CommitPolicy, PolicyEvent};
use crate::record::Record;
use crate::sink;
use crate::sink::{Batch, DeliveryUnit};
use crate::time::{Clock, Moment};
use vstd::prelude::*;

verus! {

/// What is to be done next.
pub enum Step<U, C, F> {
    /// Wait for the next unit, and until the deadline if there is one.
    Wait(Option<Moment>),
    /// Deliver a unit to every sink.
    Deliver(U),
    /// Have the source commit a checkpoint epoch.
    Commit(C),
    /// Nothing more: the run has succeeded.
    Complete,
    /// Nothing more: the run has failed.
    Fail(F),
}

/// What a runner is waiting for.
#[derive(Debug, Clone, Copy, PartialEq, Eq, Structural)]
pub enum Phase {
    /// The next unit, the end of the source, or the deadline.
    Waiting,
    /// The outcome of a delivery of so many records.
    Delivering { records: usize },
    /// The outcome of a commit; `last` once the source has ended.
    Committing { last: bool },
    /// Nothing more.
    Finished,
}

impl<C: Checkpoint<P>, Policy: CommitPolicy<P>, P> Progress<C, Policy, P> {
    /// Every epoch that may be persisted has been persisted, and no others.
    pub open spec fn is_caught_up(self) -> bool {
        &&& self.is_consistent()
        &&& self.history.is_safe()
        &&& self.history.committed == self.history.eligible
    }

    /// No delivery is under way, and every epoch that may be persisted has been persisted.
    pub open spec fn is_at_rest(self) -> bool {
        self.is_caught_up() && self.history.is_settled()
    }

    /// No delivery is under way, and exactly one epoch has been handed out and not yet persisted.
    pub open spec fn is_committing(self) -> bool {
        &&& self.is_consistent()
        &&& self.history.is_safe()
        &&& self.history.is_settled()
        &&& self.history.handed == self.history.committed + 1
    }
}

/// Whether `after` and `phase` are what a runner holds that goes on where no delivery or commit is
/// under way: the eligible epochs are committed, one by one, before anything else.
pub open spec fn goes_on<C: Checkpoint<P>, Policy: CommitPolicy<P>, P>(
    progress: Progress<C, Policy, P>,
    last: bool,
    after: Progress<C, Policy, P>,
    phase: Phase,
) -> bool {
    if progress.epochs.eligible.len() > 0 {
        &&& after == progress.hand_out()
        &&& phase == (Phase::Committing { last })
    } else if last {
        &&& after == progress
        &&& phase == Phase::Finished
    } else {
        &&& after == progress
        &&& phase == Phase::Waiting
    }
}

/// Whether `step` is what is to be done next where no delivery or commit is under way, and `after`
/// and `phase` are what the runner then holds.
pub open spec fn next_step<U, C: Checkpoint<P>, Policy: CommitPolicy<P>, P, F>(
    progress: Progress<C, Policy, P>,
    last: bool,
    after: Progress<C, Policy, P>,
    phase: Phase,
    step: Step<U, C, F>,
) -> bool {
    &&& goes_on(progress, last, after, phase)
    &&& step == (if progress.epochs.eligible.len() > 0 {
        Step::<U, C, F>::Commit(progress.epochs.eligible[0])
    } else if last {
        Step::<U, C, F>::Complete
    } else {
        Step::<U, C, F>::Wait(progress.deadline())
    })
}

/// Whether progress fits a phase.
pub open spec fn fits<C: Checkpoint<P>, Policy: CommitPolicy<P>, P>(
    progress: Progress<C, Policy, P>,
    phase: Phase,
) -> bool {
    match phase {
        Phase::Waiting => progress.is_at_rest(),
        Phase::Delivering { records } => {
            &&& progress.is_caught_up()
            &&& records == progress.history.entered().len() - progress.history.acknowledged
        },
        Phase::Committing { last } => {
            &&& progress.is_committing()
            &&& last ==> progress.history.open.len() == 0
        },
        Phase::Finished => {
            &&& progress.is_consistent()
            &&& progress.history.is_safe()
        },
    }
}

/// Runs a pipeline that delivers complete units, one at a time.
pub struct UnitRunner<C, Policy, P> {
    commits: CommitState<C, Policy, P>,
    phase: Phase,
}

impl<C, Policy: CommitPolicy<P>, P> UnitRunner<C, Policy, P> {
    /// Delivered and committed progress.
    pub closed spec fn progress(self) -> Progress<C, Policy, P> {
        self.commits.progress()
    }

    /// What the runner is waiting for.
    pub closed spec fn phase(self) -> Phase {
        self.phase
    }
}

impl<C, Policy, P> UnitRunner<C, Policy, P> where C: Checkpoint<P>, Policy: CommitPolicy<P> {
    /// The progress fits the phase.
    pub open spec fn is_valid(self) -> bool {
        fits(self.progress(), self.phase())
    }

    /// The progress and the phase.
    pub open spec fn holds(self) -> (Progress<C, Policy, P>, Phase) {
        (self.progress(), self.phase())
    }

    /// A runner that has not seen anything yet, and waits without a deadline.
    pub fn start<U: DeliveryUnit<P>, F>(policy: Policy) -> (started: (Self, Step<U, C, F>))
        ensures
            may_run(policy.state(), Seq::<UnitEvent<U>>::empty(), started.0.holds()),
            started.0.is_valid(),
            started.0.phase() == Phase::Waiting,
            started.0.progress() == Progress::<C, Policy, P>::start(policy.state()),
            started.1 == Step::<U, C, F>::Wait(None),
    {
        let commits = CommitState::new(policy);
        (UnitRunner { commits, phase: Phase::Waiting }, Step::Wait(None))
    }

    /// What the runner is waiting for.
    pub fn current_phase(&self) -> (phase: Phase)
        ensures
            phase == self.phase(),
    {
        self.phase
    }

    /// Commit the next eligible epoch, or go on.
    fn proceed<U, F>(&mut self, last: bool) -> (step: Step<U, C, F>)
        requires
            old(self).progress().is_consistent(),
            old(self).progress().history.is_safe(),
            old(self).progress().history.is_settled(),
            old(self).progress().history.committed == old(self).progress().history.handed,
            last ==> old(self).progress().history.open.len() == 0,
        ensures
            final(self).is_valid(),
            next_step(
                old(self).progress(),
                last,
                final(self).progress(),
                final(self).phase(),
                step,
            ),
            step is Complete ==> final(self).progress().history.persisted() == final(self).progress().history.entered(),
            final(self).progress().history.entered() == old(self).progress().history.entered(),
            final(self).progress().history.acknowledged == old(self).progress().history.acknowledged,
    {
        match self.commits.pop_eligible() {
            Some(epoch) => {
                self.phase = Phase::Committing { last };
                Step::Commit(epoch)
            },
            None => {
                proof {
                    let history = self.commits.progress().history;
                    assert(history.closed.take(history.committed as int) =~= history.closed);
                    if last {
                        assert(history.persisted() =~= history.entered());
                    }
                }
                if last {
                    self.phase = Phase::Finished;
                    Step::Complete
                } else {
                    self.phase = Phase::Waiting;
                    Step::Wait(self.commits.deadline())
                }
            },
        }
    }

    /// The source has produced the next unit, an empty chunk, or a failure.
    ///
    /// An empty chunk changes nothing, and a failure ends the run without a commit.
    pub fn on_unit<U: DeliveryUnit<P>, F>(&mut self, unit: Result<Option<U>, F>) -> (step: Step<
        U,
        C,
        F,
    >)
        requires
            old(self).is_valid(),
            old(self).phase() == Phase::Waiting,
        ensures
            final(self).is_valid(),
            moves(
                old(self).holds(),
                match unit {
                    Ok(Some(unit)) => UnitEvent::Unit(unit),
                    Ok(None) => UnitEvent::Empty,
                    Err(_) => UnitEvent::Failed,
                },
                final(self).holds(),
            ),
            match unit {
                Ok(Some(unit)) => {
                    &&& step == Step::<U, C, F>::Deliver(unit)
                    &&& final(self).phase() == (Phase::Delivering {
                        records: unit.positions().len() as usize,
                    })
                    &&& old(self).progress().may_enter(
                        unit.positions(),
                        final(self).progress(),
                    )
                    &&& final(self).progress().history.entered() == old(self).progress().history.entered() + unit.positions()
                },
                Ok(None) => {
                    &&& step == Step::<U, C, F>::Wait(old(self).progress().deadline())
                    &&& final(self).phase() == Phase::Waiting
                    &&& final(self).progress() == old(self).progress()
                },
                Err(failure) => {
                    &&& step == Step::<U, C, F>::Fail(failure)
                    &&& final(self).phase() == Phase::Finished
                    &&& final(self).progress() == old(self).progress()
                },
            },
    {
        match unit {
            Ok(Some(unit)) => {
                let records = unit.count();
                self.commits.track_unit(&unit);
                self.phase = Phase::Delivering { records };
                Step::Deliver(unit)
            },
            Ok(None) => Step::Wait(self.commits.deadline()),
            Err(failure) => {
                self.phase = Phase::Finished;
                Step::Fail(failure)
            },
        }
    }

    /// The deadline has been reached while waiting.
    pub fn on_deadline<U: DeliveryUnit<P>, F>(&mut self) -> (step: Step<U, C, F>)
        requires
            old(self).is_valid(),
            old(self).phase() == Phase::Waiting,
        ensures
            final(self).is_valid(),
            moves(old(self).holds(), UnitEvent::<U>::Deadline, final(self).holds()),
            next_step(
                old(self).progress().time_out(),
                false,
                final(self).progress(),
                final(self).phase(),
                step,
            ),
            final(self).progress().history.entered() == old(self).progress().history.entered(),
    {
        self.commits.handle_timeout();
        self.proceed(false)
    }

    /// The source has ended, or has been cut off: everything that was delivered is committed.
    pub fn on_end<U: DeliveryUnit<P>, F>(&mut self) -> (step: Step<U, C, F>)
        requires
            old(self).is_valid(),
            old(self).phase() == Phase::Waiting,
        ensures
            final(self).is_valid(),
            moves(old(self).holds(), UnitEvent::<U>::End, final(self).holds()),
            next_step(
                old(self).progress().finish(),
                true,
                final(self).progress(),
                final(self).phase(),
                step,
            ),
            final(self).progress().history.entered() == old(self).progress().history.entered(),
            step is Complete ==> final(self).progress().history.persisted() == final(self).progress().history.entered(),
    {
        self.commits.finish();
        self.proceed(true)
    }

    /// The delivery under way has ended, and the clock is read to tell the policy.
    pub fn on_delivered<U: DeliveryUnit<P>, F>(
        &mut self,
        outcome: Result<(), F>,
        clock: &Clock,
    ) -> (step: Step<U, C, F>)
        requires
            old(self).is_valid(),
            old(self).phase() is Delivering,
        ensures
            final(self).is_valid(),
            exists|acknowledged_at: Moment, checked_at: Moment|
                {
                    &&& clock.may_give(acknowledged_at) && acknowledged_at.is_reading()
                    &&& clock.may_give(checked_at) && checked_at.is_reading()
                    &&& #[trigger] old(self).delivered(
                        outcome,
                        acknowledged_at,
                        checked_at,
                        *final(self),
                        step,
                    )
                    &&& moves(
                        old(self).holds(),
                        delivery_event::<U, F>(outcome, acknowledged_at, checked_at),
                        final(self).holds(),
                    )
                },
            final(self).progress().history.entered() == old(self).progress().history.entered(),
    {
        let acknowledged_at = clock.now();
        let checked_at = clock.now();
        self.on_delivered_at(outcome, acknowledged_at, checked_at)
    }

    /// Whether the end of a delivery turns `self` into `after`, with `step` to be done next.
    ///
    /// A failed delivery is not acknowledged and ends the run without a commit.
    pub open spec fn delivered<U, F>(
        self,
        outcome: Result<(), F>,
        acknowledged_at: Moment,
        checked_at: Moment,
        after: Self,
        step: Step<U, C, F>,
    ) -> bool {
        match outcome {
            Ok(_) => next_step(
                self.progress().acknowledge(
                    self.phase()->records,
                    acknowledged_at,
                    checked_at,
                ),
                false,
                after.progress(),
                after.phase(),
                step,
            ),
            Err(failure) => {
                &&& step == Step::<U, C, F>::Fail(failure)
                &&& after.phase() == Phase::Finished
                &&& after.progress() == self.progress()
            },
        }
    }

    /// The delivery under way has ended: the policy hears of it at `acknowledged_at`, and its
    /// deadline is held against `checked_at`.
    pub fn on_delivered_at<U: DeliveryUnit<P>, F>(
        &mut self,
        outcome: Result<(), F>,
        acknowledged_at: Moment,
        checked_at: Moment,
    ) -> (step: Step<U, C, F>)
        requires
            old(self).is_valid(),
            old(self).phase() is Delivering,
            acknowledged_at.is_reading(),
        ensures
            final(self).is_valid(),
            old(self).delivered(outcome, acknowledged_at, checked_at, *final(self), step),
            moves(
                old(self).holds(),
                delivery_event::<U, F>(outcome, acknowledged_at, checked_at),
                final(self).holds(),
            ),
            final(self).progress().history.entered() == old(self).progress().history.entered(),
    {
        match outcome {
            Ok(_) => {
                let records = match self.phase {
                    Phase::Delivering { records } => records,
                    _ => 0,
                };
                self.commits.acknowledge_delivery_at(records, acknowledged_at, checked_at);
                self.proceed(false)
            },
            Err(failure) => {
                self.phase = Phase::Finished;
                Step::Fail(failure)
            },
        }
    }

    /// The commit under way has ended.
    ///
    /// A failed commit ends the run.
    pub fn on_committed<U: DeliveryUnit<P>, So, Tr, Si>(
        &mut self,
        outcome: Result<(), So>,
    ) -> (step: Step<U, C, PipelineError<So, Tr, Si>>)
        requires
            old(self).is_valid(),
            old(self).phase() is Committing,
        ensures
            final(self).is_valid(),
            moves(
                old(self).holds(),
                match outcome {
                    Ok(_) => UnitEvent::<U>::Committed,
                    Err(_) => UnitEvent::<U>::Failed,
                },
                final(self).holds(),
            ),
            match outcome {
                Ok(_) => next_step(
                    old(self).progress().commit(),
                    old(self).phase()->last,
                    final(self).progress(),
                    final(self).phase(),
                    step,
                ),
                Err(error) => {
                    &&& step == Step::<U, C, PipelineError<So, Tr, Si>>::Fail(
                        PipelineError::Commit(error),
                    )
                    &&& final(self).phase() == Phase::Finished
                    &&& final(self).progress() == old(self).progress()
                },
            },
            final(self).progress().history.entered() == old(self).progress().history.entered(),
            step is Complete ==> final(self).progress().history.persisted() == final(self).progress().history.entered(),
    {
        match outcome {
            Ok(_) => {
                let last = match self.phase {
                    Phase::Committing { last } => last,
                    _ => false,
                };
                self.commits.committed();
                self.proceed(last)
            },
            Err(error) => {
                self.phase = Phase::Finished;
                Step::Fail(PipelineError::Commit(error))
            },
        }
    }
}

/// Whatever has been committed is a prefix, in source order, of what has been delivered: nothing is
/// committed that was not delivered, nothing is skipped, and nothing is committed out of order.
pub proof fn committed_progress_was_delivered<C, Policy, P>(
    runner: UnitRunner<C, Policy, P>,
) where C: Checkpoint<P>, Policy: CommitPolicy<P>
    requires
        runner.is_valid(),
    ensures
        ({
            let history = runner.progress().history;
            &&& history.persisted().len() <= history.acknowledged <= history.entered().len()
            &&& history.persisted() == history.entered().take(history.persisted().len() as int)
        }),
{
    history::persisted_is_acknowledged(runner.progress().history);
}

/// What a runner is told.
pub enum UnitEvent<U> {
    /// The source has produced a unit.
    Unit(U),
    /// The source has produced an empty chunk.
    Empty,
    /// The deadline has been reached while waiting.
    Deadline,
    /// The source has ended, or has been cut off.
    End,
    /// The delivery under way has succeeded.
    Delivered { acknowledged_at: Moment, checked_at: Moment },
    /// The commit under way has succeeded.
    Committed,
    /// The source, the delivery or the commit has failed.
    Failed,
}

/// What a runner is told of the end of a delivery.
pub open spec fn delivery_event<U, F>(
    outcome: Result<(), F>,
    acknowledged_at: Moment,
    checked_at: Moment,
) -> UnitEvent<U> {
    match outcome {
        Ok(_) => UnitEvent::Delivered { acknowledged_at, checked_at },
        Err(_) => UnitEvent::Failed,
    }
}

/// Whether what a runner is told may turn the progress and phase `before` into those `after`.
pub open spec fn moves<U: DeliveryUnit<P>, C: Checkpoint<P>, Policy: CommitPolicy<P>, P>(
    before: (Progress<C, Policy, P>, Phase),
    event: UnitEvent<U>,
    after: (Progress<C, Policy, P>, Phase),
) -> bool {
    match (event, before.1) {
        (UnitEvent::Unit(unit), Phase::Waiting) => {
            &&& before.0.may_enter(unit.positions(), after.0)
            &&& unit.positions().len() <= usize::MAX
            &&& after.1 == (Phase::Delivering { records: unit.positions().len() as usize })
        },
        (UnitEvent::Empty, Phase::Waiting) => after == before,
        (UnitEvent::Deadline, Phase::Waiting) => {
            goes_on(before.0.time_out(), false, after.0, after.1)
        },
        (UnitEvent::End, Phase::Waiting) => goes_on(before.0.finish(), true, after.0, after.1),
        (
            UnitEvent::Delivered { acknowledged_at, checked_at },
            Phase::Delivering { records },
        ) => goes_on(
            before.0.acknowledge(records, acknowledged_at, checked_at),
            false,
            after.0,
            after.1,
        ),
        (UnitEvent::Committed, Phase::Committing { last }) => {
            goes_on(before.0.commit(), last, after.0, after.1)
        },
        (UnitEvent::Failed, phase) => {
            &&& phase != Phase::Finished
            &&& after == (before.0, Phase::Finished)
        },
        _ => false,
    }
}

/// Whether a new runner that is told these things, in order, may come to this progress and phase.
pub open spec fn may_run<U: DeliveryUnit<P>, C: Checkpoint<P>, Policy: CommitPolicy<P>, P>(
    policy: Policy::State,
    events: Seq<UnitEvent<U>>,
    reached: (Progress<C, Policy, P>, Phase),
) -> bool
    decreases events.len(),
{
    if events.len() == 0 {
        reached == (Progress::<C, Policy, P>::start(policy), Phase::Waiting)
    } else {
        exists|before: (Progress<C, Policy, P>, Phase)|
            {
                &&& may_run(policy, events.drop_last(), before)
                &&& #[trigger] moves(before, events.last(), reached)
            }
    }
}

/// The units that a runner was told of, in order.
pub open spec fn units_of<U>(events: Seq<UnitEvent<U>>) -> Seq<U>
    decreases events.len(),
{
    if events.len() == 0 {
        Seq::empty()
    } else {
        match events.last() {
            UnitEvent::Unit(unit) => units_of(events.drop_last()).push(unit),
            _ => units_of(events.drop_last()),
        }
    }
}

/// The positions of several units, one unit behind the other.
pub open spec fn positions_of<P, U: DeliveryUnit<P>>(units: Seq<U>) -> Seq<P>
    decreases units.len(),
{
    if units.len() == 0 {
        Seq::empty()
    } else {
        positions_of::<P, U>(units.drop_last()) + units.last().positions()
    }
}

/// Whether a run has failed.
pub open spec fn has_failed<U>(events: Seq<UnitEvent<U>>) -> bool {
    exists|i: int| 0 <= i < events.len() && (#[trigger] events[i]) is Failed
}

/// What a runner is told keeps its progress fit for its phase, and only a unit adds to what has
/// entered delivery.
proof fn lemma_moves_keep_fit<U, C, Policy, P>(
    before: (Progress<C, Policy, P>, Phase),
    event: UnitEvent<U>,
    after: (Progress<C, Policy, P>, Phase),
) where U: DeliveryUnit<P>, C: Checkpoint<P>, Policy: CommitPolicy<P>
    requires
        fits(before.0, before.1),
        moves(before, event, after),
    ensures
        fits(after.0, after.1),
        after.0.history.entered() == (match event {
            UnitEvent::Unit(unit) => before.0.history.entered() + unit.positions(),
            _ => before.0.history.entered(),
        }),
        after.1 == Phase::Finished && !(event is Failed) ==> after.0.history.persisted()
            == after.0.history.entered() && after.0.history.is_settled(),
{
    let progress = before.0;
    let told = match (event, before.1) {
        (UnitEvent::Deadline, Phase::Waiting) => (progress.time_out(), CommitEvent::TimedOut),
        (UnitEvent::End, Phase::Waiting) => (progress.finish(), CommitEvent::Finished),
        (
            UnitEvent::Delivered { acknowledged_at, checked_at },
            Phase::Delivering { records },
        ) => (
            progress.acknowledge(records, acknowledged_at, checked_at),
            CommitEvent::Acknowledged { records, acknowledged_at, checked_at },
        ),
        _ => (progress.commit(), CommitEvent::Committed),
    };
    match event {
        UnitEvent::Unit(unit) => {
            commit::entering_keeps_agreement(progress, unit.positions(), after.0);
        },
        UnitEvent::Empty | UnitEvent::Failed => {},
        _ => {
            commit::operations_keep_agreement(progress, told.1, told.0);
            commit::operations_keep_agreement(
                told.0,
                CommitEvent::HandedOut,
                told.0.hand_out(),
            );
            history::closing_keeps_positions(progress.history);
            history::acknowledging_keeps_positions(progress.history);
            history::closing_keeps_positions(progress.history.acknowledge());
            let history = told.0.history;
            assert(history.closed.take(history.closed.len() as int) =~= history.closed);
            if history.open.len() == 0 {
                assert(history.entered() =~= history.closed.flatten());
            }
        },
    }
}

/// A run goes on by whatever the runner is told next.
pub proof fn runs_go_on<U, C, Policy, P>(
    policy: Policy::State,
    events: Seq<UnitEvent<U>>,
    before: (Progress<C, Policy, P>, Phase),
    event: UnitEvent<U>,
    after: (Progress<C, Policy, P>, Phase),
) where U: DeliveryUnit<P>, C: Checkpoint<P>, Policy: CommitPolicy<P>
    requires
        may_run(policy, events, before),
        moves(before, event, after),
    ensures
        may_run(policy, events.push(event), after),
{
    let longer = events.push(event);
    assert(longer.drop_last() =~= events);
    assert(moves(before, longer.last(), after));
}

/// Over a whole run, whatever the runner is told: the positions that entered delivery are those of
/// its units, one unit behind the other, none lost, repeated or reordered. What has been committed
/// is a prefix of what has been delivered. A run that ends without a failure has delivered and
/// committed every position.
pub proof fn runs_deliver_their_units_in_order<U, C, Policy, P>(
    policy: Policy::State,
    events: Seq<UnitEvent<U>>,
    reached: (Progress<C, Policy, P>, Phase),
) where U: DeliveryUnit<P>, C: Checkpoint<P>, Policy: CommitPolicy<P>
    requires
        may_run(policy, events, reached),
    ensures
        fits(reached.0, reached.1),
        reached.0.history.entered() == positions_of::<P, U>(units_of(events)),
        reached.0.history.persisted().len() <= reached.0.history.acknowledged,
        reached.0.history.persisted() == positions_of::<P, U>(units_of(events)).take(
            reached.0.history.persisted().len() as int,
        ),
        reached.1 == Phase::Finished && !has_failed(events) ==> {
            &&& reached.0.history.persisted() == positions_of::<P, U>(units_of(events))
            &&& reached.0.history.acknowledged == positions_of::<P, U>(units_of(events)).len()
        },
    decreases events.len(),
{
    if events.len() == 0 {
        assert(Seq::<Seq<P>>::empty().take(0) =~= Seq::empty());
        assert(reached.0.history.entered() =~= Seq::empty());
    } else {
        let before = choose|before: (Progress<C, Policy, P>, Phase)|
            {
                &&& may_run(policy, events.drop_last(), before)
                &&& #[trigger] moves(before, events.last(), reached)
            };
        runs_deliver_their_units_in_order(policy, events.drop_last(), before);
        lemma_moves_keep_fit(before, events.last(), reached);
        match events.last() {
            UnitEvent::Unit(unit) => {
                let units = units_of(events);
                assert(units.drop_last() =~= units_of(events.drop_last()));
            },
            UnitEvent::Failed => {
                assert(events[events.len() - 1] is Failed);
            },
            _ => {},
        }
    }
    history::persisted_is_acknowledged(reached.0.history);
}

/// The positions of several batches are those of their records.
proof fn lemma_batch_positions<T, P>(batches: Seq<Batch<T, P>>)
    ensures
        positions_of::<P, Batch<T, P>>(batches) == sink::concatenated(batches).map_values(
            |record: Record<T, P>| record.at(),
        ),
    decreases batches.len(),
{
    let at = |record: Record<T, P>| record.at();
    if batches.len() == 0 {
        assert(sink::concatenated(batches).map_values(at) =~= Seq::empty());
    } else {
        let before = batches.drop_last();
        lemma_batch_positions(before);
        sink::lemma_concatenated_last(batches);
        assert((sink::concatenated(before) + batches.last().records@).map_values(at)
            =~= sink::concatenated(before).map_values(at) + batches.last().records@.map_values(at));
    }
}

/// A run that batches a stream delivers exactly one transformed record for every record of the
/// stream, in the stream's order and with the stream's own positions, in batches that are neither
/// empty nor larger than `size`, however the transformed stream was cut into chunks of at most
/// `size`. Where the run ends without a failure, it has committed every position of the stream.
pub proof fn batched_runs_deliver_the_stream<In, T, C, Policy, P, E>(
    policy: Policy::State,
    stream: Seq<Record<In, P>>,
    chunks: Seq<Seq<Result<Record<T, P>, E>>>,
    outcomes: Seq<Result<Option<Batch<T, P>>, E>>,
    size: nat,
    events: Seq<UnitEvent<Batch<T, P>>>,
    reached: (Progress<C, Policy, P>, Phase),
) where C: Checkpoint<P>, Policy: CommitPolicy<P>
    requires
        chunks.flatten().len() == stream.len(),
        forall|i: int|
            0 <= i < stream.len() ==> {
                &&& (#[trigger] chunks.flatten()[i]) is Ok
                &&& chunks.flatten()[i]->Ok_0.at() == stream[i].at()
            },
        forall|i: int| 0 <= i < chunks.len() ==> (#[trigger] chunks[i]).len() <= size,
        outcomes.len() == chunks.len(),
        forall|i: int| 0 <= i < chunks.len() ==> sink::is_cut(#[trigger] chunks[i], outcomes[i]),
        units_of(events) == sink::batches_of(outcomes),
        may_run(policy, events, reached),
    ensures
        ({
            let delivered = sink::concatenated(units_of(events));
            let positions = stream.map_values(|record: Record<In, P>| record.at());
            &&& delivered == sink::values(chunks.flatten())
            &&& delivered.len() == stream.len()
            &&& forall|i: int|
                0 <= i < stream.len() ==> (#[trigger] delivered[i]).at() == stream[i].at()
            &&& forall|i: int|
                0 <= i < units_of(events).len() ==> 1 <= (#[trigger] units_of(
                    events,
                )[i]).records@.len() <= size
            &&& reached.0.history.entered() == positions
            &&& reached.1 == Phase::Finished && !has_failed(events)
                ==> reached.0.history.persisted() == positions
        }),
{
    sink::batches_hold_every_record(chunks, outcomes, size);
    sink::cutting_keeps_every_record(chunks);
    runs_deliver_their_units_in_order(policy, events, reached);
    lemma_batch_positions(units_of(events));
    let delivered = sink::concatenated(units_of(events));
    assert(delivered == sink::values(chunks.flatten()));
    assert forall|i: int| 0 <= i < stream.len() implies (#[trigger] delivered[i]).at()
        == stream[i].at() by {
        assert(chunks.flatten()[i] is Ok);
    }
    assert(delivered.map_values(|record: Record<T, P>| record.at()) =~= stream.map_values(
        |record: Record<In, P>| record.at(),
    ));
}

/// What a policy is told over a run, in order: every position as it enters delivery, every delivered
/// unit with the number of its positions, every deadline, and every commit.
pub open spec fn policy_hears<U: DeliveryUnit<P>, Policy: CommitPolicy<P>, P>(
    policy: Policy::State,
    events: Seq<UnitEvent<U>>,
) -> Seq<PolicyEvent<P>>
    decreases events.len(),
{
    if events.len() == 0 {
        Seq::empty()
    } else {
        let heard = policy_hears::<U, Policy, P>(policy, events.drop_last());
        match events.last() {
            UnitEvent::Unit(unit) => heard + unit.positions().map_values(
                |position: P| PolicyEvent::Position(position),
            ),
            UnitEvent::Deadline => heard.push(PolicyEvent::TimedOut),
            UnitEvent::Delivered { acknowledged_at, checked_at } => {
                policy::hears_acknowledgement::<P, Policy>(
                    policy,
                    heard,
                    units_of(events).last().positions().len(),
                    acknowledged_at,
                    checked_at,
                )
            },
            UnitEvent::Committed => heard.push(PolicyEvent::Committed),
            _ => heard,
        }
    }
}

/// Over a whole run the policy hears of every position, of every delivered unit with exactly as many
/// records as the unit has positions, of every deadline and of every commit, and of nothing else. The
/// records that it is told of add up to the positions that have been acknowledged.
pub proof fn policies_hear_of_every_unit<U, C, Policy, P>(
    policy: Policy::State,
    events: Seq<UnitEvent<U>>,
    reached: (Progress<C, Policy, P>, Phase),
) where U: DeliveryUnit<P>, C: Checkpoint<P>, Policy: CommitPolicy<P>
    requires
        may_run(policy, events, reached),
    ensures
        reached.0.policy == policy::told::<P, Policy>(
            policy,
            policy_hears::<U, Policy, P>(policy, events),
        ),
        policy::records_told(policy_hears::<U, Policy, P>(policy, events))
            == reached.0.history.acknowledged,
        reached.1 matches Phase::Delivering { records } ==> {
            &&& units_of(events).len() > 0
            &&& records == units_of(events).last().positions().len()
        },
    decreases events.len(),
{
    if events.len() > 0 {
        let earlier = events.drop_last();
        let before = choose|before: (Progress<C, Policy, P>, Phase)|
            {
                &&& may_run(policy, earlier, before)
                &&& #[trigger] moves(before, events.last(), reached)
            };
        let heard = policy_hears::<U, Policy, P>(policy, earlier);
        policies_hear_of_every_unit(policy, earlier, before);
        runs_deliver_their_units_in_order(policy, earlier, before);
        match events.last() {
            UnitEvent::Unit(unit) => {
                commit::entering_keeps_agreement(before.0, unit.positions(), reached.0);
                commit::policies_hear_of_every_position(before.0, unit.positions(), reached.0);
                policy::lemma_told_positions::<P, Policy>(policy, heard, unit.positions());
            },
            UnitEvent::Deadline => {
                commit::deadlines_commit_as_asked(before.0);
                policy::lemma_told_last::<P, Policy>(policy, heard, PolicyEvent::TimedOut);
            },
            UnitEvent::Delivered { acknowledged_at, checked_at } => {
                let records = before.1->records;
                commit::acknowledgements_commit_as_asked(
                    before.0,
                    records,
                    acknowledged_at,
                    checked_at,
                );
                policy::lemma_hears_acknowledgement::<P, Policy>(
                    policy,
                    heard,
                    records as nat,
                    acknowledged_at,
                    checked_at,
                );
            },
            UnitEvent::Committed => {
                policy::lemma_told_last::<P, Policy>(policy, heard, PolicyEvent::Committed);
            },
            UnitEvent::End => {
                commit::ends_leave_nothing_open(before.0);
            },
            _ => {},
        }
    }
}

/// What is to be done next tells what the runner then waits for. A run waits for the deadline of the
/// progress that it holds, and only before the source has ended; it commits exactly the first epoch
/// that may be persisted and has not been; it is complete only once the source has ended and nothing
/// is left to commit.
pub proof fn steps_tell_the_phase<U, C, Policy, P, F>(
    progress: Progress<C, Policy, P>,
    last: bool,
    after: Progress<C, Policy, P>,
    phase: Phase,
    step: Step<U, C, F>,
) where C: Checkpoint<P>, Policy: CommitPolicy<P>
    requires
        progress.is_consistent(),
        progress.history.committed == progress.history.handed,
        next_step(progress, last, after, phase, step),
    ensures
        after.policy == progress.policy,
        after.history.entered() == progress.history.entered(),
        after.history.acknowledged == progress.history.acknowledged,
        after.history.persisted() == progress.history.persisted(),
        step is Wait <==> phase == Phase::Waiting,
        step is Commit <==> phase is Committing,
        step is Complete <==> phase == Phase::Finished,
        step is Wait || step is Commit || step is Complete,
        step is Commit <==> progress.history.committed < progress.history.eligible,
        step is Wait ==> !last,
        step is Complete ==> last,
        step matches Step::Wait(deadline) ==> deadline == after.deadline(),
        phase matches Phase::Committing { last: ended } ==> ended == last,
        step matches Step::Commit(epoch) ==> {
            &&& after.history.handed == after.history.committed + 1
            &&& after.history.committed == progress.history.committed
            &&& checkpoint::epochs_are_independent::<P, C>() ==> epoch.content()
                == checkpoint::epoch_of::<P, C>(
                progress.history.closed[progress.history.committed as int],
            )
        },
{
}

/// When a unit has been delivered, the policy is told exactly how many positions entered delivery since
/// the acknowledgement before, and all of them are acknowledged.
pub proof fn acknowledgements_tell_what_entered<U, C, Policy, P>(
    before: (Progress<C, Policy, P>, Phase),
    acknowledged_at: Moment,
    checked_at: Moment,
    after: (Progress<C, Policy, P>, Phase),
) where U: DeliveryUnit<P>, C: Checkpoint<P>, Policy: CommitPolicy<P>
    requires
        fits(before.0, before.1),
        moves(before, UnitEvent::<U>::Delivered { acknowledged_at, checked_at }, after),
    ensures
        ({
            let history = before.0.history;
            let records = history.entered().len() - history.acknowledged;
            let (told, action) = Policy::delivery_seen(
                before.0.policy,
                records as usize,
                acknowledged_at,
            );
            &&& 0 <= records <= usize::MAX
            &&& after.0.policy == (if action == CommitAction::Continue && commit::is_reached(
                Policy::next_deadline(told),
                checked_at,
            ) {
                Policy::timeout_seen(told).0
            } else {
                told
            })
            &&& after.0.history.acknowledged == history.entered().len()
            &&& after.0.history.entered() == history.entered()
        }),
{
    commit::acknowledgements_commit_as_asked(
        before.0,
        before.1->records,
        acknowledged_at,
        checked_at,
    );
}

/// A failed delivery ends the run with that failure and without any progress.
pub proof fn failures_end_runs<U, C, Policy, P, F>(
    runner: UnitRunner<C, Policy, P>,
    failure: F,
    acknowledged_at: Moment,
    checked_at: Moment,
    after: UnitRunner<C, Policy, P>,
    step: Step<U, C, F>,
) where U: DeliveryUnit<P>, C: Checkpoint<P>, Policy: CommitPolicy<P>
    ensures
        runner.delivered(Err(failure), acknowledged_at, checked_at, after, step) ==> {
            &&& step == Step::<U, C, F>::Fail(failure)
            &&& after.phase() == Phase::Finished
            &&& after.progress() == runner.progress()
        },
        delivery_event::<U, F>(Err(failure), acknowledged_at, checked_at) is Failed,
        delivery_event::<U, F>(Ok(()), acknowledged_at, checked_at)
            == (UnitEvent::<U>::Delivered { acknowledged_at, checked_at }),
{
}

/// Whether a runner has been told that the source has ended.
pub open spec fn source_ended<U>(events: Seq<UnitEvent<U>>) -> bool {
    exists|i: int| 0 <= i < events.len() && (#[trigger] events[i]) is End
}

/// A run whose source has ended takes in nothing more: it commits what is left, and is over. A run
/// whose source has not ended, and that has not failed, is not over, and goes on after its commits.
pub proof fn runs_end_with_their_source<U, C, Policy, P>(
    policy: Policy::State,
    events: Seq<UnitEvent<U>>,
    reached: (Progress<C, Policy, P>, Phase),
) where U: DeliveryUnit<P>, C: Checkpoint<P>, Policy: CommitPolicy<P>
    requires
        may_run(policy, events, reached),
    ensures
        source_ended(events) ==> reached.1 == (Phase::Committing { last: true }) || reached.1
            == Phase::Finished,
        !source_ended(events) && !has_failed(events) ==> reached.1 != Phase::Finished && reached.1
            != (Phase::Committing { last: true }),
        has_failed(events) ==> reached.1 == Phase::Finished,
    decreases events.len(),
{
    if events.len() > 0 {
        let earlier = events.drop_last();
        let before = choose|before: (Progress<C, Policy, P>, Phase)|
            {
                &&& may_run(policy, earlier, before)
                &&& #[trigger] moves(before, events.last(), reached)
            };
        runs_end_with_their_source(policy, earlier, before);
        assert(forall|i: int| 0 <= i < earlier.len() ==> earlier[i] == events[i]);
        assert(events[events.len() - 1] == events.last());
        if source_ended(events) && !(events.last() is End) {
            let i = choose|i: int| 0 <= i < events.len() && (#[trigger] events[i]) is End;
            assert(earlier[i] is End);
        }
        if source_ended(earlier) {
            let i = choose|i: int| 0 <= i < earlier.len() && (#[trigger] earlier[i]) is End;
            assert(events[i] is End);
        }
        if has_failed(events) && !(events.last() is Failed) {
            let i = choose|i: int| 0 <= i < events.len() && (#[trigger] events[i]) is Failed;
            assert(earlier[i] is Failed);
        }
        if has_failed(earlier) {
            let i = choose|i: int| 0 <= i < earlier.len() && (#[trigger] earlier[i]) is Failed;
            assert(events[i] is Failed);
        }
    }
}

} // verus!
