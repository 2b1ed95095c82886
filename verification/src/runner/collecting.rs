//! Delivery through incremental, batch-scoped collections.
use crate::checkpoint;
use crate::checkpoint::Checkpoint;
use crate::commit;
use crate::commit::{CommitEvent, CommitState, Progress};
use crate::error::PipelineError;
use crate::history;
use crate::policy;
use crate::policy::{CollectPolicy, CommitAction, CommitPolicy, PolicyEvent};
use crate::record::Record;
use crate::time::{Clock, Moment, MAX_READING};
use vstd::prelude::*;

verus! {

/// What is to be done next.
pub enum CollectStep<R, C, F> {
    /// Wait for the first record of a collection, and until the deadline if there is one.
    Wait(Option<Moment>),
    /// Begin a collection in every collector.
    Begin,
    /// Push a record into every collection.
    Push(R),
    /// Wait for another record of the collection until the deadline, records first.
    Gather(Moment),
    /// Finish every collection.
    Finish,
    /// Have the source commit a checkpoint epoch.
    Commit(C),
    /// Nothing more: the run has succeeded.
    Complete,
    /// Nothing more: the run has failed.
    Fail(F),
}

/// What ended the wait for another record of a collection.
pub enum Gathered<R, F> {
    /// A record, or a failure in its place.
    Item(Result<R, F>),
    /// The end of the source.
    End,
    /// The deadline of the collection.
    TimedOut,
}

/// How a run goes on once every eligible epoch has been committed.
#[derive(Debug, Clone, Copy, PartialEq, Eq, Structural)]
pub enum Onward {
    /// Wait for the next collection.
    Resume,
    /// The source has ended: commit whatever else was delivered.
    Drain,
    /// Everything has been committed.
    Stop,
}

/// What a runner is waiting for.
#[derive(Debug, Clone, Copy, PartialEq, Eq, Structural)]
pub enum CollectPhase {
    /// The first record of a collection, the end of the source, or the deadline.
    Waiting,
    /// The outcome of beginning a collection.
    Beginning,
    /// The outcome of a push; `count` records were pushed before.
    Pushing { count: usize, deadline: Moment },
    /// Another record of a collection that holds `count` of them.
    Gathering { count: usize, deadline: Moment },
    /// The outcome of finishing a collection of `count` records; `ended` once the source has ended.
    Finishing { count: usize, ended: bool },
    /// The outcome of a commit.
    Committing { onward: Onward },
    /// Nothing more.
    Finished,
}

/// Whether `after` and `phase` are what a runner holds that goes on where no delivery or commit is
/// under way: the eligible epochs are committed, one by one, before anything else.
pub open spec fn collect_goes_on<C: Checkpoint<P>, Policy: CommitPolicy<P>, P>(
    progress: Progress<C, Policy, P>,
    onward: Onward,
    after: Progress<C, Policy, P>,
    phase: CollectPhase,
) -> bool {
    let drained = progress.finish();
    if progress.epochs.eligible.len() > 0 {
        &&& after == progress.hand_out()
        &&& phase == (CollectPhase::Committing { onward })
    } else if onward == Onward::Resume {
        &&& after == progress
        &&& phase == CollectPhase::Waiting
    } else if onward == Onward::Drain && drained.epochs.eligible.len() > 0 {
        &&& after == drained.hand_out()
        &&& phase == (CollectPhase::Committing { onward: Onward::Stop })
    } else if onward == Onward::Drain {
        &&& after == drained
        &&& phase == CollectPhase::Finished
    } else {
        &&& after == progress
        &&& phase == CollectPhase::Finished
    }
}

/// Whether `step` is what is to be done next where no delivery or commit is under way, and `after`
/// and `phase` are what the runner then holds.
pub open spec fn next_collect_step<R, C: Checkpoint<P>, Policy: CommitPolicy<P>, P, F>(
    progress: Progress<C, Policy, P>,
    onward: Onward,
    after: Progress<C, Policy, P>,
    phase: CollectPhase,
    step: CollectStep<R, C, F>,
) -> bool {
    &&& collect_goes_on(progress, onward, after, phase)
    &&& step == (if progress.epochs.eligible.len() > 0 {
        CollectStep::<R, C, F>::Commit(progress.epochs.eligible[0])
    } else if onward == Onward::Resume {
        CollectStep::<R, C, F>::Wait(progress.deadline())
    } else if onward == Onward::Drain && progress.finish().epochs.eligible.len() > 0 {
        CollectStep::<R, C, F>::Commit(progress.finish().epochs.eligible[0])
    } else {
        CollectStep::<R, C, F>::Complete
    })
}

/// Whether progress fits a phase of collections of at most `size` records.
pub open spec fn collect_fits<C: Checkpoint<P>, Policy: CommitPolicy<P>, P>(
    progress: Progress<C, Policy, P>,
    phase: CollectPhase,
    size: usize,
) -> bool {
    let in_flight = progress.history.entered().len() - progress.history.acknowledged;
    match phase {
        CollectPhase::Waiting => progress.is_at_rest(),
        CollectPhase::Beginning => progress.is_at_rest(),
        CollectPhase::Pushing { count, .. } => {
            &&& progress.is_caught_up()
            &&& count < size
            &&& in_flight == count + 1
        },
        CollectPhase::Gathering { count, .. } => {
            &&& progress.is_caught_up()
            &&& 0 < count < size
            &&& in_flight == count
        },
        CollectPhase::Finishing { count, .. } => {
            &&& progress.is_caught_up()
            &&& 0 < count <= size
            &&& in_flight == count
        },
        CollectPhase::Committing { onward } => {
            &&& progress.is_committing()
            &&& onward == Onward::Stop ==> progress.history.open.len() == 0
        },
        CollectPhase::Finished => {
            &&& progress.is_consistent()
            &&& progress.history.is_safe()
        },
    }
}

/// Runs a pipeline that pushes records into collections.
pub struct CollectingRunner<T, C, Policy, P, F> {
    limits: CollectPolicy,
    commits: CommitState<C, Policy, P>,
    phase: CollectPhase,
    first: Option<Result<Record<T, P>, F>>,
}

impl<T, C, Policy: CommitPolicy<P>, P, F> CollectingRunner<T, C, Policy, P, F> {
    /// The limits of one collection.
    pub closed spec fn limits(self) -> CollectPolicy {
        self.limits
    }

    /// Delivered and committed progress.
    pub closed spec fn progress(self) -> Progress<C, Policy, P> {
        self.commits.progress()
    }

    /// What the runner is waiting for.
    pub closed spec fn phase(self) -> CollectPhase {
        self.phase
    }

    /// What the collection that is being begun is to start with.
    pub closed spec fn first(self) -> Option<Result<Record<T, P>, F>> {
        self.first
    }
}

impl<T, C, Policy, P, F> CollectingRunner<T, C, Policy, P, F> where
    C: Checkpoint<P>,
    Policy: CommitPolicy<P>,
 {
    /// How many positions have entered delivery without being acknowledged.
    pub open spec fn in_flight(self) -> int {
        self.progress().history.entered().len() - self.progress().history.acknowledged
    }

    /// The progress fits the phase, and no collection outgrows its limit.
    pub open spec fn is_valid(self) -> bool {
        &&& collect_fits(self.progress(), self.phase(), self.limits().capacity().count())
        &&& self.phase() == CollectPhase::Beginning ==> self.first() is Some
        &&& self.first() is Some ==> self.phase() == CollectPhase::Beginning || self.phase()
            == CollectPhase::Finished
    }

    /// The progress, the phase, and the position of the record that the collection being begun
    /// starts with.
    pub open spec fn holds(self) -> Collecting<C, Policy, P> {
        Collecting {
            progress: self.progress(),
            phase: self.phase(),
            first: match self.first() {
                Some(Ok(record)) => Some(record.at()),
                _ => None,
            },
        }
    }

    /// Whether what the runner is told may turn `self` into `after`.
    pub open spec fn follows(self, event: CollectEvent<P>, after: Self) -> bool {
        &&& after.limits() == self.limits()
        &&& collect_moves(self.limits(), self.holds(), event, after.holds())
    }

    /// A runner that has not seen anything yet, and waits without a deadline.
    pub fn start(limits: CollectPolicy, policy: Policy) -> (started: (
        Self,
        CollectStep<Record<T, P>, C, F>,
    ))
        ensures
            started.0.is_valid(),
            started.0.limits() == limits,
            started.0.phase() == CollectPhase::Waiting,
            started.0.progress() == Progress::<C, Policy, P>::start(policy.state()),
            may_collect(limits, policy.state(), Seq::empty(), started.0.holds()),
            started.1 == CollectStep::<Record<T, P>, C, F>::Wait(None),
    {
        let commits = CommitState::new(policy);
        (
            CollectingRunner { limits, commits, phase: CollectPhase::Waiting, first: None },
            CollectStep::Wait(None),
        )
    }

    /// What the runner is waiting for.
    pub fn current_phase(&self) -> (phase: CollectPhase)
        ensures
            phase == self.phase(),
    {
        self.phase
    }

    /// Commit the next eligible epoch, or go on.
    fn proceed(&mut self, onward: Onward) -> (step: CollectStep<Record<T, P>, C, F>)
        requires
            old(self).progress().is_consistent(),
            old(self).progress().history.is_safe(),
            old(self).progress().history.is_settled(),
            old(self).progress().history.committed == old(self).progress().history.handed,
            onward == Onward::Stop ==> old(self).progress().history.open.len() == 0,
            old(self).first() is None,
        ensures
            final(self).is_valid(),
            final(self).limits() == old(self).limits(),
            final(self).first() is None,
            next_collect_step(
                old(self).progress(),
                onward,
                final(self).progress(),
                final(self).phase(),
                step,
            ),
            step is Complete ==> final(self).progress().history.persisted() == final(self).progress().history.entered(),
            final(self).progress().history.entered() == old(self).progress().history.entered(),
    {
        if let Some(epoch) = self.commits.pop_eligible() {
            self.phase = CollectPhase::Committing { onward };
            return CollectStep::Commit(epoch);
        }
        match onward {
            Onward::Resume => {
                self.phase = CollectPhase::Waiting;
                return CollectStep::Wait(self.commits.deadline());
            },
            Onward::Drain => {
                self.commits.finish();
                if let Some(epoch) = self.commits.pop_eligible() {
                    self.phase = CollectPhase::Committing { onward: Onward::Stop };
                    return CollectStep::Commit(epoch);
                }
            },
            Onward::Stop => {},
        }
        self.phase = CollectPhase::Finished;
        proof {
            let history = self.commits.progress().history;
            assert(history.closed.take(history.committed as int) =~= history.closed);
            assert(history.persisted() =~= history.entered());
        }
        CollectStep::Complete
    }

    /// The first record of a collection has come, or a failure in its place: either way the
    /// collection is begun first.
    pub fn on_first(&mut self, first: Result<Record<T, P>, F>) -> (step: CollectStep<
        Record<T, P>,
        C,
        F,
    >)
        requires
            old(self).is_valid(),
            old(self).phase() == CollectPhase::Waiting,
        ensures
            final(self).is_valid(),
            final(self).limits() == old(self).limits(),
            final(self).phase() == CollectPhase::Beginning,
            final(self).first() == Some(first),
            old(self).follows(
                match first {
                    Ok(record) => CollectEvent::First(record.at()),
                    Err(_) => CollectEvent::FirstFailed,
                },
                *final(self),
            ),
            final(self).progress() == old(self).progress(),
            step == CollectStep::<Record<T, P>, C, F>::Begin,
    {
        self.first = Some(first);
        self.phase = CollectPhase::Beginning;
        CollectStep::Begin
    }

    /// The deadline has been reached while waiting for a first record.
    pub fn on_deadline(&mut self) -> (step: CollectStep<Record<T, P>, C, F>)
        requires
            old(self).is_valid(),
            old(self).phase() == CollectPhase::Waiting,
        ensures
            final(self).is_valid(),
            old(self).follows(CollectEvent::Deadline, *final(self)),
            final(self).limits() == old(self).limits(),
            next_collect_step(
                old(self).progress().time_out(),
                Onward::Resume,
                final(self).progress(),
                final(self).phase(),
                step,
            ),
            final(self).progress().history.entered() == old(self).progress().history.entered(),
    {
        self.commits.handle_timeout();
        self.proceed(Onward::Resume)
    }

    /// The source has ended, or has been cut off, between two collections.
    pub fn on_end(&mut self) -> (step: CollectStep<Record<T, P>, C, F>)
        requires
            old(self).is_valid(),
            old(self).phase() == CollectPhase::Waiting,
        ensures
            final(self).is_valid(),
            old(self).follows(CollectEvent::End, *final(self)),
            final(self).limits() == old(self).limits(),
            next_collect_step(
                old(self).progress().finish(),
                Onward::Stop,
                final(self).progress(),
                final(self).phase(),
                step,
            ),
            final(self).progress().history.entered() == old(self).progress().history.entered(),
            step is Complete ==> final(self).progress().history.persisted() == final(self).progress().history.entered(),
    {
        self.commits.finish();
        self.proceed(Onward::Stop)
    }

    /// Whether a record that enters the collection turns `self` into `after`, with `step` to be done
    /// next: the record is pushed, and a failure in its place ends the run.
    pub open spec fn pushes(
        self,
        item: Result<Record<T, P>, F>,
        count: usize,
        deadline: Moment,
        after: Self,
        step: CollectStep<Record<T, P>, C, F>,
    ) -> bool {
        match item {
            Ok(record) => {
                &&& step == CollectStep::<Record<T, P>, C, F>::Push(record)
                &&& after.phase() == (CollectPhase::Pushing { count, deadline })
                &&& self.progress().may_enter(seq![record.at()], after.progress())
                &&& after.progress().history.entered() == self.progress().history.entered().push(
                    record.at(),
                )
            },
            Err(failure) => {
                &&& step == CollectStep::<Record<T, P>, C, F>::Fail(failure)
                &&& after.phase() == CollectPhase::Finished
                &&& after.progress() == self.progress()
            },
        }
    }

    /// Push a record, or fail.
    fn push(&mut self, item: Result<Record<T, P>, F>, count: usize, deadline: Moment) -> (step:
        CollectStep<Record<T, P>, C, F>)
        requires
            old(self).progress().is_caught_up(),
            count < old(self).limits().capacity().count(),
            old(self).in_flight() == count,
            old(self).first() is None,
        ensures
            final(self).is_valid(),
            final(self).limits() == old(self).limits(),
            final(self).first() is None,
            old(self).pushes(item, count, deadline, *final(self), step),
    {
        match item {
            Ok(record) => {
                self.commits.track_unit(&record);
                self.phase = CollectPhase::Pushing { count, deadline };
                proof {
                    let entered = old(self).progress().history.entered();
                    assert(entered + seq![record.at()] =~= entered.push(record.at()));
                }
                CollectStep::Push(record)
            },
            Err(failure) => {
                self.phase = CollectPhase::Finished;
                CollectStep::Fail(failure)
            },
        }
    }

    /// Whether the outcome of beginning a collection turns `self` into `after`, with `step` to be
    /// done next.
    pub open spec fn begun(
        self,
        outcome: Result<(), F>,
        now: Moment,
        after: Self,
        step: CollectStep<Record<T, P>, C, F>,
    ) -> bool {
        match outcome {
            Ok(_) => self.pushes(
                self.first()->0,
                0,
                now.plus(self.limits().patience()),
                after,
                step,
            ),
            Err(failure) => {
                &&& step == CollectStep::<Record<T, P>, C, F>::Fail(failure)
                &&& after.phase() == CollectPhase::Finished
                &&& after.progress() == self.progress()
            },
        }
    }

    /// What the runner is told of the outcome of beginning a collection; a failure in the place of
    /// the first record comes out only now.
    pub open spec fn begun_event(self, outcome: Result<(), F>, now: Moment) -> CollectEvent<P> {
        match (outcome, self.first()) {
            (Ok(_), Some(Ok(_))) => CollectEvent::Begun { now },
            _ => CollectEvent::Failed,
        }
    }

    /// A collection has been begun, or has failed to: its deadline counts from now.
    pub fn on_begun(&mut self, outcome: Result<(), F>, clock: &Clock) -> (step: CollectStep<
        Record<T, P>,
        C,
        F,
    >)
        requires
            old(self).is_valid(),
            old(self).phase() == CollectPhase::Beginning,
        ensures
            final(self).is_valid(),
            final(self).limits() == old(self).limits(),
            exists|now: Moment|
                {
                    &&& clock.may_give(now) && now.is_reading()
                    &&& #[trigger] old(self).begun(outcome, now, *final(self), step)
                    &&& old(self).follows(old(self).begun_event(outcome, now), *final(self))
                },
    {
        let now = clock.now();
        self.on_begun_at(outcome, now)
    }

    /// A collection has been begun, or has failed to: its deadline counts from `now`.
    pub fn on_begun_at(&mut self, outcome: Result<(), F>, now: Moment) -> (step: CollectStep<
        Record<T, P>,
        C,
        F,
    >)
        requires
            old(self).is_valid(),
            old(self).phase() == CollectPhase::Beginning,
            now.is_reading(),
        ensures
            final(self).is_valid(),
            final(self).limits() == old(self).limits(),
            old(self).begun(outcome, now, *final(self), step),
            old(self).follows(old(self).begun_event(outcome, now), *final(self)),
            outcome is Err ==> final(self).phase() == CollectPhase::Finished,
            outcome is Err ==> final(self).progress() == old(self).progress(),
            final(self).phase() matches CollectPhase::Pushing { count, deadline } ==> count == 0
                && deadline.nanos == now.nanos + old(self).limits().patience().nanos(),
    {
        match outcome {
            Ok(_) => {
                let deadline = now.after(self.limits.timeout());
                let size: usize = self.limits.size().get();
                assert(size > 0);
                match self.first.take() {
                    Some(first) => self.push(first, 0, deadline),
                    None => CollectStep::Complete,
                }
            },
            Err(failure) => {
                self.phase = CollectPhase::Finished;
                CollectStep::Fail(failure)
            },
        }
    }

    /// A record has been pushed into every collection, or not: a collection that has reached its
    /// size is finished.
    pub fn on_pushed(&mut self, outcome: Result<(), F>) -> (step: CollectStep<Record<T, P>, C, F>)
        requires
            old(self).is_valid(),
            old(self).phase() is Pushing,
        ensures
            final(self).is_valid(),
            final(self).limits() == old(self).limits(),
            final(self).progress() == old(self).progress(),
            old(self).follows(
                match outcome {
                    Ok(_) => CollectEvent::Pushed,
                    Err(_) => CollectEvent::Failed,
                },
                *final(self),
            ),
            match (outcome, old(self).phase()) {
                (Ok(_), CollectPhase::Pushing { count, deadline }) => {
                    if count + 1 == old(self).limits().capacity().count() {
                        &&& step == CollectStep::<Record<T, P>, C, F>::Finish
                        &&& final(self).phase() == (CollectPhase::Finishing {
                            count: (count + 1) as usize,
                            ended: false,
                        })
                    } else {
                        &&& step == CollectStep::<Record<T, P>, C, F>::Gather(deadline)
                        &&& final(self).phase() == (CollectPhase::Gathering {
                            count: (count + 1) as usize,
                            deadline,
                        })
                    }
                },
                (Err(failure), _) => {
                    &&& step == CollectStep::<Record<T, P>, C, F>::Fail(failure)
                    &&& final(self).phase() == CollectPhase::Finished
                },
                _ => false,
            },
    {
        match outcome {
            Ok(_) => match self.phase {
                CollectPhase::Pushing { count, deadline } => {
                    let count: usize = count + 1;
                    if count == self.limits.size().get() {
                        self.phase = CollectPhase::Finishing { count, ended: false };
                        CollectStep::Finish
                    } else {
                        self.phase = CollectPhase::Gathering { count, deadline };
                        CollectStep::Gather(deadline)
                    }
                },
                _ => CollectStep::Complete,
            },
            Err(failure) => {
                self.phase = CollectPhase::Finished;
                CollectStep::Fail(failure)
            },
        }
    }

    /// The wait for another record of the collection is over.
    pub fn on_gathered(&mut self, gathered: Gathered<Record<T, P>, F>) -> (step: CollectStep<
        Record<T, P>,
        C,
        F,
    >)
        requires
            old(self).is_valid(),
            old(self).phase() is Gathering,
        ensures
            final(self).is_valid(),
            final(self).limits() == old(self).limits(),
            old(self).follows(
                match gathered {
                    Gathered::Item(Ok(record)) => CollectEvent::Another(record.at()),
                    Gathered::Item(Err(_)) => CollectEvent::Failed,
                    Gathered::End => CollectEvent::Closed { ended: true },
                    Gathered::TimedOut => CollectEvent::Closed { ended: false },
                },
                *final(self),
            ),
            (old(self).phase(), final(self).phase()) matches (
                CollectPhase::Gathering { deadline: earlier, .. },
                CollectPhase::Pushing { deadline, .. },
            ) ==> deadline == earlier,
            match (gathered, old(self).phase()) {
                (Gathered::Item(item), CollectPhase::Gathering { count, deadline }) => old(self).pushes(item, count, deadline, *final(self), step),
                (_, CollectPhase::Gathering { count, deadline }) => {
                    &&& step == CollectStep::<Record<T, P>, C, F>::Finish
                    &&& final(self).phase() == (CollectPhase::Finishing {
                        count,
                        ended: gathered is End,
                    })
                    &&& final(self).progress() == old(self).progress()
                },
                _ => false,
            },
    {
        match self.phase {
            CollectPhase::Gathering { count, deadline } => match gathered {
                Gathered::Item(item) => self.push(item, count, deadline),
                Gathered::End => {
                    self.phase = CollectPhase::Finishing { count, ended: true };
                    CollectStep::Finish
                },
                Gathered::TimedOut => {
                    self.phase = CollectPhase::Finishing { count, ended: false };
                    CollectStep::Finish
                },
            },
            _ => CollectStep::Complete,
        }
    }

    /// Whether the outcome of finishing a collection turns `self` into `after`, with `step` to be
    /// done next.
    ///
    /// A collection that failed to finish is not acknowledged and ends the run without a commit.
    pub open spec fn finished(
        self,
        outcome: Result<(), F>,
        acknowledged_at: Moment,
        checked_at: Moment,
        after: Self,
        step: CollectStep<Record<T, P>, C, F>,
    ) -> bool {
        match outcome {
            Ok(_) => next_collect_step(
                self.progress().acknowledge(
                    self.phase()->Finishing_count,
                    acknowledged_at,
                    checked_at,
                ),
                if self.phase()->ended {
                    Onward::Drain
                } else {
                    Onward::Resume
                },
                after.progress(),
                after.phase(),
                step,
            ),
            Err(failure) => {
                &&& step == CollectStep::<Record<T, P>, C, F>::Fail(failure)
                &&& after.phase() == CollectPhase::Finished
                &&& after.progress() == self.progress()
            },
        }
    }

    /// Every collection has been finished, or not, and the clock is read to tell the policy.
    pub fn on_finished(&mut self, outcome: Result<(), F>, clock: &Clock) -> (step: CollectStep<
        Record<T, P>,
        C,
        F,
    >)
        requires
            old(self).is_valid(),
            old(self).phase() is Finishing,
        ensures
            final(self).is_valid(),
            final(self).limits() == old(self).limits(),
            exists|acknowledged_at: Moment, checked_at: Moment|
                {
                    &&& clock.may_give(acknowledged_at) && acknowledged_at.is_reading()
                    &&& clock.may_give(checked_at) && checked_at.is_reading()
                    &&& #[trigger] old(self).finished(
                        outcome,
                        acknowledged_at,
                        checked_at,
                        *final(self),
                        step,
                    )
                    &&& old(self).follows(
                        finish_event::<P, F>(outcome, acknowledged_at, checked_at),
                        *final(self),
                    )
                },
            final(self).progress().history.entered() == old(self).progress().history.entered(),
            step is Complete ==> final(self).progress().history.persisted() == final(self).progress().history.entered(),
    {
        let acknowledged_at = clock.now();
        let checked_at = clock.now();
        self.on_finished_at(outcome, acknowledged_at, checked_at)
    }

    /// Every collection has been finished, or not: the policy hears of it at `acknowledged_at`, and
    /// its deadline is held against `checked_at`.
    pub fn on_finished_at(
        &mut self,
        outcome: Result<(), F>,
        acknowledged_at: Moment,
        checked_at: Moment,
    ) -> (step: CollectStep<Record<T, P>, C, F>)
        requires
            old(self).is_valid(),
            old(self).phase() is Finishing,
            acknowledged_at.is_reading(),
        ensures
            final(self).is_valid(),
            final(self).limits() == old(self).limits(),
            old(self).finished(outcome, acknowledged_at, checked_at, *final(self), step),
            old(self).follows(
                finish_event::<P, F>(outcome, acknowledged_at, checked_at),
                *final(self),
            ),
            final(self).progress().history.entered() == old(self).progress().history.entered(),
            step is Complete ==> final(self).progress().history.persisted() == final(self).progress().history.entered(),
    {
        match outcome {
            Ok(_) => match self.phase {
                CollectPhase::Finishing { count, ended } => {
                    self.commits.acknowledge_delivery_at(count, acknowledged_at, checked_at);
                    if ended {
                        self.proceed(Onward::Drain)
                    } else {
                        self.proceed(Onward::Resume)
                    }
                },
                _ => CollectStep::Complete,
            },
            Err(failure) => {
                self.phase = CollectPhase::Finished;
                CollectStep::Fail(failure)
            },
        }
    }
}

impl<T, C, Policy, P, So, Tr, Si> CollectingRunner<T, C, Policy, P, PipelineError<So, Tr, Si>> where
    C: Checkpoint<P>,
    Policy: CommitPolicy<P>,
 {
    /// The commit under way has ended.
    ///
    /// A failed commit ends the run.
    pub fn on_committed(&mut self, outcome: Result<(), So>) -> (step: CollectStep<
        Record<T, P>,
        C,
        PipelineError<So, Tr, Si>,
    >)
        requires
            old(self).is_valid(),
            old(self).phase() is Committing,
        ensures
            final(self).is_valid(),
            old(self).follows(
                match outcome {
                    Ok(_) => CollectEvent::Committed,
                    Err(_) => CollectEvent::Failed,
                },
                *final(self),
            ),
            final(self).limits() == old(self).limits(),
            match outcome {
                Ok(_) => next_collect_step(
                    old(self).progress().commit(),
                    old(self).phase()->onward,
                    final(self).progress(),
                    final(self).phase(),
                    step,
                ),
                Err(error) => {
                    &&& step == CollectStep::<Record<T, P>, C, PipelineError<So, Tr, Si>>::Fail(
                        PipelineError::Commit(error),
                    )
                    &&& final(self).phase() == CollectPhase::Finished
                    &&& final(self).progress() == old(self).progress()
                },
            },
            final(self).progress().history.entered() == old(self).progress().history.entered(),
            step is Complete ==> final(self).progress().history.persisted() == final(self).progress().history.entered(),
    {
        match outcome {
            Ok(_) => match self.phase {
                CollectPhase::Committing { onward } => {
                    self.commits.committed();
                    self.proceed(onward)
                },
                _ => CollectStep::Complete,
            },
            Err(error) => {
                self.phase = CollectPhase::Finished;
                CollectStep::Fail(PipelineError::Commit(error))
            },
        }
    }
}

/// Whatever has been committed is a prefix, in source order, of what has been delivered: nothing is
/// committed that was not delivered, nothing is skipped, and nothing is committed out of order.
pub proof fn committed_collections_were_delivered<T, C, Policy, P, F>(
    runner: CollectingRunner<T, C, Policy, P, F>,
) where C: Checkpoint<P>, Policy: CommitPolicy<P>
    requires
        runner.is_valid(),
    ensures
        ({
            let history = runner.progress().history;
            &&& history.persisted().len() <= history.acknowledged <= history.entered().len()
            &&& history.persisted() == history.entered().take(history.persisted().len() as int)
        }),
{
    history::persisted_is_acknowledged(runner.progress().history);
}

/// What a runner is told.
pub enum CollectEvent<P> {
    /// The first record of a collection has come, at this position.
    First(P),
    /// A failure has come in the place of a first record; the collection is begun all the same.
    FirstFailed,
    /// The collection has been begun.
    Begun { now: Moment },
    /// The record has been pushed.
    Pushed,
    /// Another record has come, at this position.
    Another(P),
    /// No other record comes: the collection has timed out, or the source has ended.
    Closed { ended: bool },
    /// The collection has been finished.
    Finished { acknowledged_at: Moment, checked_at: Moment },
    /// The commit under way has succeeded.
    Committed,
    /// The deadline has been reached while waiting for a first record.
    Deadline,
    /// The source has ended, or has been cut off, between two collections.
    End,
    /// The source, a collection or the commit has failed.
    Failed,
}

/// What a runner is told of the end of a collection.
pub open spec fn finish_event<P, F>(
    outcome: Result<(), F>,
    acknowledged_at: Moment,
    checked_at: Moment,
) -> CollectEvent<P> {
    match outcome {
        Ok(_) => CollectEvent::Finished { acknowledged_at, checked_at },
        Err(_) => CollectEvent::Failed,
    }
}

/// What a runner holds.
pub struct Collecting<C, Policy: CommitPolicy<P>, P> {
    pub progress: Progress<C, Policy, P>,
    pub phase: CollectPhase,
    /// The position of the record that the collection being begun starts with.
    pub first: Option<P>,
}

/// Whether what a runner is told may turn what it holds into `after`.
pub open spec fn collect_moves<C: Checkpoint<P>, Policy: CommitPolicy<P>, P>(
    limits: CollectPolicy,
    before: Collecting<C, Policy, P>,
    event: CollectEvent<P>,
    after: Collecting<C, Policy, P>,
) -> bool {
    match (event, before.phase) {
        (CollectEvent::First(position), CollectPhase::Waiting) => {
            &&& after.progress == before.progress
            &&& after.phase == CollectPhase::Beginning
            &&& after.first == Some(position)
        },
        (CollectEvent::FirstFailed, CollectPhase::Waiting) => {
            &&& after.progress == before.progress
            &&& after.phase == CollectPhase::Beginning
            &&& after.first is None
        },
        (CollectEvent::Begun { now }, CollectPhase::Beginning) => {
            &&& before.first matches Some(position) && before.progress.may_enter(
                seq![position],
                after.progress,
            )
            &&& after.phase == (CollectPhase::Pushing {
                count: 0,
                deadline: now.plus(limits.patience()),
            })
            &&& after.first is None
        },
        (CollectEvent::Pushed, CollectPhase::Pushing { count, deadline }) => {
            &&& after.progress == before.progress
            &&& after.first is None
            &&& after.phase == (if count + 1 == limits.capacity().count() {
                CollectPhase::Finishing { count: (count + 1) as usize, ended: false }
            } else {
                CollectPhase::Gathering { count: (count + 1) as usize, deadline }
            })
        },
        (CollectEvent::Another(position), CollectPhase::Gathering { count, deadline }) => {
            &&& before.progress.may_enter(seq![position], after.progress)
            &&& after.phase == (CollectPhase::Pushing { count, deadline })
            &&& after.first is None
        },
        (CollectEvent::Closed { ended }, CollectPhase::Gathering { count, .. }) => {
            &&& after.progress == before.progress
            &&& after.phase == (CollectPhase::Finishing { count, ended })
            &&& after.first is None
        },
        (
            CollectEvent::Finished { acknowledged_at, checked_at },
            CollectPhase::Finishing { count, ended },
        ) => {
            &&& collect_goes_on(
                before.progress.acknowledge(count, acknowledged_at, checked_at),
                if ended {
                    Onward::Drain
                } else {
                    Onward::Resume
                },
                after.progress,
                after.phase,
            )
            &&& after.first is None
        },
        (CollectEvent::Committed, CollectPhase::Committing { onward }) => {
            &&& collect_goes_on(before.progress.commit(), onward, after.progress, after.phase)
            &&& after.first is None
        },
        (CollectEvent::Deadline, CollectPhase::Waiting) => {
            &&& collect_goes_on(
                before.progress.time_out(),
                Onward::Resume,
                after.progress,
                after.phase,
            )
            &&& after.first is None
        },
        (CollectEvent::End, CollectPhase::Waiting) => {
            &&& collect_goes_on(
                before.progress.finish(),
                Onward::Stop,
                after.progress,
                after.phase,
            )
            &&& after.first is None
        },
        (CollectEvent::Failed, phase) => {
            &&& phase != CollectPhase::Finished
            &&& after == (Collecting { phase: CollectPhase::Finished, ..before })
        },
        _ => false,
    }
}

/// Whether a new runner that is told these things, in order, may come to hold this.
pub open spec fn may_collect<C: Checkpoint<P>, Policy: CommitPolicy<P>, P>(
    limits: CollectPolicy,
    policy: Policy::State,
    events: Seq<CollectEvent<P>>,
    reached: Collecting<C, Policy, P>,
) -> bool
    decreases events.len(),
{
    if events.len() == 0 {
        reached == (Collecting::<C, Policy, P> {
            progress: Progress::start(policy),
            phase: CollectPhase::Waiting,
            first: None,
        })
    } else {
        exists|before: Collecting<C, Policy, P>|
            {
                &&& may_collect(limits, policy, events.drop_last(), before)
                &&& #[trigger] collect_moves(limits, before, events.last(), reached)
            }
    }
}

/// The positions of the records that a runner was told of, in order.
pub open spec fn positions_taken<P>(events: Seq<CollectEvent<P>>) -> Seq<P>
    decreases events.len(),
{
    if events.len() == 0 {
        Seq::empty()
    } else {
        match events.last() {
            CollectEvent::First(position) => positions_taken(events.drop_last()).push(position),
            CollectEvent::Another(position) => positions_taken(events.drop_last()).push(position),
            _ => positions_taken(events.drop_last()),
        }
    }
}

/// Whether a run has failed.
pub open spec fn collecting_failed<P>(events: Seq<CollectEvent<P>>) -> bool {
    exists|i: int| 0 <= i < events.len() && (#[trigger] events[i]) is Failed
}

/// The positions that entered delivery, and the one that is still to enter it.
pub open spec fn held<C: Checkpoint<P>, Policy: CommitPolicy<P>, P>(
    state: Collecting<C, Policy, P>,
) -> Seq<P> {
    match state.first {
        Some(position) => state.progress.history.entered().push(position),
        None => state.progress.history.entered(),
    }
}

/// What a runner is told keeps its progress fit for its phase, and only a record adds to what it
/// holds.
proof fn lemma_collect_moves_keep_fit<C, Policy, P>(
    limits: CollectPolicy,
    before: Collecting<C, Policy, P>,
    event: CollectEvent<P>,
    after: Collecting<C, Policy, P>,
) where C: Checkpoint<P>, Policy: CommitPolicy<P>
    requires
        limits.capacity().count() > 0,
        collect_fits(before.progress, before.phase, limits.capacity().count()),
        before.first is Some ==> before.phase == CollectPhase::Beginning,
        collect_moves(limits, before, event, after),
    ensures
        collect_fits(after.progress, after.phase, limits.capacity().count()),
        after.first is Some && !(event is Failed) ==> after.phase == CollectPhase::Beginning,
        held(after) == (match event {
            CollectEvent::First(position) => held(before).push(position),
            CollectEvent::Another(position) => held(before).push(position),
            _ => held(before),
        }),
        after.phase == CollectPhase::Finished && !(event is Failed)
            ==> after.progress.history.persisted() == after.progress.history.entered()
            && after.progress.history.is_settled(),
{
    let progress = before.progress;
    let history = progress.history;
    let told = match (event, before.phase) {
        (CollectEvent::Deadline, _) => (progress.time_out(), CommitEvent::TimedOut),
        (CollectEvent::End, _) => (progress.finish(), CommitEvent::Finished),
        (
            CollectEvent::Finished { acknowledged_at, checked_at },
            CollectPhase::Finishing { count, .. },
        ) => (
            progress.acknowledge(count, acknowledged_at, checked_at),
            CommitEvent::Acknowledged { records: count, acknowledged_at, checked_at },
        ),
        _ => (progress.commit(), CommitEvent::Committed),
    };
    match event {
        CollectEvent::Begun { .. } => {
            let position = before.first->0;
            commit::entering_keeps_agreement(progress, seq![position], after.progress);
            assert(history.entered() + seq![position] =~= history.entered().push(position));
        },
        CollectEvent::Another(position) => {
            commit::entering_keeps_agreement(progress, seq![position], after.progress);
            assert(history.entered() + seq![position] =~= history.entered().push(position));
        },
        CollectEvent::First(_) | CollectEvent::FirstFailed | CollectEvent::Pushed
        | CollectEvent::Closed { .. } | CollectEvent::Failed => {},
        _ => {
            let drained = told.0.finish();
            commit::operations_keep_agreement(progress, told.1, told.0);
            commit::operations_keep_agreement(told.0, CommitEvent::Finished, drained);
            commit::operations_keep_agreement(told.0, CommitEvent::HandedOut, told.0.hand_out());
            commit::operations_keep_agreement(drained, CommitEvent::HandedOut, drained.hand_out());
            history::closing_keeps_positions(history);
            history::acknowledging_keeps_positions(history);
            history::closing_keeps_positions(history.acknowledge());
            history::closing_keeps_positions(told.0.history);
            let ended = after.progress.history;
            assert(ended.closed.take(ended.closed.len() as int) =~= ended.closed);
            if ended.open.len() == 0 {
                assert(ended.entered() =~= ended.closed.flatten());
            }
        },
    }
}

/// A run goes on by whatever the runner is told next.
pub proof fn collecting_goes_on<C, Policy, P>(
    limits: CollectPolicy,
    policy: Policy::State,
    events: Seq<CollectEvent<P>>,
    before: Collecting<C, Policy, P>,
    event: CollectEvent<P>,
    after: Collecting<C, Policy, P>,
) where C: Checkpoint<P>, Policy: CommitPolicy<P>
    requires
        may_collect(limits, policy, events, before),
        collect_moves(limits, before, event, after),
    ensures
        may_collect(limits, policy, events.push(event), after),
{
    let longer = events.push(event);
    assert(longer.drop_last() =~= events);
    assert(collect_moves(limits, before, longer.last(), after));
}

/// Over a whole run, whatever the runner is told: the records that were taken in entered delivery
/// once each and in order, but for one whose collection is still being begun. No collection is
/// empty or outgrows its limit. What has been committed is a prefix of what has been delivered. A
/// run that ends without a failure has delivered and committed every record.
pub proof fn runs_collect_their_records_in_order<C, Policy, P>(
    limits: CollectPolicy,
    policy: Policy::State,
    events: Seq<CollectEvent<P>>,
    reached: Collecting<C, Policy, P>,
) where C: Checkpoint<P>, Policy: CommitPolicy<P>
    requires
        limits.capacity().count() > 0,
        may_collect(limits, policy, events, reached),
    ensures
        collect_fits(reached.progress, reached.phase, limits.capacity().count()),
        held(reached) == positions_taken(events),
        !collecting_failed(events) ==> (reached.first is Some ==> reached.phase
            == CollectPhase::Beginning),
        reached.phase matches CollectPhase::Finishing { count, .. } ==> 0 < count
            <= limits.capacity().count(),
        reached.progress.history.persisted().len() <= reached.progress.history.acknowledged,
        reached.progress.history.persisted() == positions_taken(events).take(
            reached.progress.history.persisted().len() as int,
        ),
        reached.phase == CollectPhase::Finished && !collecting_failed(events) ==> {
            &&& reached.progress.history.persisted() == positions_taken(events)
            &&& reached.progress.history.acknowledged == positions_taken(events).len()
        },
    decreases events.len(),
{
    if events.len() == 0 {
        assert(Seq::<Seq<P>>::empty().take(0) =~= Seq::empty());
        assert(reached.progress.history.entered() =~= Seq::empty());
    } else {
        let earlier = events.drop_last();
        let before = choose|before: Collecting<C, Policy, P>|
            {
                &&& may_collect(limits, policy, earlier, before)
                &&& #[trigger] collect_moves(limits, before, events.last(), reached)
            };
        runs_collect_their_records_in_order(limits, policy, earlier, before);
        if collecting_failed(earlier) {
            lemma_failures_end_runs(limits, policy, earlier, before);
        }
        if collecting_failed(events) && !collecting_failed(earlier) {
            let i = choose|i: int| 0 <= i < events.len() && (#[trigger] events[i]) is Failed;
            if i < earlier.len() {
                assert(earlier[i] is Failed);
            }
        }
        if collecting_failed(earlier) {
            let i = choose|i: int| 0 <= i < earlier.len() && (#[trigger] earlier[i]) is Failed;
            assert(events[i] is Failed);
        }
        if events.last() is Failed {
            assert(events[events.len() - 1] is Failed);
        }
        lemma_collect_moves_keep_fit(limits, before, events.last(), reached);
    }
    let history = reached.progress.history;
    history::persisted_is_acknowledged(history);
    assert(positions_taken(events).take(history.persisted().len() as int)
        =~= history.entered().take(history.persisted().len() as int));
}

/// A run that has failed is over.
proof fn lemma_failures_end_runs<C, Policy, P>(
    limits: CollectPolicy,
    policy: Policy::State,
    events: Seq<CollectEvent<P>>,
    reached: Collecting<C, Policy, P>,
) where C: Checkpoint<P>, Policy: CommitPolicy<P>
    requires
        may_collect(limits, policy, events, reached),
        collecting_failed(events),
    ensures
        reached.phase == CollectPhase::Finished,
    decreases events.len(),
{
    let earlier = events.drop_last();
    let before = choose|before: Collecting<C, Policy, P>|
        {
            &&& may_collect(limits, policy, earlier, before)
            &&& #[trigger] collect_moves(limits, before, events.last(), reached)
        };
    if !(events.last() is Failed) {
        let i = choose|i: int| 0 <= i < events.len() && (#[trigger] events[i]) is Failed;
        assert(earlier[i] is Failed);
        lemma_failures_end_runs(limits, policy, earlier, before);
    }
}

/// How many records have been taken in since the last collection was finished.
pub open spec fn records_in_collection<P>(events: Seq<CollectEvent<P>>) -> nat
    decreases events.len(),
{
    if events.len() == 0 {
        0
    } else {
        match events.last() {
            CollectEvent::First(_) => records_in_collection(events.drop_last()) + 1,
            CollectEvent::Another(_) => records_in_collection(events.drop_last()) + 1,
            CollectEvent::Finished { .. } => 0,
            _ => records_in_collection(events.drop_last()),
        }
    }
}

/// The moment at which the last collection was begun.
pub open spec fn last_begun<P>(events: Seq<CollectEvent<P>>) -> Option<Moment>
    decreases events.len(),
{
    if events.len() == 0 {
        None
    } else {
        match events.last() {
            CollectEvent::Begun { now } => Some(now),
            _ => last_begun(events.drop_last()),
        }
    }
}

/// What a policy is told over a run, in order: every position as it enters delivery, every finished
/// collection with the number of its records, every deadline, and every commit.
pub open spec fn policy_hears<Policy: CommitPolicy<P>, P>(
    policy: Policy::State,
    events: Seq<CollectEvent<P>>,
) -> Seq<PolicyEvent<P>>
    decreases events.len(),
{
    if events.len() == 0 {
        Seq::empty()
    } else {
        let earlier = events.drop_last();
        let heard = policy_hears::<Policy, P>(policy, earlier);
        match events.last() {
            CollectEvent::Begun { .. } => heard.push(
                PolicyEvent::Position(positions_taken(earlier).last()),
            ),
            CollectEvent::Another(position) => heard.push(PolicyEvent::Position(position)),
            CollectEvent::Deadline => heard.push(PolicyEvent::TimedOut),
            CollectEvent::Finished { acknowledged_at, checked_at } => {
                policy::hears_acknowledgement::<P, Policy>(
                    policy,
                    heard,
                    records_in_collection(earlier),
                    acknowledged_at,
                    checked_at,
                )
            },
            CollectEvent::Committed => heard.push(PolicyEvent::Committed),
            _ => heard,
        }
    }
}

/// Throughout one collection, from the moment it has been begun until no other record is taken in,
/// there is one deadline: the moment at which the collection was begun and the timeout. No record
/// that is pushed changes it.
pub proof fn collections_have_one_deadline<C, Policy, P>(
    limits: CollectPolicy,
    policy: Policy::State,
    events: Seq<CollectEvent<P>>,
    reached: Collecting<C, Policy, P>,
) where C: Checkpoint<P>, Policy: CommitPolicy<P>
    requires
        limits.patience().nanos() <= MAX_READING,
        may_collect(limits, policy, events, reached),
        forall|i: int|
            0 <= i < events.len() ==> ((#[trigger] events[i]) matches CollectEvent::Begun { now }
                ==> now.is_reading()),
    ensures
        match reached.phase {
            CollectPhase::Pushing { deadline, .. } => {
                &&& last_begun(events) matches Some(now)
                &&& deadline.nanos == now.nanos + limits.patience().nanos()
            },
            CollectPhase::Gathering { deadline, .. } => {
                &&& last_begun(events) matches Some(now)
                &&& deadline.nanos == now.nanos + limits.patience().nanos()
            },
            _ => true,
        },
    decreases events.len(),
{
    if events.len() > 0 {
        let earlier = events.drop_last();
        let before = choose|before: Collecting<C, Policy, P>|
            {
                &&& may_collect(limits, policy, earlier, before)
                &&& #[trigger] collect_moves(limits, before, events.last(), reached)
            };
        assert(events[events.len() - 1] == events.last());
        assert forall|i: int| 0 <= i < earlier.len() implies (
        (#[trigger] earlier[i]) matches CollectEvent::Begun { now } ==> now.is_reading()) by {
            assert(earlier[i] == events[i]);
        }
        collections_have_one_deadline(limits, policy, earlier, before);
    }
}

/// Within one collection, what is told to the runner between two of its phases leaves the deadline
/// alone: the collection goes on waiting for the same moment until it is finished.
pub proof fn pushing_keeps_the_deadline<C, Policy, P>(
    limits: CollectPolicy,
    before: Collecting<C, Policy, P>,
    event: CollectEvent<P>,
    after: Collecting<C, Policy, P>,
) where C: Checkpoint<P>, Policy: CommitPolicy<P>
    requires
        collect_fits(before.progress, before.phase, limits.capacity().count()),
        collect_moves(limits, before, event, after),
    ensures
        (before.phase, after.phase) matches (
            CollectPhase::Pushing { count: pushed, deadline: earlier },
            CollectPhase::Gathering { count, deadline },
        ) ==> deadline == earlier && count == pushed + 1,
        (before.phase, after.phase) matches (
            CollectPhase::Gathering { count: gathered, deadline: earlier },
            CollectPhase::Pushing { count, deadline },
        ) ==> deadline == earlier && count == gathered,
        before.phase is Pushing ==> !(after.phase is Pushing),
        before.phase is Gathering ==> !(after.phase is Gathering),
{
}

/// Every phase of a collection counts exactly the records that were taken in for it. A collection is
/// finished once it has reached its size, or else once no other record comes; it drains the source
/// only where the source has ended.
pub proof fn collections_count_their_records<C, Policy, P>(
    limits: CollectPolicy,
    policy: Policy::State,
    events: Seq<CollectEvent<P>>,
    reached: Collecting<C, Policy, P>,
) where C: Checkpoint<P>, Policy: CommitPolicy<P>
    requires
        limits.capacity().count() > 0,
        may_collect(limits, policy, events, reached),
    ensures
        reached.progress.history.acknowledged + records_in_collection(events) == positions_taken(
            events,
        ).len(),
        match reached.phase {
            CollectPhase::Waiting => records_in_collection(events) == 0,
            CollectPhase::Beginning => records_in_collection(events) == (if reached.first is Some {
                1nat
            } else {
                0
            }),
            CollectPhase::Pushing { count, .. } => count + 1 == records_in_collection(events),
            CollectPhase::Gathering { count, .. } => {
                &&& count == records_in_collection(events)
                &&& count < limits.capacity().count()
            },
            CollectPhase::Finishing { count, ended } => {
                &&& count == records_in_collection(events)
                &&& events.last() is Closed || count == limits.capacity().count()
                &&& ended <==> events.last() == CollectEvent::<P>::Closed { ended: true }
            },
            CollectPhase::Committing { .. } => records_in_collection(events) == 0,
            CollectPhase::Finished => true,
        },
    decreases events.len(),
{
    if events.len() > 0 {
        let earlier = events.drop_last();
        let before = choose|before: Collecting<C, Policy, P>|
            {
                &&& may_collect(limits, policy, earlier, before)
                &&& #[trigger] collect_moves(limits, before, events.last(), reached)
            };
        runs_collect_their_records_in_order(limits, policy, earlier, before);
        collections_count_their_records(limits, policy, earlier, before);
        let progress = before.progress;
        match events.last() {
            CollectEvent::Begun { .. } => {
                commit::entering_keeps_agreement(
                    progress,
                    seq![before.first->0],
                    reached.progress,
                );
            },
            CollectEvent::Another(position) => {
                commit::entering_keeps_agreement(progress, seq![position], reached.progress);
            },
            CollectEvent::Deadline => commit::deadlines_commit_as_asked(progress),
            CollectEvent::End => commit::ends_leave_nothing_open(progress),
            CollectEvent::Finished { acknowledged_at, checked_at } => {
                let count = before.phase->Finishing_count;
                let told = progress.acknowledge(count, acknowledged_at, checked_at);
                commit::acknowledgements_commit_as_asked(
                    progress,
                    count,
                    acknowledged_at,
                    checked_at,
                );
                if collecting_failed(earlier) {
                    lemma_failures_end_runs(limits, policy, earlier, before);
                }
            },
            _ => {},
        }
    }
    runs_collect_their_records_in_order(limits, policy, events, reached);
}

/// Over a whole run the policy hears of every position, of every finished collection with exactly as
/// many records as were taken in for it, of every deadline and of every commit, and of nothing else.
/// The records that it is told of add up to the positions that have been acknowledged.
pub proof fn policies_hear_of_every_collection<C, Policy, P>(
    limits: CollectPolicy,
    policy: Policy::State,
    events: Seq<CollectEvent<P>>,
    reached: Collecting<C, Policy, P>,
) where C: Checkpoint<P>, Policy: CommitPolicy<P>
    requires
        limits.capacity().count() > 0,
        may_collect(limits, policy, events, reached),
    ensures
        reached.progress.policy == policy::told::<P, Policy>(
            policy,
            policy_hears::<Policy, P>(policy, events),
        ),
        policy::records_told(policy_hears::<Policy, P>(policy, events))
            == reached.progress.history.acknowledged,
    decreases events.len(),
{
    if events.len() > 0 {
        let earlier = events.drop_last();
        let before = choose|before: Collecting<C, Policy, P>|
            {
                &&& may_collect(limits, policy, earlier, before)
                &&& #[trigger] collect_moves(limits, before, events.last(), reached)
            };
        let heard = policy_hears::<Policy, P>(policy, earlier);
        let progress = before.progress;
        policies_hear_of_every_collection(limits, policy, earlier, before);
        runs_collect_their_records_in_order(limits, policy, earlier, before);
        collections_count_their_records(limits, policy, earlier, before);
        match events.last() {
            CollectEvent::Begun { .. } => {
                let position = before.first->0;
                assert(positions_taken(earlier).last() == position);
                commit::entering_keeps_agreement(progress, seq![position], reached.progress);
                commit::lemma_policy_hears_of_one(progress, position, reached.progress);
                policy::lemma_told_last::<P, Policy>(
                    policy,
                    heard,
                    PolicyEvent::Position(position),
                );
            },
            CollectEvent::Another(position) => {
                commit::entering_keeps_agreement(progress, seq![position], reached.progress);
                commit::lemma_policy_hears_of_one(progress, position, reached.progress);
                policy::lemma_told_last::<P, Policy>(
                    policy,
                    heard,
                    PolicyEvent::Position(position),
                );
            },
            CollectEvent::Deadline => {
                commit::deadlines_commit_as_asked(progress);
                policy::lemma_told_last::<P, Policy>(policy, heard, PolicyEvent::TimedOut);
            },
            CollectEvent::End => commit::ends_leave_nothing_open(progress),
            CollectEvent::Finished { acknowledged_at, checked_at } => {
                let count = before.phase->Finishing_count;
                commit::acknowledgements_commit_as_asked(
                    progress,
                    count,
                    acknowledged_at,
                    checked_at,
                );
                policy::lemma_hears_acknowledgement::<P, Policy>(
                    policy,
                    heard,
                    count as nat,
                    acknowledged_at,
                    checked_at,
                );
            },
            CollectEvent::Committed => {
                policy::lemma_told_last::<P, Policy>(policy, heard, PolicyEvent::Committed);
            },
            _ => {},
        }
    }
}

/// What is to be done next tells what the runner then waits for. A run waits for the deadline of the
/// progress that it holds, and only before the source has ended; it commits exactly the first epoch
/// that may be persisted and has not been, and once the source has ended also what is left open; it is
/// complete only once the source has ended and nothing is left to commit.
pub proof fn steps_tell_the_phase<R, C, Policy, P, F>(
    progress: Progress<C, Policy, P>,
    onward: Onward,
    after: Progress<C, Policy, P>,
    phase: CollectPhase,
    step: CollectStep<R, C, F>,
) where C: Checkpoint<P>, Policy: CommitPolicy<P>
    requires
        progress.is_consistent(),
        progress.history.committed == progress.history.handed,
        next_collect_step(progress, onward, after, phase, step),
    ensures
        after.policy == progress.policy,
        after.history.entered() == progress.history.entered(),
        after.history.acknowledged == progress.history.acknowledged,
        after.history.persisted() == progress.history.persisted(),
        step is Wait <==> phase == CollectPhase::Waiting,
        step is Commit <==> phase is Committing,
        step is Complete <==> phase == CollectPhase::Finished,
        step is Wait || step is Commit || step is Complete,
        progress.history.committed < progress.history.eligible ==> step is Commit && phase
            == (CollectPhase::Committing { onward }),
        progress.history.committed == progress.history.eligible ==> match onward {
            Onward::Resume => step is Wait,
            Onward::Drain => if progress.history.persisted().len()
                < progress.history.entered().len() {
                step is Commit && phase == (CollectPhase::Committing { onward: Onward::Stop })
            } else {
                step is Complete
            },
            Onward::Stop => step is Complete,
        },
        step matches CollectStep::Wait(deadline) ==> deadline == after.deadline(),
        step matches CollectStep::Commit(epoch) ==> {
            &&& after.history.handed == after.history.committed + 1
            &&& after.history.committed == progress.history.committed
            &&& checkpoint::epochs_are_independent::<P, C>() ==> epoch.content()
                == checkpoint::epoch_of::<P, C>(
                after.history.closed[after.history.committed as int],
            )
        },
{
    let drained = progress.finish();
    let history = progress.history;
    commit::operations_keep_agreement(progress, CommitEvent::Finished, drained);
    history::closing_keeps_positions(history);
    commit::ends_leave_nothing_open(progress);
    if history.committed == history.eligible {
        let rest = history.closed.skip(history.committed as int);
        let head = history.closed.take(history.committed as int);
        assert(history.closed =~= head + rest);
        vstd::seq_lib::lemma_flatten_concat(head, rest);
        if rest.len() > 0 {
            assert(rest[0] == history.closed[history.committed as int]);
            rest.lemma_flatten_length_ge_single_element_length(0);
        } else {
            assert(rest =~= Seq::empty());
            assert(rest.flatten().len() == 0);
        }
    }
}

/// When a collection has been finished, the policy is told exactly how many positions entered delivery
/// since the acknowledgement before, and all of them are acknowledged.
pub proof fn acknowledgements_tell_what_entered<C, Policy, P>(
    limits: CollectPolicy,
    before: Collecting<C, Policy, P>,
    acknowledged_at: Moment,
    checked_at: Moment,
    after: Collecting<C, Policy, P>,
) where C: Checkpoint<P>, Policy: CommitPolicy<P>
    requires
        collect_fits(before.progress, before.phase, limits.capacity().count()),
        collect_moves(
            limits,
            before,
            CollectEvent::Finished { acknowledged_at, checked_at },
            after,
        ),
    ensures
        ({
            let history = before.progress.history;
            let records = history.entered().len() - history.acknowledged;
            let (told, action) = Policy::delivery_seen(
                before.progress.policy,
                records as usize,
                acknowledged_at,
            );
            &&& 0 < records <= usize::MAX
            &&& after.progress.policy == (if action == CommitAction::Continue
                && commit::is_reached(Policy::next_deadline(told), checked_at) {
                Policy::timeout_seen(told).0
            } else {
                told
            })
            &&& after.progress.history.acknowledged == history.entered().len()
            &&& after.progress.history.entered() == history.entered()
        }),
{
    let count = before.phase->Finishing_count;
    let told = before.progress.acknowledge(count, acknowledged_at, checked_at);
    commit::acknowledgements_commit_as_asked(
        before.progress,
        count,
        acknowledged_at,
        checked_at,
    );
    commit::operations_keep_agreement(
        before.progress,
        CommitEvent::Acknowledged { records: count, acknowledged_at, checked_at },
        told,
    );
    commit::ends_leave_nothing_open(told);
    history::closing_keeps_positions(told.history);
}

/// A failure ends the run with that failure and without any progress, whether it comes in the place of
/// a record, from beginning a collection or from finishing it. Where there is no failure, the record is
/// pushed, at its own position and with the deadline of its collection.
pub proof fn failures_end_collections<T, C, Policy, P, F>(
    runner: CollectingRunner<T, C, Policy, P, F>,
    failure: F,
    record: Record<T, P>,
    count: usize,
    deadline: Moment,
    now: Moment,
    after: CollectingRunner<T, C, Policy, P, F>,
    step: CollectStep<Record<T, P>, C, F>,
) where C: Checkpoint<P>, Policy: CommitPolicy<P>
    ensures
        runner.begun(Err(failure), now, after, step) || runner.pushes(
            Err(failure),
            count,
            deadline,
            after,
            step,
        ) || runner.finished(Err(failure), now, now, after, step) ==> {
            &&& step == CollectStep::<Record<T, P>, C, F>::Fail(failure)
            &&& after.phase() == CollectPhase::Finished
            &&& after.progress() == runner.progress()
        },
        runner.pushes(Ok(record), count, deadline, after, step) ==> {
            &&& step == CollectStep::<Record<T, P>, C, F>::Push(record)
            &&& after.phase() == (CollectPhase::Pushing { count, deadline })
            &&& after.progress().history.entered().last() == record.at()
        },
        runner.first() == Some(Ok::<Record<T, P>, F>(record)) && runner.begun(
            Ok(()),
            now,
            after,
            step,
        ) ==> step == CollectStep::<Record<T, P>, C, F>::Push(record),
        runner.first() == Some(Err::<Record<T, P>, F>(failure)) && runner.begun(
            Ok(()),
            now,
            after,
            step,
        ) ==> step == CollectStep::<Record<T, P>, C, F>::Fail(failure),
        runner.begun_event(Err(failure), now) is Failed,
        !(runner.first() matches Some(Ok(_))) ==> runner.begun_event(Ok(()), now) is Failed,
        runner.first() matches Some(Ok(_)) ==> runner.begun_event(Ok(()), now)
            == (CollectEvent::<P>::Begun { now }),
        finish_event::<P, F>(Err(failure), now, now) is Failed,
        finish_event::<P, F>(Ok(()), now, deadline) == (CollectEvent::<P>::Finished {
            acknowledged_at: now,
            checked_at: deadline,
        }),
{
}

/// Whether what a runner is told is the end of the source.
pub open spec fn is_end<P>(event: CollectEvent<P>) -> bool {
    event is End || event == (CollectEvent::<P>::Closed { ended: true })
}

/// Whether a runner has been told that the source has ended.
pub open spec fn source_ended<P>(events: Seq<CollectEvent<P>>) -> bool {
    exists|i: int| 0 <= i < events.len() && is_end(#[trigger] events[i])
}

/// A run whose source has ended takes in nothing more: it finishes the collection under way, commits
/// what is left, and is over. A run whose source has not ended, and that has not failed, is not over,
/// and goes on after its commits.
pub proof fn runs_end_with_their_source<C, Policy, P>(
    limits: CollectPolicy,
    policy: Policy::State,
    events: Seq<CollectEvent<P>>,
    reached: Collecting<C, Policy, P>,
) where C: Checkpoint<P>, Policy: CommitPolicy<P>
    requires
        may_collect(limits, policy, events, reached),
    ensures
        source_ended(events) ==> match reached.phase {
            CollectPhase::Finishing { ended, .. } => ended,
            CollectPhase::Committing { onward } => onward != Onward::Resume,
            CollectPhase::Finished => true,
            _ => false,
        },
        !source_ended(events) && !collecting_failed(events) ==> match reached.phase {
            CollectPhase::Finishing { ended, .. } => !ended,
            CollectPhase::Committing { onward } => onward == Onward::Resume,
            CollectPhase::Finished => false,
            _ => true,
        },
        collecting_failed(events) ==> reached.phase == CollectPhase::Finished,
    decreases events.len(),
{
    if collecting_failed(events) {
        lemma_failures_end_runs(limits, policy, events, reached);
    }
    if events.len() > 0 {
        let earlier = events.drop_last();
        let before = choose|before: Collecting<C, Policy, P>|
            {
                &&& may_collect(limits, policy, earlier, before)
                &&& #[trigger] collect_moves(limits, before, events.last(), reached)
            };
        runs_end_with_their_source(limits, policy, earlier, before);
        assert(events[events.len() - 1] == events.last());
        if source_ended(events) && !is_end(events.last()) {
            let i = choose|i: int| 0 <= i < events.len() && is_end(#[trigger] events[i]);
            assert(earlier[i] == events[i]);
        }
        if source_ended(earlier) {
            let i = choose|i: int| 0 <= i < earlier.len() && is_end(#[trigger] earlier[i]);
            assert(is_end(events[i]));
        }
        if collecting_failed(earlier) {
            let i = choose|i: int| 0 <= i < earlier.len() && (#[trigger] earlier[i]) is Failed;
            assert(events[i] is Failed);
        }
    }
}

} // verus!
