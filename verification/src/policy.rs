//! When delivery units close and when delivered progress is committed.
use crate::error::{BatchConfigError, CollectConfigError, CommitConfigError};
use crate::num::NonZeroUsize;
use crate::time::{Duration, Moment, MAX_READING};
use vstd::prelude::*;

verus! {

/// Type-state marker for a pipeline stage that has not been configured.
#[derive(Debug, Default, Clone, Copy)]
pub struct Unset;

/// Type-state marker carrying validated batch settings.
pub struct Batched<CP = CommitEach> {
    pub policy: BatchPolicy,
    pub commit_policy: CP,
}

/// Type-state marker selecting one-record-at-a-time sink delivery.
pub struct Each<CP = CommitEach> {
    pub commit_policy: CP,
}

/// Type-state marker selecting incremental, batch-scoped collection.
pub struct Collected<CP = CommitEach> {
    pub policy: CollectPolicy,
    pub commit_policy: CP,
}

/// Action requested while observing a source position.
#[derive(Debug, Clone, Copy, PartialEq, Eq, Structural)]
pub enum PositionAction {
    /// Add the current position to the open checkpoint epoch.
    Continue,
    /// Close the open checkpoint epoch before the current position, then start the next epoch with
    /// the current position.
    StartNewEpoch,
}

/// Action requested at an acknowledgement or timeout boundary.
#[derive(Debug, Clone, Copy, PartialEq, Eq, Structural)]
pub enum CommitAction {
    Continue,
    CommitLatest,
}

/// Controls when successfully delivered source progress is committed.
///
/// Position actions are evaluated as records enter delivery, but completed checkpoint epochs do not
/// become eligible until the complete delivery unit is acknowledged. A delivery unit is one record
/// for [`Each`], one complete batch for [`Batched`], or one finished collection for [`Collected`].
/// Fanout acknowledges the unit only after every branch succeeds.
///
/// A timeout starts with the first acknowledgement after the previous commit. It is not a
/// cancellation deadline: if it expires while a sink or collector is running, that operation is
/// allowed to finish and the commit occurs at the next safe boundary. Clean EOF and graceful
/// shutdown commit any remaining acknowledged progress regardless of the configured count. A failed
/// delivery is not acknowledged and does not cause an opportunistic commit.
///
/// What a policy does is a function of its own state and of what it is told. A verified
/// implementation says which. The provided model is for implementations that are not verified: each
/// of its functions is one fixed value, of which nothing is known, whatever its arguments.
pub trait CommitPolicy<P>: Sized {
    /// The model of a policy's state.
    type State;

    /// The policy's state.
    open spec fn state(&self) -> Self::State {
        vstd::pervasive::arbitrary()
    }

    /// The policy after it has seen a position, and the action that it asks for.
    open spec fn position_seen(state: Self::State, position: P) -> (
        Self::State,
        PositionAction,
    ) {
        vstd::pervasive::arbitrary()
    }

    /// The policy after an acknowledgement, and the action that it asks for.
    open spec fn delivery_seen(state: Self::State, records: usize, now: Moment) -> (
        Self::State,
        CommitAction,
    ) {
        vstd::pervasive::arbitrary()
    }

    /// The next commit deadline, if any.
    open spec fn next_deadline(state: Self::State) -> Option<Moment> {
        vstd::pervasive::arbitrary()
    }

    /// The policy after its deadline, and the action that it asks for.
    open spec fn timeout_seen(state: Self::State) -> (Self::State, CommitAction) {
        vstd::pervasive::arbitrary()
    }

    /// The policy after a commit.
    open spec fn commit_seen(state: Self::State) -> Self::State {
        vstd::pervasive::arbitrary()
    }

    /// Observe a position immediately before it enters an ordered delivery attempt.
    fn on_position(&mut self, position: &P) -> (action: PositionAction)
        ensures
            (final(self).state(), action) == Self::position_seen(old(self).state(), *position),
    ;

    /// Observe one delivery unit, successfully acknowledged at `now`.
    fn on_acknowledged(&mut self, records: usize, now: Moment) -> (action: CommitAction)
        requires
            now.is_reading(),
        ensures
            (final(self).state(), action) == Self::delivery_seen(old(self).state(), records, now),
    ;

    /// Return the next commit deadline, if any.
    fn deadline(&self) -> (deadline: Option<Moment>)
        ensures
            deadline == Self::next_deadline(self.state()),
    ;

    /// Handle a deadline at a safe boundary.
    ///
    /// An implementation returning [`CommitAction::Continue`] must clear or advance its deadline
    /// to avoid the runner immediately observing the same deadline again.
    fn on_timeout(&mut self) -> (action: CommitAction)
        ensures
            (final(self).state(), action) == Self::timeout_seen(old(self).state()),
    ;

    /// Observe one successfully persisted checkpoint epoch.
    fn on_committed(&mut self)
        ensures
            final(self).state() == Self::commit_seen(old(self).state()),
    ;
}

/// The sum of two counts, or the largest count where that is smaller.
pub open spec fn saturating_sum(left: usize, right: usize) -> usize {
    if left + right <= usize::MAX {
        (left + right) as usize
    } else {
        usize::MAX
    }
}

/// What a count of acknowledged records asks for.
pub open spec fn action_at(acknowledged: usize, records: NonZeroUsize) -> CommitAction {
    if acknowledged >= records.count() {
        CommitAction::CommitLatest
    } else {
        CommitAction::Continue
    }
}

/// Commit after every successfully acknowledged delivery unit.
#[derive(Debug, Default, Clone, Copy)]
pub struct CommitEach;

impl<P> CommitPolicy<P> for CommitEach {
    type State = CommitEach;

    open spec fn state(&self) -> CommitEach {
        *self
    }

    open spec fn position_seen(state: Self, position: P) -> (Self, PositionAction) {
        (state, PositionAction::Continue)
    }

    open spec fn delivery_seen(state: Self, records: usize, now: Moment) -> (Self, CommitAction) {
        (state, CommitAction::CommitLatest)
    }

    open spec fn next_deadline(state: Self) -> Option<Moment> {
        None
    }

    open spec fn timeout_seen(state: Self) -> (Self, CommitAction) {
        (state, CommitAction::CommitLatest)
    }

    open spec fn commit_seen(state: Self) -> Self {
        state
    }

    fn on_position(&mut self, _position: &P) -> (action: PositionAction) {
        PositionAction::Continue
    }

    fn on_acknowledged(&mut self, _records: usize, _now: Moment) -> (action: CommitAction) {
        CommitAction::CommitLatest
    }

    fn deadline(&self) -> (deadline: Option<Moment>) {
        None
    }

    fn on_timeout(&mut self) -> (action: CommitAction) {
        CommitAction::CommitLatest
    }

    fn on_committed(&mut self) {
    }
}

/// Commit after at least a configured number of records have been acknowledged.
#[derive(Debug, Clone, Copy)]
pub struct AfterRecords {
    /// The threshold.
    pub records: NonZeroUsize,
    /// Records acknowledged since the last commit.
    pub acknowledged: usize,
}

impl AfterRecords {
    /// Construct a policy from a validated nonzero record count.
    pub fn new(records: NonZeroUsize) -> (policy: Self)
        ensures
            policy == (AfterRecords { records, acknowledged: 0 }),
    {
        Self { records, acknowledged: 0 }
    }

    /// Validate a record count and construct a policy.
    pub fn try_new(records: usize) -> (policy: Result<Self, CommitConfigError>)
        ensures
            policy is Ok <==> records != 0,
            policy matches Ok(p) ==> p.records.count() == records && p.acknowledged == 0,
            policy matches Err(e) ==> e == CommitConfigError::ZeroRecords,
    {
        match NonZeroUsize::new(records) {
            Some(records) => Ok(Self::new(records)),
            None => Err(CommitConfigError::ZeroRecords),
        }
    }
}

impl<P> CommitPolicy<P> for AfterRecords {
    type State = AfterRecords;

    open spec fn state(&self) -> AfterRecords {
        *self
    }

    open spec fn position_seen(state: Self, position: P) -> (Self, PositionAction) {
        (state, PositionAction::Continue)
    }

    open spec fn delivery_seen(state: Self, records: usize, now: Moment) -> (Self, CommitAction) {
        let acknowledged = saturating_sum(state.acknowledged, records);
        (AfterRecords { acknowledged, ..state }, action_at(acknowledged, state.records))
    }

    open spec fn next_deadline(state: Self) -> Option<Moment> {
        None
    }

    open spec fn timeout_seen(state: Self) -> (Self, CommitAction) {
        (state, CommitAction::CommitLatest)
    }

    open spec fn commit_seen(state: Self) -> Self {
        AfterRecords { acknowledged: 0, ..state }
    }

    fn on_position(&mut self, _position: &P) -> (action: PositionAction) {
        PositionAction::Continue
    }

    // Units are never split, so one may go over the threshold.
    fn on_acknowledged(&mut self, records: usize, _now: Moment) -> (action: CommitAction) {
        self.acknowledged = self.acknowledged.saturating_add(records);
        if self.acknowledged >= self.records.get() {
            CommitAction::CommitLatest
        } else {
            CommitAction::Continue
        }
    }

    fn deadline(&self) -> (deadline: Option<Moment>) {
        None
    }

    fn on_timeout(&mut self) -> (action: CommitAction) {
        CommitAction::CommitLatest
    }

    fn on_committed(&mut self) {
        self.acknowledged = 0;
    }
}

/// Commit after a record count or timeout, whichever is reached first.
#[derive(Debug, Clone, Copy)]
pub struct AfterRecordsOrTimeout {
    /// The threshold.
    pub records: NonZeroUsize,
    /// The longest wait after the first acknowledgement.
    pub timeout: Duration,
    /// Records acknowledged since the last commit.
    pub acknowledged: usize,
    /// When the wait ends, once a record has been acknowledged.
    pub deadline: Option<Moment>,
}

impl AfterRecordsOrTimeout {
    /// Construct a policy from a validated count and a nonzero timeout.
    pub fn new(records: NonZeroUsize, timeout: Duration) -> (policy: Result<
        Self,
        CommitConfigError,
    >)
        ensures
            policy is Ok <==> timeout.nanos() != 0,
            policy matches Ok(p) ==> p == (AfterRecordsOrTimeout {
                records,
                timeout,
                acknowledged: 0,
                deadline: None,
            }),
            policy matches Err(e) ==> e == CommitConfigError::ZeroTimeout,
    {
        if timeout.is_zero() {
            return Err(CommitConfigError::ZeroTimeout);
        }
        Ok(Self { records, timeout, acknowledged: 0, deadline: None })
    }

    /// Validate a record count and timeout and construct a policy.
    pub fn try_new(records: usize, timeout: Duration) -> (policy: Result<Self, CommitConfigError>)
        ensures
            policy is Ok <==> records != 0 && timeout.nanos() != 0,
            policy matches Ok(p) ==> p.records.count() == records && p.timeout == timeout
                && p.acknowledged == 0 && p.deadline is None,
            policy matches Err(e) ==> e == (if records == 0 {
                CommitConfigError::ZeroRecords
            } else {
                CommitConfigError::ZeroTimeout
            }),
    {
        match NonZeroUsize::new(records) {
            Some(records) => Self::new(records, timeout),
            None => Err(CommitConfigError::ZeroRecords),
        }
    }
}

impl<P> CommitPolicy<P> for AfterRecordsOrTimeout {
    type State = AfterRecordsOrTimeout;

    open spec fn state(&self) -> AfterRecordsOrTimeout {
        *self
    }

    open spec fn position_seen(state: Self, position: P) -> (Self, PositionAction) {
        (state, PositionAction::Continue)
    }

    open spec fn delivery_seen(state: Self, records: usize, now: Moment) -> (Self, CommitAction) {
        let acknowledged = saturating_sum(state.acknowledged, records);
        let deadline = match state.deadline {
            Some(deadline) => Some(deadline),
            None => Some(now.plus(state.timeout)),
        };
        (
            AfterRecordsOrTimeout { acknowledged, deadline, ..state },
            action_at(acknowledged, state.records),
        )
    }

    open spec fn next_deadline(state: Self) -> Option<Moment> {
        state.deadline
    }

    open spec fn timeout_seen(state: Self) -> (Self, CommitAction) {
        (state, CommitAction::CommitLatest)
    }

    open spec fn commit_seen(state: Self) -> Self {
        AfterRecordsOrTimeout { acknowledged: 0, deadline: None, ..state }
    }

    fn on_position(&mut self, _position: &P) -> (action: PositionAction) {
        PositionAction::Continue
    }

    fn on_acknowledged(&mut self, records: usize, now: Moment) -> (action: CommitAction) {
        self.acknowledged = self.acknowledged.saturating_add(records);
        if self.deadline.is_none() {
            self.deadline = Some(now.after(self.timeout));
        }
        if self.acknowledged >= self.records.get() {
            CommitAction::CommitLatest
        } else {
            CommitAction::Continue
        }
    }

    fn deadline(&self) -> (deadline: Option<Moment>) {
        self.deadline
    }

    fn on_timeout(&mut self) -> (action: CommitAction) {
        CommitAction::CommitLatest
    }

    fn on_committed(&mut self) {
        self.acknowledged = 0;
        self.deadline = None;
    }
}

/// How many records several acknowledgements cover.
pub open spec fn records_acknowledged(acknowledgements: Seq<(usize, Moment)>) -> nat
    decreases acknowledgements.len(),
{
    if acknowledgements.len() == 0 {
        0
    } else {
        records_acknowledged(acknowledgements.drop_last()) + acknowledgements.last().0 as nat
    }
}

/// A count, or the largest `usize` where that is smaller.
pub open spec fn saturated(count: nat) -> usize {
    if count <= usize::MAX {
        count as usize
    } else {
        usize::MAX
    }
}

/// A policy after several acknowledgements, in order.
pub open spec fn after_acknowledgements<P, Policy: CommitPolicy<P>>(
    policy: Policy::State,
    acknowledgements: Seq<(usize, Moment)>,
) -> Policy::State
    decreases acknowledgements.len(),
{
    if acknowledgements.len() == 0 {
        policy
    } else {
        Policy::delivery_seen(
            after_acknowledgements::<P, Policy>(policy, acknowledgements.drop_last()),
            acknowledgements.last().0,
            acknowledgements.last().1,
        ).0
    }
}

/// The action that a policy asks for at the last of several acknowledgements.
pub open spec fn action_at_last<P, Policy: CommitPolicy<P>>(
    policy: Policy::State,
    acknowledgements: Seq<(usize, Moment)>,
) -> CommitAction {
    Policy::delivery_seen(
        after_acknowledgements::<P, Policy>(policy, acknowledgements.drop_last()),
        acknowledgements.last().0,
        acknowledgements.last().1,
    ).1
}

/// The wait of a count-or-time policy starts with the first acknowledgement after a commit, and no
/// later acknowledgement moves its end.
pub proof fn timer_starts_at_first_acknowledgement<P>(
    policy: AfterRecordsOrTimeout,
    acknowledgements: Seq<(usize, Moment)>,
)
    ensures
        ({
            let committed = <AfterRecordsOrTimeout as CommitPolicy<P>>::commit_seen(policy);
            let told = after_acknowledgements::<P, AfterRecordsOrTimeout>(
                committed,
                acknowledgements,
            );
            &&& told.timeout == policy.timeout
            &&& <AfterRecordsOrTimeout as CommitPolicy<P>>::next_deadline(told) == (
            if acknowledgements.len() == 0 {
                None
            } else {
                Some(acknowledgements[0].1.plus(policy.timeout))
            })
        }),
    decreases acknowledgements.len(),
{
    if acknowledgements.len() > 0 {
        timer_starts_at_first_acknowledgement::<P>(policy, acknowledgements.drop_last());
    }
}

/// A count policy asks for a commit exactly when the records acknowledged since the last commit have
/// reached its threshold, however they were cut into units; the count stops at the largest `usize`.
pub proof fn counts_add_up<P>(policy: AfterRecords, acknowledgements: Seq<(usize, Moment)>)
    ensures
        ({
            let committed = <AfterRecords as CommitPolicy<P>>::commit_seen(policy);
            let told = after_acknowledgements::<P, AfterRecords>(committed, acknowledgements);
            let records = records_acknowledged(acknowledgements);
            &&& told == (AfterRecords { acknowledged: saturated(records), ..policy })
            &&& acknowledgements.len() > 0 ==> (action_at_last::<P, AfterRecords>(
                committed,
                acknowledgements,
            ) == CommitAction::CommitLatest <==> records >= policy.records.count())
        }),
    decreases acknowledgements.len(),
{
    if acknowledgements.len() > 0 {
        counts_add_up::<P>(policy, acknowledgements.drop_last());
    }
}

/// A count-or-time policy counts as a count policy does.
pub proof fn timed_counts_add_up<P>(
    policy: AfterRecordsOrTimeout,
    acknowledgements: Seq<(usize, Moment)>,
)
    ensures
        ({
            let committed = <AfterRecordsOrTimeout as CommitPolicy<P>>::commit_seen(policy);
            let told = after_acknowledgements::<P, AfterRecordsOrTimeout>(
                committed,
                acknowledgements,
            );
            let records = records_acknowledged(acknowledgements);
            &&& told.acknowledged == saturated(records)
            &&& told.records == policy.records
            &&& acknowledgements.len() > 0 ==> (action_at_last::<P, AfterRecordsOrTimeout>(
                committed,
                acknowledgements,
            ) == CommitAction::CommitLatest <==> records >= policy.records.count())
        }),
    decreases acknowledgements.len(),
{
    if acknowledgements.len() > 0 {
        timed_counts_add_up::<P>(policy, acknowledgements.drop_last());
    }
}

/// Validated limits for an incremental collection.
#[derive(Debug, Clone, Copy)]
pub struct CollectPolicy {
    size: NonZeroUsize,
    timeout: Duration,
}

impl CollectPolicy {
    #[verifier::type_invariant]
    spec fn is_valid(self) -> bool {
        self.timeout.nanos() != 0
    }

    /// The most records that one collection holds.
    pub closed spec fn capacity(self) -> NonZeroUsize {
        self.size
    }

    /// The longest time that one collection stays open for more records.
    pub closed spec fn patience(self) -> Duration {
        self.timeout
    }

    /// Limits from a validated size and a nonzero timeout.
    pub fn new(size: NonZeroUsize, timeout: Duration) -> (policy: Result<Self, CollectConfigError>)
        ensures
            policy is Ok <==> timeout.nanos() != 0,
            policy matches Ok(p) ==> p.capacity() == size && p.patience() == timeout,
            policy matches Err(e) ==> e == CollectConfigError::ZeroTimeout,
    {
        if timeout.is_zero() {
            return Err(CollectConfigError::ZeroTimeout);
        }
        Ok(Self { size, timeout })
    }

    /// Validate a size and a timeout.
    pub fn try_new(size: usize, timeout: Duration) -> (policy: Result<Self, CollectConfigError>)
        ensures
            policy is Ok <==> size != 0 && timeout.nanos() != 0,
            policy matches Ok(p) ==> p.capacity().count() == size && p.patience() == timeout,
            policy matches Err(e) ==> e == (if size == 0 {
                CollectConfigError::ZeroSize
            } else {
                CollectConfigError::ZeroTimeout
            }),
    {
        match NonZeroUsize::new(size) {
            Some(size) => Self::new(size, timeout),
            None => Err(CollectConfigError::ZeroSize),
        }
    }

    pub fn size(self) -> (size: NonZeroUsize)
        ensures
            size == self.capacity(),
    {
        self.size
    }

    pub fn timeout(self) -> (timeout: Duration)
        ensures
            timeout == self.patience(),
            timeout.nanos() != 0,
    {
        proof {
            use_type_invariant(&self);
        }
        self.timeout
    }

    /// Why a collection of `records` records was closed: `full` at the size limit, else `timeout`.
    pub fn emit_reason(self, records: usize) -> (reason: &'static str)
        ensures
            reason@ == (if records == self.capacity().count() {
                "full"@
            } else {
                "timeout"@
            }),
    {
        if records == self.size.get() {
            "full"
        } else {
            "timeout"
        }
    }
}

/// Validated limits for flushing record batches.
#[derive(Debug, Clone, Copy)]
pub struct BatchPolicy {
    size: NonZeroUsize,
    timeout: Duration,
    prefetch: usize,
}

impl BatchPolicy {
    #[verifier::type_invariant]
    spec fn is_valid(self) -> bool {
        self.timeout.nanos() != 0
    }

    /// The most records that one batch holds.
    pub closed spec fn capacity(self) -> NonZeroUsize {
        self.size
    }

    /// The longest time that one batch stays open for more records.
    pub closed spec fn patience(self) -> Duration {
        self.timeout
    }

    /// How many batches are materialized ahead of the one being delivered.
    pub closed spec fn lookahead(self) -> usize {
        self.prefetch
    }

    /// The same limits with another number of batches materialized ahead.
    pub closed spec fn with_lookahead(self, batches: usize) -> Self {
        BatchPolicy { prefetch: batches, ..self }
    }

    /// Limits from a validated size and a nonzero timeout.
    pub fn new(size: NonZeroUsize, timeout: Duration) -> (policy: Result<Self, BatchConfigError>)
        ensures
            policy is Ok <==> timeout.nanos() != 0,
            policy matches Ok(p) ==> p.capacity() == size && p.patience() == timeout
                && p.lookahead() == 0,
            policy matches Err(e) ==> e == BatchConfigError::ZeroTimeout,
    {
        if timeout.is_zero() {
            return Err(BatchConfigError::ZeroTimeout);
        }
        Ok(Self { size, timeout, prefetch: 0 })
    }

    /// Validate a size and a timeout.
    pub fn try_new(size: usize, timeout: Duration) -> (policy: Result<Self, BatchConfigError>)
        ensures
            policy is Ok <==> size != 0 && timeout.nanos() != 0,
            policy matches Ok(p) ==> p.capacity().count() == size && p.patience() == timeout
                && p.lookahead() == 0,
            policy matches Err(e) ==> e == (if size == 0 {
                BatchConfigError::ZeroSize
            } else {
                BatchConfigError::ZeroTimeout
            }),
    {
        match NonZeroUsize::new(size) {
            Some(size) => Self::new(size, timeout),
            None => Err(BatchConfigError::ZeroSize),
        }
    }

    pub fn size(self) -> (size: NonZeroUsize)
        ensures
            size == self.capacity(),
    {
        self.size
    }

    pub fn timeout(self) -> (timeout: Duration)
        ensures
            timeout == self.patience(),
            timeout.nanos() != 0,
    {
        proof {
            use_type_invariant(&self);
        }
        self.timeout
    }

    /// Materialize up to `batches` ahead of the batch currently being delivered.
    ///
    /// Prefetching overlaps source polling, transformation, and batching with serial delivery and
    /// checkpoint commits. The default is zero, which preserves demand-driven processing.
    pub fn prefetch(self, batches: usize) -> (policy: Self)
        ensures
            policy == self.with_lookahead(batches),
            policy.capacity() == self.capacity(),
            policy.patience() == self.patience(),
            policy.lookahead() == batches,
    {
        proof {
            use_type_invariant(&self);
        }
        Self { size: self.size, timeout: self.timeout, prefetch: batches }
    }

    /// How many batches to materialize ahead of delivery.
    pub fn prefetched(self) -> (batches: usize)
        ensures
            batches == self.lookahead(),
    {
        self.prefetch
    }

    /// Why a batch of `records` records was flushed: `full` at the size limit, else `timeout`.
    pub fn emit_reason(self, records: usize) -> (reason: &'static str)
        ensures
            reason@ == (if records == self.capacity().count() {
                "full"@
            } else {
                "timeout"@
            }),
    {
        if records == self.size.get() {
            "full"
        } else {
            "timeout"
        }
    }
}

/// Of several settings of the batches materialized ahead the last one counts, and none of them
/// touches the other limits.
pub proof fn last_prefetch_counts(policy: BatchPolicy, first: usize, last: usize)
    ensures
        policy.with_lookahead(first).with_lookahead(last) == policy.with_lookahead(last),
        policy.with_lookahead(last).lookahead() == last,
        policy.with_lookahead(last).capacity() == policy.capacity(),
        policy.with_lookahead(last).patience() == policy.patience(),
{
}

/// What a policy is told.
pub enum PolicyEvent<P> {
    /// A position enters delivery.
    Position(P),
    /// A unit of `records` records has been acknowledged at `now`.
    Acknowledged { records: usize, now: Moment },
    /// The deadline has been reached.
    TimedOut,
    /// An epoch has been persisted.
    Committed,
}

/// A policy that has been told these things, in order.
pub open spec fn told<P, Policy: CommitPolicy<P>>(
    policy: Policy::State,
    events: Seq<PolicyEvent<P>>,
) -> Policy::State
    decreases events.len(),
{
    if events.len() == 0 {
        policy
    } else {
        let before = told::<P, Policy>(policy, events.drop_last());
        match events.last() {
            PolicyEvent::Position(position) => Policy::position_seen(before, position).0,
            PolicyEvent::Acknowledged { records, now } => {
                Policy::delivery_seen(before, records, now).0
            },
            PolicyEvent::TimedOut => Policy::timeout_seen(before).0,
            PolicyEvent::Committed => Policy::commit_seen(before),
        }
    }
}

/// The acknowledgements since the last commit, in order: how many records, and when.
pub open spec fn since_commit<P>(events: Seq<PolicyEvent<P>>) -> Seq<(usize, Moment)>
    decreases events.len(),
{
    if events.len() == 0 {
        Seq::empty()
    } else {
        let before = since_commit(events.drop_last());
        match events.last() {
            PolicyEvent::Acknowledged { records, now } => before.push((records, now)),
            PolicyEvent::Committed => Seq::empty(),
            _ => before,
        }
    }
}

/// Whatever a count policy is told, and in whatever order: it asks for a commit at an acknowledgement
/// exactly when the records acknowledged since the last commit have reached its threshold. Positions
/// and deadlines change nothing, no position starts a new epoch, and there is never a deadline.
pub proof fn counts_run_from_commit_to_commit<P>(
    records: NonZeroUsize,
    events: Seq<PolicyEvent<P>>,
    more: usize,
    now: Moment,
    position: P,
)
    ensures
        ({
            let policy = told::<P, AfterRecords>(AfterRecords { records, acknowledged: 0 }, events);
            let counted = records_acknowledged(since_commit(events));
            let (counting, action) = <AfterRecords as CommitPolicy<P>>::delivery_seen(
                policy,
                more,
                now,
            );
            &&& policy.records == records
            &&& policy.acknowledged == counted || (counted > usize::MAX && policy.acknowledged
                == usize::MAX)
            &&& action == CommitAction::CommitLatest <==> counted + more >= records.count()
            &&& counting.records == records
            &&& <AfterRecords as CommitPolicy<P>>::position_seen(policy, position) == (
                policy,
                PositionAction::Continue,
            )
            &&& <AfterRecords as CommitPolicy<P>>::timeout_seen(policy) == (
                policy,
                CommitAction::CommitLatest,
            )
            &&& <AfterRecords as CommitPolicy<P>>::next_deadline(policy) is None
        }),
    decreases events.len(),
{
    if events.len() > 0 {
        let before = events.drop_last();
        counts_run_from_commit_to_commit::<P>(records, before, more, now, position);
        match events.last() {
            PolicyEvent::Acknowledged { records: last, now: at } => {
                let longer = since_commit(events);
                assert(longer.drop_last() =~= since_commit(before));
                counts_run_from_commit_to_commit::<P>(records, before, last, at, position);
            },
            _ => {},
        }
    }
}

/// Whatever a count-or-time policy is told, and in whatever order: it asks for a commit at an
/// acknowledgement exactly when the records acknowledged since the last commit have reached its
/// threshold, and its deadline lies the timeout after the first of those acknowledgements. Positions
/// and deadlines change nothing, and no position starts a new epoch.
pub proof fn timed_counts_run_from_commit_to_commit<P>(
    records: NonZeroUsize,
    timeout: Duration,
    events: Seq<PolicyEvent<P>>,
    more: usize,
    now: Moment,
    position: P,
)
    requires
        timeout.nanos() <= MAX_READING,
        forall|i: int|
            0 <= i < events.len() ==> ((#[trigger] events[i]) matches PolicyEvent::Acknowledged {
                now,
                ..
            } ==> now.is_reading()),
    ensures
        ({
            let fresh = AfterRecordsOrTimeout { records, timeout, acknowledged: 0, deadline: None };
            let policy = told::<P, AfterRecordsOrTimeout>(fresh, events);
            let acknowledgements = since_commit(events);
            let counted = records_acknowledged(acknowledgements);
            let (counting, action) = <AfterRecordsOrTimeout as CommitPolicy<P>>::delivery_seen(
                policy,
                more,
                now,
            );
            &&& policy.records == records && policy.timeout == timeout
            &&& policy.acknowledged == counted || (counted > usize::MAX && policy.acknowledged
                == usize::MAX)
            &&& action == CommitAction::CommitLatest <==> counted + more >= records.count()
            &&& match <AfterRecordsOrTimeout as CommitPolicy<P>>::next_deadline(policy) {
                Some(deadline) => {
                    &&& acknowledgements.len() > 0
                    &&& deadline.nanos == acknowledgements[0].1.nanos + timeout.nanos()
                },
                None => acknowledgements.len() == 0,
            }
            &&& forall|i: int|
                0 <= i < acknowledgements.len() ==> (#[trigger] acknowledgements[i]).1.is_reading()
            &&& <AfterRecordsOrTimeout as CommitPolicy<P>>::position_seen(policy, position) == (
                policy,
                PositionAction::Continue,
            )
            &&& <AfterRecordsOrTimeout as CommitPolicy<P>>::timeout_seen(policy) == (
                policy,
                CommitAction::CommitLatest,
            )
        }),
    decreases events.len(),
{
    if events.len() > 0 {
        let before = events.drop_last();
        assert forall|i: int| 0 <= i < before.len() implies (
        (#[trigger] before[i]) matches PolicyEvent::Acknowledged { now, .. }
            ==> now.is_reading()) by {
            assert(before[i] == events[i]);
        }
        timed_counts_run_from_commit_to_commit::<P>(records, timeout, before, more, now, position);
        match events.last() {
            PolicyEvent::Acknowledged { records: last, now: at } => {
                let longer = since_commit(events);
                assert(events[events.len() - 1] == events.last());
                assert(longer.drop_last() =~= since_commit(before));
                timed_counts_run_from_commit_to_commit::<P>(
                    records,
                    timeout,
                    before,
                    last,
                    at,
                    position,
                );
            },
            _ => {},
        }
    }
}

/// The default policy asks for a commit at every acknowledgement, whatever it has been told before,
/// starts no new epoch, and has no deadline.
pub proof fn every_unit_asks_for_a_commit<P>(
    events: Seq<PolicyEvent<P>>,
    more: usize,
    now: Moment,
    position: P,
)
    ensures
        ({
            let policy = told::<P, CommitEach>(CommitEach, events);
            &&& <CommitEach as CommitPolicy<P>>::delivery_seen(policy, more, now).1
                == CommitAction::CommitLatest
            &&& <CommitEach as CommitPolicy<P>>::position_seen(policy, position).1
                == PositionAction::Continue
            &&& <CommitEach as CommitPolicy<P>>::next_deadline(policy) is None
        }),
{
}

/// What a policy has been told once it hears of one more acknowledged unit: the unit, and its deadline
/// where the unit does not ask for a commit and the deadline has passed at `checked_at`.
pub open spec fn hears_acknowledgement<P, Policy: CommitPolicy<P>>(
    policy: Policy::State,
    events: Seq<PolicyEvent<P>>,
    records: nat,
    acknowledged_at: Moment,
    checked_at: Moment,
) -> Seq<PolicyEvent<P>> {
    let (counted, action) = Policy::delivery_seen(
        told::<P, Policy>(policy, events),
        records as usize,
        acknowledged_at,
    );
    let unit = events.push(
        PolicyEvent::Acknowledged { records: records as usize, now: acknowledged_at },
    );
    match Policy::next_deadline(counted) {
        Some(deadline) if action == CommitAction::Continue && deadline.nanos
            <= checked_at.nanos => unit.push(PolicyEvent::TimedOut),
        _ => unit,
    }
}

/// All the records that a policy has been told of at acknowledgements.
pub open spec fn records_told<P>(events: Seq<PolicyEvent<P>>) -> nat
    decreases events.len(),
{
    if events.len() == 0 {
        0
    } else {
        match events.last() {
            PolicyEvent::Acknowledged { records, .. } => records_told(events.drop_last()) + records as nat,
            _ => records_told(events.drop_last()),
        }
    }
}

/// What a policy is told last comes on top of what it was told before.
pub proof fn lemma_told_last<P, Policy: CommitPolicy<P>>(
    policy: Policy::State,
    events: Seq<PolicyEvent<P>>,
    event: PolicyEvent<P>,
)
    ensures
        ({
            let before = told::<P, Policy>(policy, events);
            told::<P, Policy>(policy, events.push(event)) == (match event {
                PolicyEvent::Position(position) => Policy::position_seen(before, position).0,
                PolicyEvent::Acknowledged { records, now } => {
                    Policy::delivery_seen(before, records, now).0
                },
                PolicyEvent::TimedOut => Policy::timeout_seen(before).0,
                PolicyEvent::Committed => Policy::commit_seen(before),
            })
        }),
        records_told(events.push(event)) == records_told(events) + (match event {
            PolicyEvent::Acknowledged { records, .. } => records as nat,
            _ => 0,
        }),
{
    assert(events.push(event).drop_last() =~= events);
}

/// A policy that is told of positions one by one hears of all of them.
pub proof fn lemma_told_positions<P, Policy: CommitPolicy<P>>(
    policy: Policy::State,
    events: Seq<PolicyEvent<P>>,
    positions: Seq<P>,
)
    ensures
        ({
            let seen = positions.map_values(|position: P| PolicyEvent::Position(position));
            &&& told::<P, Policy>(policy, events + seen) == told::<P, Policy>(
                told::<P, Policy>(policy, events),
                seen,
            )
            &&& records_told(events + seen) == records_told(events)
        }),
    decreases positions.len(),
{
    let as_event = |position: P| PolicyEvent::Position(position);
    let seen = positions.map_values(as_event);
    if positions.len() == 0 {
        assert(events + seen =~= events);
    } else {
        lemma_told_positions::<P, Policy>(policy, events, positions.drop_last());
        let earlier = positions.drop_last().map_values(as_event);
        assert(seen.drop_last() =~= earlier);
        assert(events + seen =~= (events + earlier).push(seen.last()));
        lemma_told_last::<P, Policy>(policy, events + earlier, seen.last());
    }
}

/// A policy that hears of an acknowledged unit is told of its records once.
pub proof fn lemma_hears_acknowledgement<P, Policy: CommitPolicy<P>>(
    policy: Policy::State,
    events: Seq<PolicyEvent<P>>,
    records: nat,
    acknowledged_at: Moment,
    checked_at: Moment,
)
    requires
        records <= usize::MAX,
    ensures
        ({
            let before = told::<P, Policy>(policy, events);
            let heard = hears_acknowledgement::<P, Policy>(
                policy,
                events,
                records,
                acknowledged_at,
                checked_at,
            );
            let (counted, action) = Policy::delivery_seen(
                before,
                records as usize,
                acknowledged_at,
            );
            let late = action == CommitAction::Continue && (match Policy::next_deadline(counted) {
                Some(deadline) => deadline.nanos <= checked_at.nanos,
                None => false,
            });
            &&& told::<P, Policy>(policy, heard) == (if late {
                Policy::timeout_seen(counted).0
            } else {
                counted
            })
            &&& records_told(heard) == records_told(events) + records
        }),
{
    let unit = PolicyEvent::Acknowledged { records: records as usize, now: acknowledged_at };
    lemma_told_last::<P, Policy>(policy, events, unit);
    lemma_told_last::<P, Policy>(policy, events.push(unit), PolicyEvent::TimedOut);
}

} // verus!
