//! Batches that carry their own commit cursor.
use crate::error::PipelineError;
use crate::record::Record;
use crate::sink;
use vstd::prelude::*;

verus! {

/// One owned batch of transformed items and its source-selected commit cursor.
#[derive(Debug, PartialEq, Eq)]
pub struct Batch<T, C> {
    pub items: Vec<T>,
    pub cursor: C,
}

impl<T: Clone, C: Clone> Clone for Batch<T, C> {
    fn clone(&self) -> (copy: Self)
        ensures
            copy.items@.len() == self.items@.len(),
            forall|i: int|
                0 <= i < self.items@.len() ==> vstd::pervasive::cloned(
                    self.items@[i],
                    #[trigger] copy.items@[i],
                ),
            vstd::pervasive::cloned(self.cursor, copy.cursor),
    {
        Batch { items: self.items.clone(), cursor: self.cursor.clone() }
    }
}

impl<T, C> std::ops::Deref for Batch<T, C> {
    type Target = [T];

    fn deref(&self) -> (items: &[T])
        ensures
            items@ == self.items@,
    {
        self.items.as_slice()
    }
}

impl<T, C> IntoIterator for Batch<T, C> {
    type Item = T;

    type IntoIter = std::vec::IntoIter<T>;

    fn into_iter(self) -> (items: std::vec::IntoIter<T>)
        ensures
            items == vstd::std_specs::vec::spec_into_iter(self.items),
    {
        self.items.into_iter()
    }
}

/// Whether a cursor is what `track` may make of a run of positions, folded in order from nothing.
pub open spec fn may_fold<P, C, F: Fn(Option<C>, P) -> C>(
    track: F,
    positions: Seq<P>,
    cursor: Option<C>,
) -> bool
    decreases positions.len(),
{
    if positions.len() == 0 {
        cursor is None
    } else {
        exists|before: Option<C>|
            {
                &&& may_fold(track, positions.drop_last(), before)
                &&& cursor is Some
                &&& #[trigger] call_ensures(track, (before, positions.last()), cursor->0)
            }
    }
}

/// A cursor folded out of all but the last position, tracked on to the last, is folded out of all.
proof fn lemma_last_fold<P, C, F: Fn(Option<C>, P) -> C>(
    track: F,
    positions: Seq<P>,
    before: Option<C>,
    cursor: C,
)
    requires
        positions.len() > 0,
        may_fold(track, positions.drop_last(), before),
        call_ensures(track, (before, positions.last()), cursor),
    ensures
        may_fold(track, positions, Some(cursor)),
{
    assert(call_ensures(track, (before, positions.last()), Some(cursor)->0));
}

/// The positions of a chunk of records.
pub open spec fn chunk_positions<T, P, E>(chunk: Seq<Result<Record<T, P>, E>>) -> Seq<P> {
    chunk.map_values(|item: Result<Record<T, P>, E>| item->Ok_0.at())
}

/// The payloads of a chunk of records.
pub open spec fn chunk_payloads<T, P, E>(chunk: Seq<Result<Record<T, P>, E>>) -> Seq<T> {
    chunk.map_values(|item: Result<Record<T, P>, E>| item->Ok_0.value())
}

impl<T, C> Batch<T, C> {
    /// A batch of items that is committed at `cursor`.
    pub fn new(items: Vec<T>, cursor: C) -> (batch: Self)
        ensures
            batch == (Batch { items, cursor }),
    {
        Self { items, cursor }
    }

    /// The items and the cursor.
    pub fn into_parts(self) -> (parts: (Vec<T>, C))
        ensures
            parts == (self.items, self.cursor),
    {
        (self.items, self.cursor)
    }

    /// A batch of every payload of a chunk at the cursor folded out of the positions, no batch for
    /// an empty chunk, or the first failure.
    pub fn from_chunk<P, E, F: Fn(Option<C>, P) -> C>(
        chunk: Vec<Result<Record<T, P>, E>>,
        track: F,
    ) -> (batch: Result<Option<Self>, E>)
        requires
            forall|cursor: Option<C>, position: P| #[trigger]
                call_requires(track, (cursor, position)),
        ensures
            batch is Ok <==> sink::all_ok(chunk@),
            batch matches Ok(None) ==> chunk@.len() == 0,
            batch matches Ok(Some(batch)) ==> {
                &&& chunk@.len() > 0
                &&& batch.items@ == chunk_payloads(chunk@)
                &&& may_fold(track, chunk_positions(chunk@), Some(batch.cursor))
            },
            batch matches Err(error) ==> sink::first_failure(chunk@, error),
    {
        let mut items: Vec<T> = Vec::with_capacity(chunk.len());
        let mut cursor: Option<C> = None;
        proof {
            assert(chunk_positions(chunk@.take(0)) =~= Seq::empty());
        }
        for item in iter: chunk
            invariant
                iter.seq() == chunk@,
                forall|cursor: Option<C>, position: P| #[trigger]
                    call_requires(track, (cursor, position)),
                sink::all_ok(chunk@.take(iter.index() as int)),
                items@ == chunk_payloads(chunk@.take(iter.index() as int)),
                may_fold(track, chunk_positions(chunk@.take(iter.index() as int)), cursor),
                cursor is None <==> iter.index() == 0,
        {
            proof {
                let index = iter.index() as int;
                assert(chunk@.take(index + 1) =~= chunk@.take(index).push(chunk@[index]));
            }
            match item {
                Ok(record) => {
                    let (position, payload) = record.into_parts();
                    let ghost before = cursor;
                    let next = track(cursor, position);
                    proof {
                        let index = iter.index() as int;
                        let positions = chunk_positions(chunk@.take(index + 1));
                        assert(positions.drop_last() =~= chunk_positions(chunk@.take(index)));
                        assert(positions.last() == position);
                        lemma_last_fold(track, positions, before, next);
                    }
                    cursor = Some(next);
                    items.push(payload);
                },
                Err(error) => {
                    assert(chunk@[iter.index() as int] == Err::<Record<T, P>, E>(error));
                    return Err(error);
                },
            }
        }
        proof {
            assert(chunk@.take(chunk@.len() as int) =~= chunk@);
        }
        match cursor {
            Some(cursor) => Ok(Some(Self::new(items, cursor))),
            None => Ok(None),
        }
    }
}

/// What is to be done next.
pub enum CursorStep<U, C, F> {
    /// Wait for the next unit.
    Wait,
    /// Deliver a unit to every sink.
    Deliver(U),
    /// Have the source commit a cursor.
    Commit(C),
    /// Nothing more: the run has succeeded.
    Complete,
    /// Nothing more: the run has failed.
    Fail(F),
}

/// What a runner is waiting for.
pub enum CursorPhase<C> {
    /// The next unit, or the end of the source.
    Waiting,
    /// The outcome of the delivery of a unit with this cursor.
    Delivering(C),
    /// The outcome of a commit.
    Committing,
    /// Nothing more.
    Finished,
}

/// Cursors on their way from delivery to commit.
#[verifier::ext_equal]
pub struct CursorLog<C> {
    /// The cursors of every unit that entered delivery, in order.
    pub entered: Seq<C>,
    /// The cursors of every unit that was delivered, in order.
    pub delivered: Seq<C>,
    /// The cursors that were committed, in order.
    pub committed: Seq<C>,
}

/// Runs a pipeline that commits the cursor of each unit once the unit has been delivered.
pub struct CursorRunner<C> {
    phase: CursorPhase<C>,
    log: Ghost<CursorLog<C>>,
}

impl<C> CursorRunner<C> {
    /// What the runner is waiting for.
    pub closed spec fn phase(self) -> CursorPhase<C> {
        self.phase
    }

    /// The cursors so far.
    pub closed spec fn log(self) -> CursorLog<C> {
        self.log@
    }

    /// A cursor is committed only after its unit has been delivered, in order, and before the next
    /// unit enters delivery.
    pub open spec fn is_valid(self) -> bool {
        let log = self.log();
        &&& log.delivered == log.entered.take(log.delivered.len() as int)
        &&& log.committed == log.delivered.take(log.committed.len() as int)
        &&& match self.phase() {
            CursorPhase::Waiting => log.committed == log.delivered && log.delivered == log.entered,
            CursorPhase::Delivering(cursor) => {
                &&& log.committed == log.delivered
                &&& log.entered == log.delivered.push(cursor)
            },
            CursorPhase::Committing => {
                &&& log.delivered == log.entered
                &&& log.delivered.len() == log.committed.len() + 1
            },
            CursorPhase::Finished => {
                &&& log.committed.len() <= log.delivered.len() <= log.entered.len()
            },
        }
    }

    /// A runner that has not seen anything yet.
    pub fn start() -> (runner: Self)
        ensures
            runner.is_valid(),
            runner.phase() == CursorPhase::<C>::Waiting,
            runner.log() == (CursorLog::<C> {
                entered: Seq::empty(),
                delivered: Seq::empty(),
                committed: Seq::empty(),
            }),
    {
        proof {
            assert(Seq::<C>::empty().take(0) =~= Seq::empty());
        }
        CursorRunner {
            phase: CursorPhase::Waiting,
            log: Ghost(
                CursorLog {
                    entered: Seq::empty(),
                    delivered: Seq::empty(),
                    committed: Seq::empty(),
                },
            ),
        }
    }

    /// The source has produced the next unit and its cursor, an empty chunk, or a failure.
    ///
    /// A failure ends the run without a commit.
    pub fn on_unit<U, F>(&mut self, unit: Result<Option<(U, C)>, F>) -> (step: CursorStep<U, C, F>)
        requires
            old(self).is_valid(),
            old(self).phase() is Waiting,
        ensures
            final(self).is_valid(),
            match unit {
                Ok(Some((unit, cursor))) => {
                    &&& step == CursorStep::<U, C, F>::Deliver(unit)
                    &&& final(self).phase() == CursorPhase::Delivering(cursor)
                    &&& final(self).log() == (CursorLog {
                        entered: old(self).log().entered.push(cursor),
                        ..old(self).log()
                    })
                },
                Ok(None) => {
                    &&& step == CursorStep::<U, C, F>::Wait
                    &&& final(self).phase() is Waiting
                    &&& final(self).log() == old(self).log()
                },
                Err(failure) => {
                    &&& step == CursorStep::<U, C, F>::Fail(failure)
                    &&& final(self).phase() is Finished
                    &&& final(self).log() == old(self).log()
                },
            },
    {
        match unit {
            Ok(Some((unit, cursor))) => {
                proof {
                    let log = self.log@;
                    self.log@ = CursorLog { entered: log.entered.push(cursor), ..log };
                    assert(log.entered.push(cursor).take(log.entered.len() as int)
                        =~= log.entered);
                }
                self.phase = CursorPhase::Delivering(cursor);
                CursorStep::Deliver(unit)
            },
            Ok(None) => CursorStep::Wait,
            Err(failure) => {
                self.phase = CursorPhase::Finished;
                CursorStep::Fail(failure)
            },
        }
    }

    /// The source has produced the next batch, an empty chunk, or a failure: the cursor that is
    /// committed once the batch has been delivered is a copy of the batch's own.
    ///
    /// A failure ends the run without a commit.
    pub fn on_batch<T, F>(&mut self, batch: Result<Option<Batch<T, C>>, F>) -> (step: CursorStep<
        Batch<T, C>,
        C,
        F,
    >) where C: Clone
        requires
            old(self).is_valid(),
            old(self).phase() is Waiting,
        ensures
            final(self).is_valid(),
            match batch {
                Ok(Some(batch)) => {
                    &&& step == CursorStep::<Batch<T, C>, C, F>::Deliver(batch)
                    &&& final(self).phase() matches CursorPhase::Delivering(cursor)
                        && vstd::pervasive::cloned(batch.cursor, cursor)
                        && final(self).log() == (CursorLog {
                        entered: old(self).log().entered.push(cursor),
                        ..old(self).log()
                    })
                },
                Ok(None) => {
                    &&& step == CursorStep::<Batch<T, C>, C, F>::Wait
                    &&& final(self).phase() is Waiting
                    &&& final(self).log() == old(self).log()
                },
                Err(failure) => {
                    &&& step == CursorStep::<Batch<T, C>, C, F>::Fail(failure)
                    &&& final(self).phase() is Finished
                    &&& final(self).log() == old(self).log()
                },
            },
    {
        match batch {
            Ok(Some(batch)) => {
                let cursor = batch.cursor.clone();
                self.on_unit(Ok(Some((batch, cursor))))
            },
            Ok(None) => self.on_unit(Ok(None)),
            Err(failure) => self.on_unit(Err(failure)),
        }
    }

    /// The source has ended, or has been cut off: everything that was delivered has been committed.
    pub fn on_end<U, F>(&mut self) -> (step: CursorStep<U, C, F>)
        requires
            old(self).is_valid(),
            old(self).phase() is Waiting,
        ensures
            final(self).is_valid(),
            step == CursorStep::<U, C, F>::Complete,
            final(self).phase() is Finished,
            final(self).log() == old(self).log(),
            final(self).log().committed == final(self).log().entered,
    {
        self.phase = CursorPhase::Finished;
        CursorStep::Complete
    }

    /// The delivery under way has ended.
    ///
    /// A failed delivery ends the run without a commit.
    pub fn on_delivered<U, F>(&mut self, outcome: Result<(), F>) -> (step: CursorStep<U, C, F>)
        requires
            old(self).is_valid(),
            old(self).phase() is Delivering,
        ensures
            final(self).is_valid(),
            match (outcome, old(self).phase()) {
                (Ok(_), CursorPhase::Delivering(cursor)) => {
                    &&& step == CursorStep::<U, C, F>::Commit(cursor)
                    &&& final(self).phase() is Committing
                    &&& final(self).log() == (CursorLog {
                        delivered: old(self).log().delivered.push(cursor),
                        ..old(self).log()
                    })
                },
                (Err(failure), _) => {
                    &&& step == CursorStep::<U, C, F>::Fail(failure)
                    &&& final(self).phase() is Finished
                    &&& final(self).log() == old(self).log()
                },
                _ => false,
            },
    {
        let mut phase = CursorPhase::Finished;
        std::mem::swap(&mut phase, &mut self.phase);
        match outcome {
            Ok(_) => match phase {
                CursorPhase::Delivering(cursor) => {
                    proof {
                        let log = self.log@;
                        self.log@ = CursorLog { delivered: log.delivered.push(cursor), ..log };
                        assert(log.entered.take(log.entered.len() as int) =~= log.entered);
                        assert(log.delivered.push(cursor).take(log.delivered.len() as int)
                            =~= log.delivered);
                    }
                    self.phase = CursorPhase::Committing;
                    CursorStep::Commit(cursor)
                },
                _ => CursorStep::Complete,
            },
            Err(failure) => CursorStep::Fail(failure),
        }
    }

    /// The commit under way has ended.
    ///
    /// A failed commit ends the run.
    pub fn on_committed<U, So, Tr, Si>(&mut self, outcome: Result<(), So>) -> (step: CursorStep<
        U,
        C,
        PipelineError<So, Tr, Si>,
    >)
        requires
            old(self).is_valid(),
            old(self).phase() is Committing,
        ensures
            final(self).is_valid(),
            match outcome {
                Ok(_) => {
                    &&& step == CursorStep::<U, C, PipelineError<So, Tr, Si>>::Wait
                    &&& final(self).phase() is Waiting
                    &&& final(self).log() == (CursorLog {
                        committed: old(self).log().delivered,
                        ..old(self).log()
                    })
                },
                Err(error) => {
                    &&& step == CursorStep::<U, C, PipelineError<So, Tr, Si>>::Fail(
                        PipelineError::Commit(error),
                    )
                    &&& final(self).phase() is Finished
                    &&& final(self).log() == old(self).log()
                },
            },
    {
        match outcome {
            Ok(_) => {
                proof {
                    let log = self.log@;
                    self.log@ = CursorLog { committed: log.delivered, ..log };
                }
                self.phase = CursorPhase::Waiting;
                CursorStep::Wait
            },
            Err(error) => {
                self.phase = CursorPhase::Finished;
                CursorStep::Fail(PipelineError::Commit(error))
            },
        }
    }
}

/// What has been committed is a prefix, in order, of what has been delivered, and that is a prefix
/// of what entered delivery.
pub proof fn committed_cursors_were_delivered<C>(runner: CursorRunner<C>)
    requires
        runner.is_valid(),
    ensures
        runner.log().committed.len() <= runner.log().delivered.len() <= runner.log().entered.len(),
        runner.log().committed == runner.log().entered.take(runner.log().committed.len() as int),
{
    let log = runner.log();
    assert(log.entered.take(log.delivered.len() as int).take(log.committed.len() as int)
        =~= log.entered.take(log.committed.len() as int));
}

/// What a function of the cursor so far and the next position makes of a run of positions, from the
/// first to the last.
pub open spec fn folded<P, C>(
    track: spec_fn(Option<C>, P) -> C,
    start: Option<C>,
    positions: Seq<P>,
) -> Option<C>
    decreases positions.len(),
{
    if positions.len() == 0 {
        start
    } else {
        folded(track, Some(track(start, positions[0])), positions.drop_first())
    }
}

/// Folding goes on with the last position where it has come to it.
proof fn lemma_folded_last<P, C>(
    track: spec_fn(Option<C>, P) -> C,
    start: Option<C>,
    positions: Seq<P>,
)
    requires
        positions.len() > 0,
    ensures
        folded(track, start, positions) == Some(
            track(folded(track, start, positions.drop_last()), positions.last()),
        ),
    decreases positions.len(),
{
    if positions.len() == 1 {
        assert(positions.drop_first() =~= Seq::empty());
        assert(positions.drop_last() =~= Seq::empty());
        let next = Some(track(start, positions[0]));
        assert(folded(track, next, Seq::<P>::empty()) == next);
        assert(folded(track, start, Seq::<P>::empty()) == start);
    } else {
        let next = Some(track(start, positions[0]));
        lemma_folded_last(track, next, positions.drop_first());
        assert(positions.drop_first().drop_last() =~= positions.drop_last().drop_first());
        assert(positions.drop_last()[0] == positions[0]);
    }
}

/// Where tracking has one outcome, the cursor of a batch is what tracking makes of its positions one
/// after the other, from the first on, with no cursor to start from; without positions there is none.
pub proof fn cursors_are_tracked_in_order<P, C, F: Fn(Option<C>, P) -> C>(
    track: F,
    model: spec_fn(Option<C>, P) -> C,
    positions: Seq<P>,
    cursor: Option<C>,
)
    requires
        forall|before: Option<C>, position: P, after: C| #[trigger]
            call_ensures(track, (before, position), after) ==> after == model(before, position),
        may_fold(track, positions, cursor),
    ensures
        cursor == folded(model, None, positions),
        cursor is None <==> positions.len() == 0,
    decreases positions.len(),
{
    if positions.len() > 0 {
        let before = choose|before: Option<C>|
            {
                &&& may_fold(track, positions.drop_last(), before)
                &&& cursor is Some
                &&& #[trigger] call_ensures(track, (before, positions.last()), cursor->0)
            };
        cursors_are_tracked_in_order(track, model, positions.drop_last(), before);
        lemma_folded_last(model, None, positions);
    }
}

/// Every record of a chunk lends its batch its payload and its position, each in its place.
pub proof fn chunks_keep_their_places<T, P, E>(chunk: Seq<Result<Record<T, P>, E>>, i: int)
    requires
        0 <= i < chunk.len(),
        chunk[i] is Ok,
    ensures
        chunk_payloads(chunk).len() == chunk.len(),
        chunk_payloads(chunk)[i] == chunk[i]->Ok_0.value(),
        chunk_positions(chunk).len() == chunk.len(),
        chunk_positions(chunk)[i] == chunk[i]->Ok_0.at(),
{
}

} // verus!
