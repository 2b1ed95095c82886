//! Delivery units, and what is handed to the branches of a fanout.
use crate::record::Record;
use std::sync::Arc;
use vstd::prelude::*;

verus! {

/// An immutable record shared by every sink in shared fanout.
pub type SharedRecord<T, P> = Arc<Record<T, P>>;

/// One immutable batch shared by every sink in shared fanout.
pub type SharedBatch<T, P> = Arc<Batch<T, P>>;

/// One owned batch of transformed records.
#[derive(Debug, PartialEq, Eq)]
pub struct Batch<T, P> {
    pub records: Vec<Record<T, P>>,
}

/// Whether every element of a chunk is a success.
pub open spec fn all_ok<T, E>(chunk: Seq<Result<T, E>>) -> bool {
    forall|i: int| 0 <= i < chunk.len() ==> (#[trigger] chunk[i]) is Ok
}

/// Whether `error` is the first failure of a chunk.
pub open spec fn first_failure<T, E>(chunk: Seq<Result<T, E>>, error: E) -> bool {
    exists|i: int|
        {
            &&& 0 <= i < chunk.len()
            &&& #[trigger] chunk[i] == Err::<T, E>(error)
            &&& all_ok(chunk.take(i))
        }
}

/// The successful values of a chunk, each in its place.
pub open spec fn values<T, E>(chunk: Seq<Result<T, E>>) -> Seq<T> {
    chunk.map_values(|item: Result<T, E>| item->Ok_0)
}

/// The values of a chunk, or its first failure.
pub fn collect_values<T, E>(chunk: Vec<Result<T, E>>) -> (collected: Result<Vec<T>, E>)
    ensures
        collected is Ok <==> all_ok(chunk@),
        collected matches Ok(items) ==> items@ == values(chunk@),
        collected matches Err(error) ==> first_failure(chunk@, error),
{
    let mut items: Vec<T> = Vec::new();
    for item in iter: chunk
        invariant
            iter.seq() == chunk@,
            all_ok(chunk@.take(iter.index() as int)),
            items@ == values(chunk@.take(iter.index() as int)),
    {
        proof {
            let index = iter.index() as int;
            assert(chunk@.take(index + 1) =~= chunk@.take(index).push(chunk@[index]));
        }
        match item {
            Ok(value) => {
                items.push(value);
            },
            Err(error) => {
                assert(chunk@[iter.index() as int] == Err::<T, E>(error));
                return Err(error);
            },
        }
    }
    proof {
        assert(chunk@.take(chunk@.len() as int) =~= chunk@);
    }
    Ok(items)
}

/// Whether `batch` is what is made of a chunk: a batch of every record of it, no batch for an empty
/// chunk, or the first failure.
pub open spec fn is_cut<T, P, E>(
    chunk: Seq<Result<Record<T, P>, E>>,
    batch: Result<Option<Batch<T, P>>, E>,
) -> bool {
    &&& batch is Ok <==> all_ok(chunk)
    &&& batch matches Ok(None) ==> chunk.len() == 0
    &&& batch matches Ok(Some(batch)) ==> chunk.len() > 0 && batch.records@ == values(chunk)
    &&& batch matches Err(error) ==> first_failure(chunk, error)
}

/// The batches among what is made of several chunks, in order, up to the first failure.
pub open spec fn batches_of<T, P, E>(outcomes: Seq<Result<Option<Batch<T, P>>, E>>) -> Seq<
    Batch<T, P>,
>
    decreases outcomes.len(),
{
    if outcomes.len() == 0 {
        Seq::empty()
    } else {
        match outcomes[0] {
            Ok(Some(batch)) => seq![batch] + batches_of(outcomes.drop_first()),
            Ok(None) => batches_of(outcomes.drop_first()),
            Err(_) => Seq::empty(),
        }
    }
}

/// The records of several chunks, in order, up to the first chunk that holds a failure.
pub open spec fn records_of<T, P, E>(chunks: Seq<Seq<Result<Record<T, P>, E>>>) -> Seq<Record<T, P>>
    decreases chunks.len(),
{
    if chunks.len() == 0 || !all_ok(chunks[0]) {
        Seq::empty()
    } else {
        values(chunks[0]) + records_of(chunks.drop_first())
    }
}

/// The records of several batches, one batch behind the other.
pub open spec fn concatenated<T, P>(batches: Seq<Batch<T, P>>) -> Seq<Record<T, P>>
    decreases batches.len(),
{
    if batches.len() == 0 {
        Seq::empty()
    } else {
        batches[0].records@ + concatenated(batches.drop_first())
    }
}

/// The records of the last batch stand behind those of the others.
pub proof fn lemma_concatenated_last<T, P>(batches: Seq<Batch<T, P>>)
    requires
        batches.len() > 0,
    ensures
        concatenated(batches) == concatenated(batches.drop_last()) + batches.last().records@,
    decreases batches.len(),
{
    if batches.len() == 1 {
        assert(batches.drop_first() =~= Seq::empty());
        assert(batches.drop_last() =~= Seq::empty());
        assert(concatenated(batches) =~= concatenated(batches.drop_last())
            + batches.last().records@);
    } else {
        lemma_concatenated_last(batches.drop_first());
        assert(batches.drop_first().drop_last() =~= batches.drop_last().drop_first());
        assert(concatenated(batches) =~= concatenated(batches.drop_last())
            + batches.last().records@);
    }
}

/// The batches made of several chunks, one behind the other, hold every record of the chunks up to
/// the first that holds a failure, once each and in order. None of them is empty, and none is larger
/// than the largest chunk.
pub proof fn batches_hold_every_record<T, P, E>(
    chunks: Seq<Seq<Result<Record<T, P>, E>>>,
    outcomes: Seq<Result<Option<Batch<T, P>>, E>>,
    size: nat,
)
    requires
        outcomes.len() == chunks.len(),
        forall|i: int| 0 <= i < chunks.len() ==> is_cut(#[trigger] chunks[i], outcomes[i]),
        forall|i: int| 0 <= i < chunks.len() ==> (#[trigger] chunks[i]).len() <= size,
    ensures
        concatenated(batches_of(outcomes)) == records_of(chunks),
        forall|i: int|
            0 <= i < batches_of(outcomes).len() ==> 1 <= (#[trigger] batches_of(
                outcomes,
            )[i]).records@.len() <= size,
    decreases chunks.len(),
{
    if chunks.len() > 0 {
        let (rest, later) = (chunks.drop_first(), outcomes.drop_first());
        assert(is_cut(chunks[0], outcomes[0]));
        assert forall|i: int| 0 <= i < rest.len() implies is_cut(#[trigger] rest[i], later[i])
            && rest[i].len() <= size by {
            assert(rest[i] == chunks[i + 1]);
            assert(is_cut(chunks[i + 1], outcomes[i + 1]));
        }
        batches_hold_every_record(rest, later, size);
        match outcomes[0] {
            Ok(Some(batch)) => {
                let batches = batches_of(outcomes);
                assert(batches.drop_first() =~= batches_of(later));
                assert forall|i: int| 0 <= i < batches.len() implies 1 <= (
                #[trigger] batches[i]).records@.len() <= size by {
                    if i > 0 {
                        assert(batches[i] == batches_of(later)[i - 1]);
                    }
                }
            },
            Ok(None) => {
                assert(records_of(chunks) =~= records_of(rest));
            },
            Err(_) => {},
        }
    }
}

/// However a stream without failures is cut into chunks, the chunks hold its records, in order.
pub proof fn cutting_keeps_every_record<T, P, E>(chunks: Seq<Seq<Result<Record<T, P>, E>>>)
    requires
        all_ok(chunks.flatten()),
    ensures
        records_of(chunks) == values(chunks.flatten()),
    decreases chunks.len(),
{
    if chunks.len() == 0 {
        assert(values(chunks.flatten()) =~= Seq::empty());
    } else {
        let (head, rest) = (chunks[0], chunks.drop_first());
        let whole = chunks.flatten();
        assert(whole =~= head + rest.flatten());
        assert forall|i: int| 0 <= i < head.len() implies (#[trigger] head[i]) is Ok by {
            assert(whole[i] is Ok);
        }
        assert forall|i: int| 0 <= i < rest.flatten().len() implies (
        #[trigger] rest.flatten()[i]) is Ok by {
            assert(whole[head.len() + i] is Ok);
        }
        cutting_keeps_every_record(rest);
        assert(values(whole) =~= values(head) + values(rest.flatten()));
    }
}

impl<T, P> Batch<T, P> {
    /// A batch of the given records, in their order.
    pub fn new(records: Vec<Record<T, P>>) -> (batch: Self)
        ensures
            batch.records == records,
    {
        Self { records }
    }

    /// The records of the batch, in their order.
    pub fn into_records(self) -> (records: Vec<Record<T, P>>)
        ensures
            records == self.records,
    {
        self.records
    }

    /// A batch of every record of a chunk, no batch for an empty chunk, or the first failure.
    pub fn try_from_chunk<E>(chunk: Vec<Result<Record<T, P>, E>>) -> (batch: Result<
        Option<Self>,
        E,
    >)
        ensures
            is_cut(chunk@, batch),
    {
        match collect_values(chunk) {
            Ok(records) => {
                if records.len() == 0 {
                    Ok(None)
                } else {
                    Ok(Some(Self::new(records)))
                }
            },
            Err(error) => Err(error),
        }
    }
}

impl<T, P> std::ops::Deref for Batch<T, P> {
    type Target = [Record<T, P>];

    fn deref(&self) -> (records: &[Record<T, P>])
        ensures
            records@ == self.records@,
    {
        self.records.as_slice()
    }
}

impl<T, P> IntoIterator for Batch<T, P> {
    type Item = Record<T, P>;

    type IntoIter = std::vec::IntoIter<Record<T, P>>;

    fn into_iter(self) -> (records: std::vec::IntoIter<Record<T, P>>)
        ensures
            records == vstd::std_specs::vec::spec_into_iter(self.records),
    {
        self.records.into_iter()
    }
}

impl<T: Clone, P: Clone> Clone for Batch<T, P> {
    fn clone(&self) -> (copy: Self)
        ensures
            copy.records@.len() == self.records@.len(),
            forall|i: int|
                0 <= i < self.records@.len() ==> vstd::pervasive::cloned(
                    self.records@[i],
                    #[trigger] copy.records@[i],
                ),
    {
        Batch { records: self.records.clone() }
    }
}

/// Type-state marker selecting cloned fanout batches.
#[derive(Debug, Default, Clone, Copy)]
pub struct Cloned;

/// Type-state marker selecting shared fanout batches.
#[derive(Debug, Default, Clone, Copy)]
pub struct Shared;

/// Maps a fanout ownership mode to the batch input consumed by its sinks.
pub trait FanoutMode<T, P> {
    type Input;
}

impl<T, P> FanoutMode<T, P> for Cloned {
    type Input = Batch<T, P>;
}

impl<T, P> FanoutMode<T, P> for Shared {
    type Input = SharedBatch<T, P>;
}

/// Maps a fanout ownership mode to its one-record input.
pub trait FanoutRecordMode<T, P> {
    type Input;
}

impl<T, P> FanoutRecordMode<T, P> for Cloned {
    type Input = Record<T, P>;
}

impl<T, P> FanoutRecordMode<T, P> for Shared {
    type Input = SharedRecord<T, P>;
}

/// Durably consumes an input.
///
/// The delivery itself is asynchronous and belongs to the runtime side of a sink.
pub trait Sink<Input> {
    type Error;
}

/// Opens batch-scoped sessions that consume records incrementally.
///
/// Beginning a session is asynchronous and belongs to the runtime side of a collector.
pub trait Collector<Input> {
    type Error;

    type Session: CollectionSession<Input, Error = Self::Error>;
}

/// One incrementally populated, batch-scoped collector session.
///
/// Pushing and finishing are asynchronous and belong to the runtime side of a session. Finishing
/// durably acknowledges every successfully pushed record.
pub trait CollectionSession<Input> {
    type Error;
}

/// A unit that is delivered, and acknowledged, as a whole.
pub trait DeliveryUnit<P>: Sized {
    /// The source positions of the unit's records, in order.
    spec fn positions(self) -> Seq<P>;

    /// How many records the unit holds.
    fn count(&self) -> (count: usize)
        ensures
            count == self.positions().len(),
    ;

    /// The source position of one of the unit's records.
    fn position_at(&self, index: usize) -> (position: &P)
        requires
            index < self.positions().len(),
        ensures
            *position == self.positions()[index as int],
    ;
}

impl<T, P> DeliveryUnit<P> for Record<T, P> {
    open spec fn positions(self) -> Seq<P> {
        seq![self.at()]
    }

    fn count(&self) -> (count: usize) {
        1
    }

    fn position_at(&self, index: usize) -> (position: &P) {
        self.position()
    }
}

impl<T, P> DeliveryUnit<P> for Batch<T, P> {
    open spec fn positions(self) -> Seq<P> {
        self.records@.map_values(|record: Record<T, P>| record.at())
    }

    fn count(&self) -> (count: usize) {
        self.records.len()
    }

    fn position_at(&self, index: usize) -> (position: &P) {
        self.records[index].position()
    }
}

impl<P, U: DeliveryUnit<P>> DeliveryUnit<P> for Arc<U> {
    open spec fn positions(self) -> Seq<P> {
        (*self).positions()
    }

    fn count(&self) -> (count: usize) {
        (**self).count()
    }

    fn position_at(&self, index: usize) -> (position: &P) {
        (**self).position_at(index)
    }
}

/// A chunk has a first failure exactly where it does not succeed as a whole, and no more than one:
/// nothing before it failed.
pub proof fn first_failures_are_unique<T, E>(chunk: Seq<Result<T, E>>, error: E, other: E)
    requires
        first_failure(chunk, error),
    ensures
        !all_ok(chunk),
        first_failure(chunk, other) ==> other == error,
        exists|i: int|
            {
                &&& 0 <= i < chunk.len()
                &&& #[trigger] chunk[i] == Err::<T, E>(error)
                &&& forall|j: int| 0 <= j < i ==> (#[trigger] chunk[j]) is Ok
            },
{
    let i = choose|i: int|
        {
            &&& 0 <= i < chunk.len()
            &&& #[trigger] chunk[i] == Err::<T, E>(error)
            &&& all_ok(chunk.take(i))
        };
    assert(chunk[i] is Err);
    assert forall|j: int| 0 <= j < i implies (#[trigger] chunk[j]) is Ok by {
        assert(chunk.take(i)[j] is Ok);
    }
    if first_failure(chunk, other) {
        let k = choose|k: int|
            {
                &&& 0 <= k < chunk.len()
                &&& #[trigger] chunk[k] == Err::<T, E>(other)
                &&& all_ok(chunk.take(k))
            };
        if k < i {
            assert(chunk[k] is Ok);
        }
        if i < k {
            assert(chunk.take(k)[i] is Ok);
        }
    }
}

/// A chunk is cut in one way only: into nothing where it is empty, into its first failure where it has
/// one, and else into a batch of its records, each in its place.
pub proof fn chunks_are_cut_in_one_way<T, P, E>(
    chunk: Seq<Result<Record<T, P>, E>>,
    batch: Result<Option<Batch<T, P>>, E>,
)
    requires
        is_cut(chunk, batch),
    ensures
        batch matches Ok(None) <==> chunk.len() == 0,
        batch matches Ok(Some(batch)) ==> {
            &&& batch.records@.len() == chunk.len()
            &&& forall|i: int|
                0 <= i < chunk.len() ==> #[trigger] chunk[i] == Ok::<Record<T, P>, E>(
                    batch.records@[i],
                )
        },
        batch is Err <==> exists|i: int| 0 <= i < chunk.len() && (#[trigger] chunk[i]) is Err,
        batch matches Err(error) ==> exists|i: int|
            {
                &&& 0 <= i < chunk.len()
                &&& #[trigger] chunk[i] == Err::<Record<T, P>, E>(error)
                &&& forall|j: int| 0 <= j < i ==> (#[trigger] chunk[j]) is Ok
            },
{
    match batch {
        Ok(Some(batch)) => {
            assert forall|i: int| 0 <= i < chunk.len() implies #[trigger] chunk[i] == Ok::<
                Record<T, P>,
                E,
            >(batch.records@[i]) by {
                assert(chunk[i] is Ok);
            }
        },
        Ok(None) => {},
        Err(error) => {
            first_failures_are_unique(chunk, error, error);
        },
    }
}

/// A record is a unit of its own position, a batch is a unit of the positions of its records, and
/// sharing a unit changes none of them.
pub proof fn units_stand_at_their_records<T, P>(
    record: Record<T, P>,
    batch: Batch<T, P>,
    shared_record: SharedRecord<T, P>,
    shared_batch: SharedBatch<T, P>,
)
    ensures
        record.positions().len() == 1 && record.positions()[0] == record.at(),
        batch.positions().len() == batch.records@.len(),
        forall|i: int|
            0 <= i < batch.records@.len() ==> #[trigger] batch.positions()[i]
                == batch.records@[i].at(),
        shared_record.positions() == (*shared_record).positions(),
        shared_batch.positions() == (*shared_batch).positions(),
{
}

} // verus!
