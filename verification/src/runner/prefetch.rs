//! Materializing batches ahead of their delivery.
use crate::policy::BatchPolicy;
use vstd::prelude::*;

verus! {

/// What becomes of one item of the batch stream.
pub enum Prefetch<T, E> {
    /// The batch is handed to delivery, and the stream is polled again.
    Send(T),
    /// There was nothing to deliver, and the stream is polled again.
    Skip,
    /// The failure is handed to delivery, and the stream is not polled again.
    SendLast(E),
    /// The stream has ended.
    Stop,
}

/// What becomes of one item of the batch stream.
pub open spec fn prefetched<T, E>(item: Option<Result<Option<T>, E>>) -> Prefetch<T, E> {
    match item {
        Some(Ok(Some(batch))) => Prefetch::Send(batch),
        Some(Ok(None)) => Prefetch::Skip,
        Some(Err(error)) => Prefetch::SendLast(error),
        None => Prefetch::Stop,
    }
}

/// What becomes of one item of the batch stream.
pub fn prefetch_step<T, E>(item: Option<Result<Option<T>, E>>) -> (step: Prefetch<T, E>)
    ensures
        step == prefetched(item),
{
    match item {
        Some(Ok(Some(batch))) => Prefetch::Send(batch),
        Some(Ok(None)) => Prefetch::Skip,
        Some(Err(error)) => Prefetch::SendLast(error),
        None => Prefetch::Stop,
    }
}

/// What delivery sees of a stream of items that it polls itself: every batch up to the first
/// failure, and that failure.
pub open spec fn seen_directly<T, E>(items: Seq<Result<Option<T>, E>>) -> (Seq<T>, Option<E>)
    decreases items.len(),
{
    if items.len() == 0 {
        (Seq::empty(), None)
    } else {
        let (rest, failure) = seen_directly(items.drop_first());
        match items[0] {
            Ok(Some(batch)) => (seq![batch] + rest, failure),
            Ok(None) => (rest, failure),
            Err(error) => (Seq::empty(), Some(error)),
        }
    }
}

/// What is handed to delivery of a stream of items that is polled ahead of it, in order.
pub open spec fn handed_over<T, E>(items: Seq<Result<Option<T>, E>>) -> Seq<Result<T, E>>
    decreases items.len(),
{
    if items.len() == 0 {
        Seq::empty()
    } else {
        match prefetched(Some(items[0])) {
            Prefetch::Send(batch) => seq![Ok(batch)] + handed_over(items.drop_first()),
            Prefetch::Skip => handed_over(items.drop_first()),
            Prefetch::SendLast(error) => seq![Err(error)],
            Prefetch::Stop => Seq::empty(),
        }
    }
}

/// What delivery sees of what is handed to it: every batch up to the first failure, and that
/// failure.
pub open spec fn seen_in_handover<T, E>(handover: Seq<Result<T, E>>) -> (Seq<T>, Option<E>)
    decreases handover.len(),
{
    if handover.len() == 0 {
        (Seq::empty(), None)
    } else {
        let (rest, failure) = seen_in_handover(handover.drop_first());
        match handover[0] {
            Ok(batch) => (seq![batch] + rest, failure),
            Err(error) => (Seq::empty(), Some(error)),
        }
    }
}

/// Prefetching changes neither which batches are delivered nor their order, nor the failure that
/// ends the run.
pub proof fn prefetching_keeps_order<T, E>(items: Seq<Result<Option<T>, E>>)
    ensures
        seen_in_handover(handed_over(items)) == seen_directly(items),
    decreases items.len(),
{
    if items.len() > 0 {
        let rest = items.drop_first();
        prefetching_keeps_order(rest);
        match items[0] {
            Ok(Some(batch)) => {
                let handover = handed_over(items);
                assert(handover.drop_first() =~= handed_over(rest));
            },
            Ok(None) => {},
            Err(error) => {},
        }
    }
}

/// How far batches are ahead of their delivery: a batch counts from when it is handed over until it
/// is taken to be delivered.
pub struct Lookahead {
    limit: usize,
    ahead: usize,
    handed: Ghost<nat>,
    taken: Ghost<nat>,
}

impl Lookahead {
    /// The most batches that may be ahead.
    pub closed spec fn limit(self) -> usize {
        self.limit
    }

    /// How many batches, or failures in their place, have been handed over.
    pub closed spec fn handed(self) -> nat {
        self.handed@
    }

    /// How many of them have been taken.
    pub closed spec fn taken(self) -> nat {
        self.taken@
    }

    /// How many of them have been handed over and not yet taken.
    pub open spec fn ahead(self) -> int {
        self.handed() - self.taken()
    }

    #[verifier::type_invariant]
    spec fn is_valid(self) -> bool {
        &&& self.ahead == self.handed@ - self.taken@
        &&& self.ahead <= self.limit
    }

    /// Nothing is ahead yet.
    pub fn start(policy: BatchPolicy) -> (lookahead: Self)
        ensures
            lookahead.limit() == policy.lookahead(),
            lookahead.handed() == 0,
            lookahead.taken() == 0,
    {
        Lookahead { limit: policy.prefetched(), ahead: 0, handed: Ghost(0), taken: Ghost(0) }
    }

    /// Whether the batch stream may be polled: there is room for one more batch.
    pub fn may_poll(&self) -> (room: bool)
        ensures
            room == (self.ahead() < self.limit()),
            0 <= self.ahead() <= self.limit(),
    {
        proof {
            use_type_invariant(self);
        }
        self.ahead < self.limit
    }

    /// The batch stream has been polled while there was room: what becomes of the item.
    pub fn on_item<T, E>(&mut self, item: Option<Result<Option<T>, E>>) -> (step: Prefetch<T, E>)
        requires
            old(self).ahead() < old(self).limit(),
        ensures
            step == prefetched(item),
            final(self).limit() == old(self).limit(),
            final(self).taken() == old(self).taken(),
            final(self).handed() == old(self).handed() + (if step is Send || step is SendLast {
                1nat
            } else {
                0nat
            }),
            0 <= final(self).ahead() <= final(self).limit(),
    {
        proof {
            use_type_invariant(&*self);
        }
        let step = prefetch_step(item);
        let handed_over = match &step {
            Prefetch::Send(_) => true,
            Prefetch::SendLast(_) => true,
            _ => false,
        };
        if handed_over {
            *self = Lookahead {
                limit: self.limit,
                ahead: self.ahead + 1,
                handed: Ghost(self.handed@ + 1),
                taken: self.taken,
            };
        }
        step
    }

    /// What was handed over first has been taken.
    pub fn on_taken(&mut self)
        requires
            old(self).ahead() > 0,
        ensures
            final(self).limit() == old(self).limit(),
            final(self).handed() == old(self).handed(),
            final(self).taken() == old(self).taken() + 1,
            0 <= final(self).ahead() < final(self).limit(),
    {
        proof {
            use_type_invariant(&*self);
        }
        *self = Lookahead {
            limit: self.limit,
            ahead: self.ahead - 1,
            handed: self.handed,
            taken: Ghost(self.taken@ + 1),
        };
    }
}

/// Only the end of the batch stream stops it, only a failure is handed over last, and nothing but an
/// empty chunk is skipped.
pub proof fn prefetching_loses_nothing<T, E>(item: Option<Result<Option<T>, E>>)
    ensures
        prefetched(item) is Stop <==> item is None,
        prefetched(item) is Skip <==> (item matches Some(Ok(None))),
        item matches Some(Ok(Some(batch))) ==> prefetched(item) == Prefetch::<T, E>::Send(batch),
        item matches Some(Err(error)) ==> prefetched(item) == Prefetch::<T, E>::SendLast(error),
{
}

} // verus!
