//! Checkpoints: progress folded out of source positions, one epoch at a time.
use std::convert::Infallible;
use vstd::prelude::*;

verus! {

/// Checkpoints on both sides of a source-position checkpoint epoch boundary.
#[derive(Debug, PartialEq, Eq)]
pub struct CheckpointEpochTransition<C> {
    /// The completed checkpoint epoch preceding the boundary position.
    pub completed_epoch: C,
    /// The new pending checkpoint epoch beginning with the boundary position.
    pub next_epoch: C,
}

impl<C: Clone> Clone for CheckpointEpochTransition<C> {
    fn clone(&self) -> (copy: Self)
        ensures
            vstd::pervasive::cloned(self.completed_epoch, copy.completed_epoch),
            vstd::pervasive::cloned(self.next_epoch, copy.next_epoch),
    {
        CheckpointEpochTransition {
            completed_epoch: self.completed_epoch.clone(),
            next_epoch: self.next_epoch.clone(),
        }
    }
}

/// Constructs checkpoint epochs from source positions.
///
/// What an epoch holds is a function of the positions handed to it. A verified implementation says
/// which. The provided model is for implementations that are not verified: each of its functions is
/// one fixed value, of which nothing is known, whatever its arguments.
pub trait Checkpoint<P>: Sized {
    /// The model of what an epoch holds.
    type Content;

    /// What the epoch holds.
    open spec fn content(&self) -> Self::Content {
        vstd::pervasive::arbitrary()
    }

    /// What an epoch holds that was started from its first position alone.
    open spec fn starting(first_position: P) -> Self::Content {
        vstd::pervasive::arbitrary()
    }

    /// What an epoch holds once it has been handed one more position.
    open spec fn including(content: Self::Content, position: P) -> Self::Content {
        vstd::pervasive::arbitrary()
    }

    /// Construct the first checkpoint epoch from its first position.
    fn start_epoch(first_position: &P) -> (epoch: Self)
        ensures
            epoch.content() == Self::starting(*first_position),
    ;

    /// Add another position to the currently open checkpoint epoch.
    fn include_position(&mut self, position: &P)
        ensures
            final(self).content() == Self::including(old(self).content(), *position),
    ;

    /// Close this epoch and construct the next epoch containing the boundary position.
    ///
    /// A checkpoint that represents a complete frontier may carry what it holds over into the next
    /// epoch. The provided method starts the next epoch from the boundary position alone.
    fn start_next_epoch(self, first_position_of_next_epoch: &P) -> (transition:
        CheckpointEpochTransition<Self>)
        default_ensures
            transition.completed_epoch == self,
            transition.next_epoch.content() == Self::starting(*first_position_of_next_epoch),
    {
        CheckpointEpochTransition {
            completed_epoch: self,
            next_epoch: Self::start_epoch(first_position_of_next_epoch),
        }
    }
}

/// Whether `transition` is what closing `epoch` before `position` may give.
pub open spec fn may_advance<P, C: Checkpoint<P>>(
    epoch: C,
    position: P,
    transition: CheckpointEpochTransition<C>,
) -> bool {
    call_ensures(C::start_next_epoch, (epoch, &position), transition)
}

/// Whether closing an epoch never changes it and never carries anything over into the next one.
pub open spec fn epochs_are_independent<P, C: Checkpoint<P>>() -> bool {
    forall|epoch: C, position: P, transition: CheckpointEpochTransition<C>| #[trigger]
        may_advance(epoch, position, transition) ==> transition.completed_epoch.content() == epoch.content()
            && transition.next_epoch.content() == C::starting(position)
}

/// What an epoch holds that was folded out of a nonempty run of positions, in order.
pub open spec fn epoch_of<P, C: Checkpoint<P>>(positions: Seq<P>) -> C::Content
    recommends
        positions.len() > 0,
    decreases positions.len(),
{
    if positions.len() <= 1 {
        C::starting(positions[0])
    } else {
        C::including(epoch_of::<P, C>(positions.drop_last()), positions.last())
    }
}

/// Durable storage for an opaque source checkpoint.
///
/// Loading and saving are asynchronous and belong to the runtime side of a store.
pub trait CheckpointStore<C> {
    type Error;
}

/// Checkpoint implementation used when persistence is disabled.
#[derive(Debug, Default, Clone, Copy)]
pub struct NoCheckpoint;

impl<C> CheckpointStore<C> for NoCheckpoint {
    type Error = Infallible;
}

impl NoCheckpoint {
    /// Nothing has been saved, whatever the checkpoint type.
    pub fn load<C>(self) -> (loaded: Result<Option<C>, Infallible>)
        ensures
            loaded == Ok::<Option<C>, Infallible>(None),
    {
        Ok(None)
    }

    /// Saving always succeeds and keeps nothing.
    pub fn save<C>(self, _checkpoint: &C) -> (saved: Result<(), Infallible>)
        ensures
            saved == Ok::<(), Infallible>(()),
    {
        Ok(())
    }
}

/// What loading from a store that may be absent came to: without a store there is no checkpoint.
pub fn load_optional<C, E>(loaded: Option<Result<Option<C>, E>>) -> (outcome: Result<Option<C>, E>)
    ensures
        outcome == (match loaded {
            Some(loaded) => loaded,
            None => Ok(None),
        }),
{
    match loaded {
        Some(loaded) => loaded,
        None => Ok(None),
    }
}

/// What saving to a store that may be absent came to: without a store nothing is kept, and nothing
/// fails.
pub fn save_optional<E>(saved: Option<Result<(), E>>) -> (outcome: Result<(), E>)
    ensures
        outcome == (match saved {
            Some(saved) => saved,
            None => Ok(()),
        }),
{
    match saved {
        Some(saved) => saved,
        None => Ok(()),
    }
}

impl<C, S: CheckpointStore<C>> CheckpointStore<C> for Option<S> {
    type Error = S::Error;
}

/// An epoch is started by its first position and includes every later one, in order: one more position
/// is included on top of all the others.
pub proof fn epochs_include_every_position<P, C: Checkpoint<P>>(positions: Seq<P>, next: P)
    requires
        positions.len() > 0,
    ensures
        epoch_of::<P, C>(seq![next]) == C::starting(next),
        epoch_of::<P, C>(positions.push(next)) == C::including(
            epoch_of::<P, C>(positions),
            next,
        ),
{
    assert(positions.push(next).drop_last() =~= positions);
}

} // verus!
