//! The account of source positions that commits are held to.
//!
//! Nothing here runs: a [`History`] says which positions entered delivery, how they were cut into
//! checkpoint epochs, and how far acknowledgement and commit have come.
use crate::policy::PositionAction;
use vstd::prelude::*;

verus! {

/// Which positions entered delivery, and how far they have come.
///
/// Closed epochs stand in source order. The first `committed` of them have been persisted, the
/// first `handed` have been handed out to be persisted, and the first `eligible` may be.
#[verifier::ext_equal]
pub struct History<P> {
    /// The positions of each closed epoch.
    pub closed: Seq<Seq<P>>,
    /// The positions of the open epoch.
    pub open: Seq<P>,
    pub committed: nat,
    pub handed: nat,
    pub eligible: nat,
    /// How many positions, from the first on, belong to acknowledged delivery units.
    pub acknowledged: nat,
}

impl<P> History<P> {
    /// Nothing has happened.
    pub open spec fn empty() -> Self {
        History {
            closed: Seq::empty(),
            open: Seq::empty(),
            committed: 0,
            handed: 0,
            eligible: 0,
            acknowledged: 0,
        }
    }

    /// Every position that entered delivery, in order.
    pub open spec fn entered(self) -> Seq<P> {
        self.closed.flatten() + self.open
    }

    /// Every position that belongs to a persisted epoch, in order.
    pub open spec fn persisted(self) -> Seq<P> {
        self.closed.take(self.committed as int).flatten()
    }

    /// Every position that belongs to an epoch that may be persisted, in order.
    pub open spec fn persistable(self) -> Seq<P> {
        self.closed.take(self.eligible as int).flatten()
    }

    /// The counters are in order, no epoch is empty, and every closed epoch may be persisted once
    /// every position is acknowledged.
    pub open spec fn is_consistent(self) -> bool {
        &&& self.committed <= self.handed <= self.eligible <= self.closed.len()
        &&& self.acknowledged <= self.entered().len()
        &&& self.acknowledged == self.entered().len() ==> self.eligible == self.closed.len()
        &&& forall|i: int| 0 <= i < self.closed.len() ==> (#[trigger] self.closed[i]).len() > 0
    }

    /// Only acknowledged positions may be persisted.
    pub open spec fn is_safe(self) -> bool {
        self.persistable().len() <= self.acknowledged
    }

    /// No delivery unit is on its way: every position that entered delivery is acknowledged, and
    /// every closed epoch may be persisted.
    pub open spec fn is_settled(self) -> bool {
        &&& self.acknowledged == self.entered().len()
        &&& self.eligible == self.closed.len()
    }

    /// A position enters delivery.
    pub open spec fn track(self, action: PositionAction, position: P) -> Self {
        if action == PositionAction::StartNewEpoch && self.open.len() > 0 {
            History { closed: self.closed.push(self.open), open: seq![position], ..self }
        } else {
            History { open: self.open.push(position), ..self }
        }
    }

    /// The delivery unit on its way is acknowledged.
    pub open spec fn acknowledge(self) -> Self {
        History { eligible: self.closed.len(), acknowledged: self.entered().len(), ..self }
    }

    /// The open epoch is closed, and every closed epoch may be persisted.
    pub open spec fn close(self) -> Self {
        if self.open.len() > 0 {
            History {
                closed: self.closed.push(self.open),
                open: Seq::empty(),
                eligible: self.closed.len() + 1,
                ..self
            }
        } else {
            History { eligible: self.closed.len(), ..self }
        }
    }

    /// The first epoch that may be persisted and was not handed out yet is handed out.
    pub open spec fn hand_out(self) -> Self {
        if self.handed < self.eligible {
            History { handed: self.handed + 1, ..self }
        } else {
            self
        }
    }

    /// Whatever was handed out has been persisted.
    pub open spec fn commit(self) -> Self {
        History { committed: self.handed, ..self }
    }
}

/// A prefix of the parts flattens to a prefix of the whole.
pub proof fn lemma_flatten_prefix<P>(parts: Seq<Seq<P>>, count: nat)
    requires
        count <= parts.len(),
    ensures
        parts.take(count as int).flatten().len() <= parts.flatten().len(),
        parts.flatten().take(parts.take(count as int).flatten().len() as int) == parts.take(
            count as int,
        ).flatten(),
{
    let head = parts.take(count as int);
    let tail = parts.skip(count as int);
    assert(parts =~= head + tail);
    vstd::seq_lib::lemma_flatten_concat(head, tail);
    assert(parts.flatten().take(head.flatten().len() as int) =~= head.flatten());
}

/// A position that enters delivery comes after every earlier one and moves none of them.
pub proof fn tracking_appends<P>(history: History<P>, action: PositionAction, position: P)
    requires
        history.is_consistent(),
    ensures
        history.track(action, position).entered() == history.entered().push(position),
        history.track(action, position).is_consistent(),
        history.is_safe() ==> history.track(action, position).is_safe(),
        history.track(action, position).persistable() == history.persistable(),
        history.track(action, position).persisted() == history.persisted(),
{
    let next = history.track(action, position);
    history.closed.lemma_flatten_push(history.open);
    assert(next.entered() =~= history.entered().push(position));
    assert(next.closed.take(history.eligible as int) =~= history.closed.take(
        history.eligible as int,
    ));
    assert(next.closed.take(history.committed as int) =~= history.closed.take(
        history.committed as int,
    ));
}

/// Acknowledging a delivery unit neither loses nor moves a position, and only then may its epochs
/// be persisted.
pub proof fn acknowledging_keeps_positions<P>(history: History<P>)
    requires
        history.is_consistent(),
    ensures
        history.acknowledge().entered() == history.entered(),
        history.acknowledge().is_consistent(),
        history.acknowledge().is_safe(),
        history.acknowledge().is_settled(),
        history.acknowledge().persisted() == history.persisted(),
{
    let next = history.acknowledge();
    assert(next.closed.take(next.eligible as int) =~= next.closed);
}

/// Closing the open epoch neither loses nor moves a position.
pub proof fn closing_keeps_positions<P>(history: History<P>)
    requires
        history.is_consistent(),
    ensures
        history.close().entered() == history.entered(),
        history.close().is_consistent(),
        history.close().persisted() == history.persisted(),
        history.close().persistable() == history.entered(),
        history.acknowledged == history.entered().len() ==> history.close().is_safe()
            && history.close().is_settled(),
{
    let next = history.close();
    history.closed.lemma_flatten_push(history.open);
    assert(next.entered() =~= history.entered());
    assert(next.closed.take(next.eligible as int) =~= next.closed);
    assert(next.closed.flatten() =~= history.entered());
    assert(next.closed.take(next.committed as int) =~= history.closed.take(
        history.committed as int,
    ));
}

/// Handing epochs out and confirming them neither loses nor moves a position.
pub proof fn committing_keeps_positions<P>(history: History<P>)
    requires
        history.is_consistent(),
    ensures
        history.hand_out().entered() == history.entered(),
        history.hand_out().is_consistent(),
        history.is_safe() ==> history.hand_out().is_safe(),
        history.commit().entered() == history.entered(),
        history.commit().is_consistent(),
        history.is_safe() ==> history.commit().is_safe(),
{
}

/// What has been persisted is a prefix, in source order, of what has been acknowledged: nothing is
/// persisted that was not delivered, nothing is skipped, and nothing is persisted out of order.
pub proof fn persisted_is_acknowledged<P>(history: History<P>)
    requires
        history.is_consistent(),
        history.is_safe(),
    ensures
        history.persisted().len() <= history.acknowledged <= history.entered().len(),
        history.persisted() == history.entered().take(history.persisted().len() as int),
{
    let whole = history.closed;
    lemma_flatten_prefix(whole, history.committed);
    lemma_flatten_prefix(whole.take(history.eligible as int), history.committed);
    assert(whole.take(history.eligible as int).take(history.committed as int) =~= whole.take(
        history.committed as int,
    ));
    assert(history.entered().take(history.persisted().len() as int) =~= whole.flatten().take(
        history.persisted().len() as int,
    ));
}

} // verus!
