//! Branches with a transform of their own.
use crate::record::Record;
use crate::sink;
use crate::sink::collect_values;
use crate::transform::Identity;
use std::sync::Arc;
use vstd::prelude::*;

verus! {

/// Type-state marker for a branch without a sink.
#[derive(Debug, Default, Clone, Copy)]
pub struct BranchUnset;

/// One sink-specific transform and its terminal sink.
pub struct Branch<T, S = BranchUnset> {
    pub name: String,
    pub index: usize,
    pub transform: T,
    pub sink: S,
}

impl<T> Branch<T, BranchUnset> {
    /// A branch without a sink, as yet the first.
    pub fn new(name: impl Into<String>, transform: T) -> (branch: Self)
        ensures
            call_ensures(Into::<String>::into, (name,), branch.name),
            branch.index == 0,
            branch.transform == transform,
    {
        Self { name: name.into(), index: 0, transform, sink: BranchUnset }
    }

    /// End the branch in a sink.
    pub fn sink<S>(self, sink: S) -> (branch: Branch<T, S>)
        ensures
            branch == (Branch {
                name: self.name,
                index: self.index,
                transform: self.transform,
                sink,
            }),
    {
        Branch { name: self.name, index: self.index, transform: self.transform, sink }
    }
}

impl Branch<Identity, BranchUnset> {
    /// A branch that passes its records through unchanged.
    pub fn identity(name: impl Into<String>) -> (branch: Self)
        ensures
            call_ensures(Into::<String>::into, (name,), branch.name),
            branch.index == 0,
    {
        Self::new(name, Identity)
    }
}

/// What failed in a branch.
#[derive(Debug, Clone, Copy, PartialEq, Eq, Structural)]
pub enum BranchStage {
    Transform,
    Sink,
}

/// The cause of a branch failure.
#[derive(Debug)]
pub enum BranchCause<Te, Se> {
    Transform(Te),
    Sink(Se),
}

/// A failure of one branch, with the branch that it belongs to.
#[derive(Debug)]
pub struct BranchFailure<Te, Se> {
    pub name: String,
    pub index: usize,
    pub cause: BranchCause<Te, Se>,
}

impl<Te, Se> BranchFailure<Te, Se> {
    /// What failed.
    pub fn stage(&self) -> (stage: BranchStage)
        ensures
            stage == (match self.cause {
                BranchCause::Transform(_) => BranchStage::Transform,
                BranchCause::Sink(_) => BranchStage::Sink,
            }),
    {
        match self.cause {
            BranchCause::Transform(_) => BranchStage::Transform,
            BranchCause::Sink(_) => BranchStage::Sink,
        }
    }
}

/// Which branch something belongs to.
#[derive(Debug)]
pub struct BranchMeta {
    pub name: String,
    pub index: usize,
}

impl Clone for BranchMeta {
    fn clone(&self) -> (copy: Self)
        ensures
            copy == *self,
    {
        BranchMeta { name: self.name.clone(), index: self.index }
    }
}

/// What a fanout over branches knows of each of them.
///
/// Running a branch is asynchronous and belongs to the runtime side.
pub trait ExecuteBranch {
    /// The name of the branch.
    spec fn branch_name(&self) -> Seq<char>;

    /// The place of the branch among the others.
    spec fn branch_index(&self) -> usize;

    fn metadata(&self) -> (metadata: BranchMeta)
        ensures
            metadata.name@ == self.branch_name(),
            metadata.index == self.branch_index(),
    ;
}

impl<T, S> ExecuteBranch for Branch<T, S> {
    open spec fn branch_name(&self) -> Seq<char> {
        self.name@
    }

    open spec fn branch_index(&self) -> usize {
        self.index
    }

    fn metadata(&self) -> (metadata: BranchMeta) {
        BranchMeta { name: self.name.clone(), index: self.index }
    }
}

impl<T, S> Branch<T, S> {
    /// The records that a branch delivers: every one that its transform made, or the first failure.
    pub fn transformed<O, C, Te, Se>(&self, results: Vec<Result<Record<O, C>, Te>>) -> (records:
        Result<Vec<Record<O, C>>, BranchFailure<Te, Se>>)
        ensures
            records is Ok <==> sink::all_ok(results@),
            records matches Ok(records) ==> records@ == sink::values(results@),
            records matches Err(failure) ==> {
                &&& failure.name@ == self.name@
                &&& failure.index == self.index
                &&& failure.cause matches BranchCause::Transform(error) && sink::first_failure(
                    results@,
                    error,
                )
            },
    {
        match collect_values(results) {
            Ok(records) => Ok(records),
            Err(error) => Err(
                BranchFailure {
                    name: self.name.clone(),
                    index: self.index,
                    cause: BranchCause::Transform(error),
                },
            ),
        }
    }

    /// The outcome of delivering what a branch made.
    pub fn delivered<C, Te, Se>(&self, delivery: Result<C, Se>) -> (outcome: Result<
        C,
        BranchFailure<Te, Se>,
    >)
        ensures
            match (delivery, outcome) {
                (Ok(cursor), Ok(acknowledged)) => acknowledged == cursor,
                (Err(error), Err(failure)) => {
                    &&& failure.name@ == self.name@
                    &&& failure.index == self.index
                    &&& failure.cause == BranchCause::<Te, Se>::Sink(error)
                },
                _ => false,
            },
    {
        match delivery {
            Ok(cursor) => Ok(cursor),
            Err(error) => Err(
                BranchFailure {
                    name: self.name.clone(),
                    index: self.index,
                    cause: BranchCause::Sink(error),
                },
            ),
        }
    }
}

/// Empty branch-list terminator.
#[derive(Debug, Default, Clone, Copy)]
pub struct Nil;

/// A compile-time heterogeneous list of registered branches.
pub struct Cons<H, T> {
    pub head: Arc<H>,
    pub tail: T,
}

/// A list of branches, spawned from the head on.
pub trait SpawnBranches {
    /// The names and places of the branches, in the order in which they are spawned.
    spec fn spawned(&self) -> Seq<(Seq<char>, usize)>;

    /// Append what is known of each branch, in the order in which they are spawned.
    fn collect_metadata(&self, metadata: &mut Vec<BranchMeta>)
        ensures
            final(metadata)@.len() == old(metadata)@.len() + self.spawned().len(),
            forall|i: int|
                0 <= i < old(metadata)@.len() ==> #[trigger] final(metadata)@[i] == old(metadata)@[i],
            forall|i: int|
                0 <= i < self.spawned().len() ==> {
                    &&& (#[trigger] final(metadata)@[old(metadata)@.len() + i]).name@
                        == self.spawned()[i].0
                    &&& final(metadata)@[old(metadata)@.len() + i].index == self.spawned()[i].1
                },
    ;
}

impl SpawnBranches for Nil {
    open spec fn spawned(&self) -> Seq<(Seq<char>, usize)> {
        Seq::empty()
    }

    fn collect_metadata(&self, metadata: &mut Vec<BranchMeta>) {
    }
}

impl<H: ExecuteBranch, T: SpawnBranches> SpawnBranches for Cons<H, T> {
    open spec fn spawned(&self) -> Seq<(Seq<char>, usize)> {
        seq![(self.head.branch_name(), self.head.branch_index())] + self.tail.spawned()
    }

    fn collect_metadata(&self, metadata: &mut Vec<BranchMeta>) {
        let ghost before = metadata@;
        let head = (*self.head).metadata();
        metadata.push(head);
        let ghost between = metadata@;
        self.tail.collect_metadata(metadata);
        proof {
            assert forall|i: int| 0 <= i < before.len() implies #[trigger] metadata@[i]
                == before[i] by {
                assert(metadata@[i] == between[i]);
            }
            assert forall|i: int| 0 <= i < self.spawned().len() implies {
                &&& (#[trigger] metadata@[before.len() + i]).name@ == self.spawned()[i].0
                &&& metadata@[before.len() + i].index == self.spawned()[i].1
            } by {
                if i == 0 {
                    assert(metadata@[before.len() as int] == between[before.len() as int]);
                } else {
                    assert(self.spawned()[i] == self.tail.spawned()[i - 1]);
                    assert(before.len() + i == between.len() + (i - 1));
                }
            }
        }
    }
}

/// Branches are spawned one behind the other, from the head of their list on, each under its own name
/// and in its own place.
pub proof fn branches_are_spawned_from_the_head<T, S, L: SpawnBranches>(
    list: Cons<Branch<T, S>, L>,
    i: int,
)
    ensures
        Nil.spawned().len() == 0,
        list.spawned().len() == list.tail.spawned().len() + 1,
        list.spawned()[0].0 == list.head.name@,
        list.spawned()[0].1 == list.head.index,
        0 <= i < list.tail.spawned().len() ==> list.spawned()[i + 1] == list.tail.spawned()[i],
{
}

} // verus!
