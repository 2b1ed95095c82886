//! Handing one unit to several branches, and making one outcome of theirs.
use crate::error::{DeliveryFailure, PipelineError};
use crate::record;
use crate::record::Record;
use crate::sink::Batch;
use std::sync::Arc;
use vstd::prelude::*;

verus! {

/// What a spawned branch came to: its sink's own outcome, or the failure of the task.
pub type Joined<E> = Result<Result<(), E>, tokio::task::JoinError>;

/// A fanout has at least one branch.
pub fn require_branches<So, Tr, Si>(branches: usize) -> (checked: Result<
    (),
    PipelineError<So, Tr, Si>,
>)
    ensures
        checked == (if branches == 0 {
            Err(PipelineError::<So, Tr, Si>::NoSinks)
        } else {
            Ok(())
        }),
{
    if branches == 0 {
        Err(PipelineError::NoSinks)
    } else {
        Ok(())
    }
}

/// Whether `inputs` are one copy of a unit for every branch.
pub open spec fn are_copies<U: Clone>(unit: U, branches: usize, inputs: Seq<U>) -> bool {
    &&& inputs.len() == branches
    &&& forall|i: int| 0 <= i < branches ==> vstd::pervasive::cloned(unit, #[trigger] inputs[i])
}

/// Whether `inputs` are one owned unit for every branch: copies for all but the last, and the unit
/// itself for the last.
pub open spec fn are_owned<U: Clone>(unit: U, branches: usize, inputs: Seq<U>) -> bool {
    &&& inputs.len() == branches
    &&& forall|i: int|
        0 <= i < branches - 1 ==> vstd::pervasive::cloned(unit, #[trigger] inputs[i])
    &&& inputs.last() == unit
}

/// Whether cloning a value of this type always gives the same value.
pub open spec fn clones_are_exact<U: Clone>() -> bool {
    forall|unit: U, copy: U| #[trigger] vstd::pervasive::cloned(unit, copy) ==> copy == unit
}

/// Where a clone equals its original, every branch gets the unit.
pub proof fn branches_get_the_unit<U: Clone>(unit: U, branches: usize, inputs: Seq<U>)
    requires
        branches > 0,
        are_owned(unit, branches, inputs) || are_copies(unit, branches, inputs),
        clones_are_exact::<U>(),
    ensures
        inputs.len() == branches,
        forall|i: int| 0 <= i < branches ==> #[trigger] inputs[i] == unit,
{
    assert forall|i: int| 0 <= i < branches implies #[trigger] inputs[i] == unit by {
        if i < branches - 1 || are_copies(unit, branches, inputs) {
            assert(vstd::pervasive::cloned(unit, inputs[i]));
        }
    }
}

/// Over a whole run every branch gets every unit once, in order, where a clone equals its original:
/// `handed[k]` is what the branches get of `units[k]`.
pub proof fn branches_get_every_unit<U: Clone>(
    units: Seq<U>,
    branches: usize,
    handed: Seq<Seq<U>>,
    branch: int,
)
    requires
        0 <= branch < branches,
        handed.len() == units.len(),
        forall|k: int|
            0 <= k < units.len() ==> {
                ||| are_owned(units[k], branches, #[trigger] handed[k])
                ||| are_copies(units[k], branches, handed[k])
            },
        clones_are_exact::<U>(),
    ensures
        handed.map_values(|inputs: Seq<U>| inputs[branch]) == units,
{
    assert forall|k: int| 0 <= k < units.len() implies #[trigger] handed[k][branch] == units[k] by {
        branches_get_the_unit(units[k], branches, handed[k]);
    }
    assert(handed.map_values(|inputs: Seq<U>| inputs[branch]) =~= units);
}

/// Where the clones of payloads and positions equal their originals, so do the clones of records.
pub proof fn cloned_records_are_equal<T: Clone, P: Clone>()
    requires
        clones_are_exact::<T>(),
        clones_are_exact::<P>(),
    ensures
        clones_are_exact::<Record<T, P>>(),
{
    assert forall|unit: Record<T, P>, copy: Record<T, P>| #[trigger]
        vstd::pervasive::cloned(unit, copy) implies copy == unit by {
        record::parts_tell_records(unit, copy);
    }
}

/// Where the clones of payloads and positions equal their originals, every branch gets equal records
/// in equal order.
pub proof fn branches_get_equal_records<T: Clone, P: Clone>(
    unit: Batch<T, P>,
    branches: usize,
    inputs: Seq<Batch<T, P>>,
)
    requires
        branches > 0,
        are_owned(unit, branches, inputs) || are_copies(unit, branches, inputs),
        clones_are_exact::<T>(),
        clones_are_exact::<P>(),
    ensures
        inputs.len() == branches,
        forall|i: int| 0 <= i < branches ==> (#[trigger] inputs[i]).records@ == unit.records@,
{
    cloned_records_are_equal::<T, P>();
    assert forall|i: int| 0 <= i < branches implies (#[trigger] inputs[i]).records@
        == unit.records@ by {
        if i < branches - 1 || are_copies(unit, branches, inputs) {
            assert(vstd::pervasive::cloned(unit, inputs[i]));
            assert forall|k: int| 0 <= k < unit.records@.len() implies #[trigger] inputs[i].records@[k]
                == unit.records@[k] by {
                assert(vstd::pervasive::cloned(unit.records@[k], inputs[i].records@[k]));
            }
            assert(inputs[i].records@ =~= unit.records@);
        }
    }
}

/// One owned unit for every branch: copies for all but the last, and the unit itself for the last.
pub fn owned_inputs<U: Clone>(unit: U, branches: usize) -> (inputs: Vec<U>)
    requires
        branches > 0,
    ensures
        are_owned(unit, branches, inputs@),
{
    let mut inputs: Vec<U> = cloned_inputs(&unit, branches - 1);
    inputs.push(unit);
    inputs
}

/// One copy of a unit for every branch.
pub fn cloned_inputs<U: Clone>(unit: &U, branches: usize) -> (inputs: Vec<U>)
    ensures
        are_copies(*unit, branches, inputs@),
{
    let mut inputs: Vec<U> = Vec::with_capacity(branches);
    let mut index: usize = 0;
    while index < branches
        invariant
            index <= branches,
            inputs@.len() == index,
            forall|i: int|
                0 <= i < index ==> vstd::pervasive::cloned(*unit, #[trigger] inputs@[i]),
        decreases branches - index,
    {
        inputs.push(unit.clone());
        index = index + 1;
    }
    inputs
}

/// Another handle on a shared value, by `Arc::clone`: both refer to the same value.
#[verifier::external_body]
fn share<U>(unit: &Arc<U>) -> (handle: Arc<U>)
    ensures
        handle == *unit,
{
    Arc::clone(unit)
}

/// The same shared unit for every branch.
pub fn shared_inputs<U>(unit: U, branches: usize) -> (inputs: Vec<Arc<U>>)
    ensures
        inputs@.len() == branches,
        forall|i: int| 0 <= i < branches ==> *(#[trigger] inputs@[i]) == unit,
{
    let unit = Arc::new(unit);
    let mut inputs: Vec<Arc<U>> = Vec::with_capacity(branches);
    let mut index: usize = 0;
    while index < branches
        invariant
            index <= branches,
            inputs@.len() == index,
            forall|i: int| 0 <= i < index ==> *(#[trigger] inputs@[i]) == *unit,
        decreases branches - index,
    {
        inputs.push(share(&unit));
        index = index + 1;
    }
    inputs
}

/// The failure of one branch, if it failed.
pub open spec fn failure_of<E>(joined: Joined<E>) -> Option<DeliveryFailure<E>> {
    match joined {
        Ok(Ok(_)) => None,
        Ok(Err(error)) => Some(DeliveryFailure::Sink(error)),
        Err(error) => Some(DeliveryFailure::Task(error)),
    }
}

/// The failures of several branches, in the order in which the branches ended.
pub open spec fn failures_of<E>(joined: Seq<Joined<E>>) -> Seq<DeliveryFailure<E>>
    decreases joined.len(),
{
    if joined.len() == 0 {
        Seq::empty()
    } else {
        match failure_of(joined.last()) {
            Some(failure) => failures_of(joined.drop_last()).push(failure),
            None => failures_of(joined.drop_last()),
        }
    }
}

/// Whether every branch succeeded.
pub open spec fn all_succeeded<E>(joined: Seq<Joined<E>>) -> bool {
    forall|i: int| 0 <= i < joined.len() ==> failure_of(#[trigger] joined[i]) is None
}

/// There is no failure exactly when every branch succeeded.
pub proof fn failures_tell_success<E>(joined: Seq<Joined<E>>)
    ensures
        failures_of(joined).len() == 0 <==> all_succeeded(joined),
    decreases joined.len(),
{
    if joined.len() > 0 {
        let before = joined.drop_last();
        failures_tell_success(before);
        if all_succeeded(before) && failure_of(joined.last()) is None {
            assert forall|i: int| 0 <= i < joined.len() implies failure_of(
                #[trigger] joined[i],
            ) is None by {
                if i < before.len() {
                    assert(before[i] == joined[i]);
                }
            }
        }
        if all_succeeded(joined) {
            assert forall|i: int| 0 <= i < before.len() implies failure_of(
                #[trigger] before[i],
            ) is None by {
                assert(before[i] == joined[i]);
            }
            assert(failure_of(joined[joined.len() - 1]) is None);
        }
    }
}

/// The failures of every branch, once all of them have ended.
pub fn drain<E>(joined: Vec<Joined<E>>) -> (failures: Vec<DeliveryFailure<E>>)
    ensures
        failures@ == failures_of(joined@),
        failures@.len() == 0 <==> all_succeeded(joined@),
{
    let mut failures: Vec<DeliveryFailure<E>> = Vec::new();
    for outcome in iter: joined
        invariant
            iter.seq() == joined@,
            failures@ == failures_of(joined@.take(iter.index() as int)),
    {
        proof {
            let index = iter.index() as int;
            assert(joined@.take(index + 1).drop_last() =~= joined@.take(index));
            assert(joined@.take(index + 1).last() == joined@[index]);
        }
        match outcome {
            Ok(Ok(_)) => {},
            Ok(Err(error)) => {
                failures.push(DeliveryFailure::Sink(error));
            },
            Err(error) => {
                failures.push(DeliveryFailure::Task(error));
            },
        }
    }
    proof {
        assert(joined@.take(joined@.len() as int) =~= joined@);
        failures_tell_success(joined@);
    }
    failures
}

/// A fanout delivery succeeds if no branch failed, and else reports every failure.
pub fn branches_outcome<So, Tr, Si>(failures: Vec<DeliveryFailure<Si>>) -> (outcome: Result<
    (),
    PipelineError<So, Tr, Si>,
>)
    ensures
        outcome == (if failures@.len() == 0 {
            Ok(())
        } else {
            Err(PipelineError::<So, Tr, Si>::Sinks(failures))
        }),
{
    if failures.is_empty() {
        Ok(())
    } else {
        Err(PipelineError::Sinks(failures))
    }
}

/// The outcome of a fanout delivery once every branch has ended: it succeeds only where every branch
/// did, and else reports every failure.
pub fn fanout_outcome<So, Tr, Si>(joined: Vec<Joined<Si>>) -> (outcome: Result<
    (),
    PipelineError<So, Tr, Si>,
>)
    ensures
        outcome is Ok <==> all_succeeded(joined@),
        match outcome {
            Ok(_) => true,
            Err(PipelineError::Sinks(failures)) => failures@ == failures_of(joined@),
            Err(_) => false,
        },
{
    branches_outcome(drain(joined))
}

/// The outcome of delivering to a single sink.
pub fn sink_outcome<So, Tr, Si>(delivery: Result<(), Si>) -> (outcome: Result<
    (),
    PipelineError<So, Tr, Si>,
>)
    ensures
        outcome == (match delivery {
            Ok(_) => Ok(()),
            Err(error) => Err(PipelineError::<So, Tr, Si>::Sink(DeliveryFailure::Sink(error))),
        }),
{
    match delivery {
        Ok(_) => Ok(()),
        Err(error) => Err(PipelineError::Sink(DeliveryFailure::Sink(error))),
    }
}

/// The failures among several outcomes, in order.
pub open spec fn errors_of<S, E>(results: Seq<Result<S, E>>) -> Seq<DeliveryFailure<E>>
    decreases results.len(),
{
    if results.len() == 0 {
        Seq::empty()
    } else {
        match results.last() {
            Ok(_) => errors_of(results.drop_last()),
            Err(error) => errors_of(results.drop_last()).push(DeliveryFailure::Sink(error)),
        }
    }
}

/// The successes among several outcomes, in order.
pub open spec fn successes_of<S, E>(results: Seq<Result<S, E>>) -> Seq<S>
    decreases results.len(),
{
    if results.len() == 0 {
        Seq::empty()
    } else {
        match results.last() {
            Ok(value) => successes_of(results.drop_last()).push(value),
            Err(_) => successes_of(results.drop_last()),
        }
    }
}

/// Every outcome is either a success or a failure.
pub proof fn outcomes_are_counted<S, E>(results: Seq<Result<S, E>>)
    ensures
        successes_of(results).len() + errors_of(results).len() == results.len(),
    decreases results.len(),
{
    if results.len() > 0 {
        outcomes_are_counted(results.drop_last());
    }
}

/// The values of every branch, in order, or every failure among them.
///
/// Every branch is heard before the outcome is decided.
pub fn gather_branches<S, So, Tr, Si>(results: Vec<Result<S, Si>>) -> (outcome: Result<
    Vec<S>,
    PipelineError<So, Tr, Si>,
>)
    ensures
        match outcome {
            Ok(values) => {
                &&& errors_of(results@).len() == 0
                &&& values@ == successes_of(results@)
                &&& values@.len() == results@.len()
            },
            Err(PipelineError::Sinks(failures)) => {
                &&& errors_of(results@).len() > 0
                &&& failures@ == errors_of(results@)
            },
            Err(_) => false,
        },
{
    let mut values: Vec<S> = Vec::with_capacity(results.len());
    let mut failures: Vec<DeliveryFailure<Si>> = Vec::new();
    for result in iter: results
        invariant
            iter.seq() == results@,
            values@ == successes_of(results@.take(iter.index() as int)),
            failures@ == errors_of(results@.take(iter.index() as int)),
    {
        proof {
            let index = iter.index() as int;
            assert(results@.take(index + 1).drop_last() =~= results@.take(index));
            assert(results@.take(index + 1).last() == results@[index]);
        }
        match result {
            Ok(value) => {
                values.push(value);
            },
            Err(error) => {
                failures.push(DeliveryFailure::Sink(error));
            },
        }
    }
    proof {
        assert(results@.take(results@.len() as int) =~= results@);
        outcomes_are_counted(results@);
    }
    if failures.is_empty() {
        Ok(values)
    } else {
        Err(PipelineError::Sinks(failures))
    }
}

/// The failures of several branches are those of the first of them, and behind them those of the
/// others; a branch that succeeded adds none, one whose sink failed adds its sink's failure, and one
/// whose task failed adds its task's.
pub proof fn failures_are_told_in_order<E>(
    joined: Seq<Joined<E>>,
    later: Seq<Joined<E>>,
    branch: Joined<E>,
)
    ensures
        failures_of(joined + later) == failures_of(joined) + failures_of(later),
        failures_of(seq![branch]).len() == (match branch {
            Ok(Ok(_)) => 0nat,
            _ => 1,
        }),
        branch matches Ok(Err(error)) ==> failures_of(seq![branch])[0] == DeliveryFailure::Sink(
            error,
        ),
        branch matches Err(error) ==> failures_of(seq![branch])[0] == DeliveryFailure::<E>::Task(
            error,
        ),
    decreases later.len(),
{
    assert(seq![branch].drop_last() =~= Seq::empty());
    assert(failures_of(Seq::<Joined<E>>::empty()) =~= Seq::empty());
    if later.len() == 0 {
        assert(joined + later =~= joined);
        assert(failures_of(joined) + failures_of(later) =~= failures_of(joined));
    } else {
        failures_are_told_in_order(joined, later.drop_last(), branch);
        assert((joined + later).drop_last() =~= joined + later.drop_last());
        assert((joined + later).last() == later.last());
        assert(failures_of(joined + later) =~= failures_of(joined) + failures_of(later));
    }
}

/// The successes and the failures of several branches are those of the first of them, and behind them
/// those of the others; every branch adds its value or its failure, and not both.
pub proof fn outcomes_are_told_in_order<S, E>(
    results: Seq<Result<S, E>>,
    later: Seq<Result<S, E>>,
    branch: Result<S, E>,
)
    ensures
        successes_of(results + later) == successes_of(results) + successes_of(later),
        errors_of(results + later) == errors_of(results) + errors_of(later),
        branch matches Ok(value) ==> successes_of(seq![branch]) == seq![value] && errors_of(
            seq![branch],
        ).len() == 0,
        branch matches Err(error) ==> errors_of(seq![branch]) == seq![
            DeliveryFailure::Sink(error),
        ] && successes_of(seq![branch]).len() == 0,
    decreases later.len(),
{
    assert(seq![branch].drop_last() =~= Seq::empty());
    assert(errors_of(Seq::<Result<S, E>>::empty()) =~= Seq::empty());
    assert(successes_of(Seq::<Result<S, E>>::empty()) =~= Seq::empty());
    if later.len() == 0 {
        assert(results + later =~= results);
        assert(errors_of(results) + errors_of(later) =~= errors_of(results));
        assert(successes_of(results) + successes_of(later) =~= successes_of(results));
    } else {
        outcomes_are_told_in_order(results, later.drop_last(), branch);
        assert((results + later).drop_last() =~= results + later.drop_last());
        assert((results + later).last() == later.last());
        assert(errors_of(results + later) =~= errors_of(results) + errors_of(later));
        assert(successes_of(results + later) =~= successes_of(results) + successes_of(later));
    }
}

/// A fanout has succeeded exactly where every branch handed back its sink's success, and every branch
/// gets one input of its own.
pub proof fn one_failure_fails_the_fanout<E, U: Clone>(
    joined: Seq<Joined<E>>,
    unit: U,
    branches: usize,
    inputs: Seq<U>,
)
    ensures
        all_succeeded(joined) <==> forall|i: int|
            0 <= i < joined.len() ==> ((#[trigger] joined[i]) matches Ok(Ok(_))),
        are_copies(unit, branches, inputs) ==> inputs.len() == branches,
        are_owned(unit, branches, inputs) ==> inputs.len() == branches && (branches > 0
            ==> inputs[branches - 1] == unit),
{
    if all_succeeded(joined) {
        assert forall|i: int| 0 <= i < joined.len() implies (
        (#[trigger] joined[i]) matches Ok(Ok(_))) by {
            assert(failure_of(joined[i]) is None);
        }
    }
}

} // verus!
