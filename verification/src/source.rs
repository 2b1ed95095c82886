//! Where records come from, and where their progress goes.
use crate::checkpoint::Checkpoint;
use crate::error::PipelineError;
use crate::record::Record;
use vstd::prelude::*;

verus! {

/// Produces ordered records and commits positions that have been delivered by every sink.
///
/// The stream of records and the commit itself are asynchronous and belong to the runtime side of a
/// source; this is what the two sides agree on.
pub trait Source {
    type Payload;

    /// Message-local source position carried through transformation and delivery.
    type Position;

    /// Progress accumulated within one checkpoint epoch.
    type Checkpoint: Checkpoint<Self::Position>;

    type Error;
}

/// Take in one item of a source: its position and payload, or the failure of the source.
pub fn take_in<T, P, So, Tr, Si>(item: Result<Record<T, P>, So>) -> (admitted: Result<
    (P, T),
    PipelineError<So, Tr, Si>,
>)
    ensures
        admitted == (match item {
            Ok(record) => Ok((record.at(), record.value())),
            Err(error) => Err(PipelineError::<So, Tr, Si>::Source(error)),
        }),
{
    match item {
        Ok(record) => Ok(record.into_parts()),
        Err(error) => Err(PipelineError::Source(error)),
    }
}

} // verus!
