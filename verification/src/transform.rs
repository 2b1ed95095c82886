//! Turning payloads into what the sinks consume.
use crate::error::PipelineError;
use crate::num::NonZeroUsize;
use crate::record::Record;
use std::convert::Infallible;
use vstd::prelude::*;

verus! {

/// Converts one typed value into another with read-only access to its source position.
///
/// The conversion itself is asynchronous and belongs to the runtime side of a transform. The runner
/// retains the owned position and attaches it to the transformed output.
pub trait Transform<In, P> {
    type Out;

    type Error;

    /// Maximum number of inputs the runner may transform concurrently while retaining order.
    fn max_concurrency(&self) -> (limit: NonZeroUsize)
        default_ensures
            limit.count() == 1,
    {
        NonZeroUsize::one()
    }
}

/// A transform bundled with its ordered-concurrency setting.
#[derive(Debug)]
pub struct Transformer<T> {
    pub inner: T,
    pub concurrency: NonZeroUsize,
}

impl<T> Transformer<T> {
    /// A transform that handles one input at a time.
    pub fn new(inner: T) -> (transformer: Self)
        ensures
            transformer.inner == inner,
            transformer.concurrency.count() == 1,
    {
        Self { inner, concurrency: NonZeroUsize::one() }
    }

    /// The same transform with another concurrency setting.
    pub fn concurrency(self, concurrency: NonZeroUsize) -> (transformer: Self)
        ensures
            transformer == (Transformer { inner: self.inner, concurrency }),
    {
        Self { inner: self.inner, concurrency }
    }
}

impl<T: Clone> Clone for Transformer<T> {
    fn clone(&self) -> (copy: Self)
        ensures
            vstd::pervasive::cloned(self.inner, copy.inner),
            copy.concurrency == self.concurrency,
    {
        Transformer { inner: self.inner.clone(), concurrency: self.concurrency }
    }
}

impl<In, P, T: Transform<In, P>> Transform<In, P> for Transformer<T> {
    type Out = T::Out;

    type Error = T::Error;

    fn max_concurrency(&self) -> (limit: NonZeroUsize)
        ensures
            limit == self.concurrency,
    {
        self.concurrency
    }
}

/// Passes a value through unchanged.
#[derive(Debug, Default, Clone, Copy)]
pub struct Identity;

impl<In, P> Transform<In, P> for Identity {
    type Out = In;

    type Error = Infallible;
}

impl Identity {
    /// The value, whatever its position.
    pub fn pass<In, P>(self, _position: &P, input: In) -> (output: In)
        ensures
            output == input,
    {
        input
    }
}

/// Attach the position that a payload came from to what became of it.
pub fn reattach<Out, P, So, Tr, Si>(position: P, output: Result<Out, Tr>) -> (record: Result<
    Record<Out, P>,
    PipelineError<So, Tr, Si>,
>)
    ensures
        match (output, record) {
            (Ok(payload), Ok(record)) => record.at() == position && record.value() == payload,
            (Err(error), Err(failure)) => failure == PipelineError::<So, Tr, Si>::Transform(error),
            _ => false,
        },
{
    match output {
        Ok(payload) => Ok(Record::new(position, payload)),
        Err(error) => Err(PipelineError::Transform(error)),
    }
}

} // verus!
