//! Failures of configuration, delivery and whole pipelines.
use crate::text;
use crate::text::push_decimal;
use vstd::prelude::*;

verus! {

/// Invalid batching configuration rejected before a pipeline can run.
#[derive(Debug, Clone, Copy, PartialEq, Eq, Structural)]
pub enum BatchConfigError {
    ZeroSize,
    ZeroTimeout,
}

impl BatchConfigError {
    /// The failure in words.
    pub fn message(self) -> (text: &'static str)
        ensures
            text@ == (match self {
                BatchConfigError::ZeroSize => "batch size must be greater than zero"@,
                BatchConfigError::ZeroTimeout => "batch timeout must be greater than zero"@,
            }),
    {
        match self {
            BatchConfigError::ZeroSize => "batch size must be greater than zero",
            BatchConfigError::ZeroTimeout => "batch timeout must be greater than zero",
        }
    }
}

/// Invalid collection configuration rejected before a pipeline can run.
#[derive(Debug, Clone, Copy, PartialEq, Eq, Structural)]
pub enum CollectConfigError {
    ZeroSize,
    ZeroTimeout,
}

/// Invalid commit configuration rejected before a pipeline can run.
#[derive(Debug, Clone, Copy, PartialEq, Eq, Structural)]
pub enum CommitConfigError {
    ZeroRecords,
    ZeroTimeout,
}

/// The failure of a spawned task, `tokio::task::JoinError`.
#[verifier::external_type_specification]
#[verifier::external_body]
pub struct ExJoinError(tokio::task::JoinError);

/// A sink delivery failure without branch names, indexes, or runner metadata.
#[derive(Debug)]
pub enum DeliveryFailure<E> {
    Sink(E),
    Task(tokio::task::JoinError),
}

impl<E> DeliveryFailure<E> {
    /// The failure in words.
    pub fn message(&self) -> (text: &'static str)
        ensures
            text@ == (match *self {
                DeliveryFailure::Sink(_) => "sink failed"@,
                DeliveryFailure::Task(_) => "sink task failed"@,
            }),
    {
        match self {
            DeliveryFailure::Sink(_) => "sink failed",
            DeliveryFailure::Task(_) => "sink task failed",
        }
    }
}

/// Identifies the pipeline operation that failed.
#[derive(Debug)]
pub enum PipelineError<SourceError, TransformError, SinkError> {
    /// A fanout without sinks.
    NoSinks,
    Source(SourceError),
    Transform(TransformError),
    Sink(DeliveryFailure<SinkError>),
    Sinks(Vec<DeliveryFailure<SinkError>>),
    Commit(SourceError),
}

impl<SourceError, TransformError, SinkError> PipelineError<
    SourceError,
    TransformError,
    SinkError,
> {
    /// The failure in words.
    pub open spec fn words(self) -> Seq<char> {
        match self {
            PipelineError::NoSinks => "fanout requires at least one sink"@,
            PipelineError::Source(_) => "source failed"@,
            PipelineError::Transform(_) => "transform failed"@,
            PipelineError::Sink(_) => "sink delivery failed"@,
            PipelineError::Sinks(failures) => text::decimal(failures@.len())
                + " sink deliveries failed"@,
            PipelineError::Commit(_) => "source commit failed"@,
        }
    }

    /// The failure in words.
    pub fn message(&self) -> (text: String)
        ensures
            text@ == self.words(),
            *self matches PipelineError::Sinks(failures) ==> text@ == text::decimal(
                failures@.len(),
            ) + " sink deliveries failed"@,
    {
        let mut text = String::new();
        match self {
            PipelineError::NoSinks => text.append("fanout requires at least one sink"),
            PipelineError::Source(_) => text.append("source failed"),
            PipelineError::Transform(_) => text.append("transform failed"),
            PipelineError::Sink(_) => text.append("sink delivery failed"),
            PipelineError::Sinks(failures) => {
                push_decimal(&mut text, failures.len() as u64);
                text.append(" sink deliveries failed");
            },
            PipelineError::Commit(_) => text.append("source commit failed"),
        }
        proof {
            assert(text@ =~= self.words());
        }
        text
    }
}

} // verus!
