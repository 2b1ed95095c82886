//! Assembling a pipeline, one choice at a time.
use crate::error::PipelineError;
use crate::fanout::require_branches;
use crate::identity::PipelineId;
use crate::policy::{BatchPolicy, Batched, CollectPolicy, Collected, CommitEach, CommitPolicy, Each,
    Unset};
use crate::sink::{Cloned, Shared};
use crate::source::Source;
use crate::transform::Transform;
use std::marker::PhantomData;
use vstd::prelude::*;

verus! {

/// A source and its consuming transform, before delivery topology is selected.
pub struct Pipeline<So, Tr = Unset> {
    pub id: Option<PipelineId>,
    pub source: So,
    pub transform: Tr,
}

impl<So: Source> Pipeline<So> {
    /// A pipeline without identity that takes its records from `source`.
    pub fn source(source: So) -> (pipeline: Self)
        ensures
            pipeline == (Pipeline { id: None, source, transform: Unset }),
    {
        Self { id: None, source, transform: Unset }
    }

    /// Transform every record.
    pub fn transform<Tr>(self, transform: Tr) -> (pipeline: Pipeline<So, Tr>) where
        Tr: Transform<So::Payload, So::Position>,

        ensures
            pipeline == (Pipeline { id: self.id, source: self.source, transform }),
    {
        Pipeline { id: self.id, source: self.source, transform }
    }
}

impl<So, Tr> Pipeline<So, Tr> {
    /// Attach a stable identity used to correlate this pipeline's metrics and checkpoints.
    pub fn id(self, id: PipelineId) -> (pipeline: Self)
        ensures
            pipeline == (Pipeline {
                id: Some(id),
                source: self.source,
                transform: self.transform,
            }),
    {
        Pipeline { id: Some(id), source: self.source, transform: self.transform }
    }
}

impl<So, Tr> Pipeline<So, Tr> where So: Source, Tr: Transform<So::Payload, So::Position> {
    /// Select linear delivery. Transformed values remain owned and are consumed by one sink.
    pub fn sink<Si>(self, sink: Si) -> (pipeline: LinearPipeline<So, Tr, Si>)
        ensures
            pipeline == (LinearPipeline {
                id: self.id,
                source: self.source,
                transform: self.transform,
                sink,
                strategy: Unset,
            }),
    {
        LinearPipeline {
            id: self.id,
            source: self.source,
            transform: self.transform,
            sink,
            strategy: Unset,
        }
    }

    /// Begin configuring a fanout delivery topology.
    pub fn fanout(self) -> (builder: FanoutBuilder<So, Tr>)
        ensures
            builder == (FanoutBuilder::<So, Tr> {
                id: self.id,
                source: self.source,
                transform: self.transform,
                mode: PhantomData,
            }),
    {
        FanoutBuilder {
            id: self.id,
            source: self.source,
            transform: self.transform,
            mode: PhantomData,
        }
    }
}

/// The identity that a run goes by: the pipeline's own, or `unnamed`.
pub fn run_id(id: &Option<PipelineId>) -> (name: PipelineId)
    ensures
        name@ == (match *id {
            Some(id) => id@,
            None => "unnamed"@,
        }),
{
    match id {
        Some(id) => id.clone(),
        None => PipelineId::unnamed(),
    }
}

/// A pipeline that moves each transformed delivery unit into one sink.
pub struct LinearPipeline<So, Tr, Si, St = Unset> {
    pub id: Option<PipelineId>,
    pub source: So,
    pub transform: Tr,
    pub sink: Si,
    pub strategy: St,
}

impl<So, Tr, Si, St> LinearPipeline<So, Tr, Si, St> {
    /// The same pipeline with another strategy.
    pub open spec fn same_but<Next>(self, next: LinearPipeline<So, Tr, Si, Next>) -> bool {
        &&& next.id == self.id
        &&& next.source == self.source
        &&& next.transform == self.transform
        &&& next.sink == self.sink
    }

    /// Replace the strategy.
    fn with_strategy<Next>(self, strategy: Next) -> (pipeline: LinearPipeline<So, Tr, Si, Next>)
        ensures
            self.same_but(pipeline),
            pipeline.strategy == strategy,
    {
        LinearPipeline {
            id: self.id,
            source: self.source,
            transform: self.transform,
            sink: self.sink,
            strategy,
        }
    }
}

impl<So, Tr, Si> LinearPipeline<So, Tr, Si> where
    So: Source,
    Tr: Transform<So::Payload, So::Position>,
 {
    /// Deliver materialized batches, and commit after each.
    pub fn batched(self, policy: BatchPolicy) -> (pipeline: LinearPipeline<So, Tr, Si, Batched>)
        ensures
            self.same_but(pipeline),
            pipeline.strategy == (Batched { policy, commit_policy: CommitEach }),
    {
        self.with_strategy(Batched { policy, commit_policy: CommitEach })
    }

    /// Deliver records one at a time, and commit after each.
    pub fn each(self) -> (pipeline: LinearPipeline<So, Tr, Si, Each>)
        ensures
            self.same_but(pipeline),
            pipeline.strategy == (Each { commit_policy: CommitEach }),
    {
        self.with_strategy(Each { commit_policy: CommitEach })
    }

    /// Deliver through incremental collections, and commit after each.
    pub fn collect(self, policy: CollectPolicy) -> (pipeline: LinearPipeline<
        So,
        Tr,
        Si,
        Collected,
    >)
        ensures
            self.same_but(pipeline),
            pipeline.strategy == (Collected { policy, commit_policy: CommitEach }),
    {
        self.with_strategy(Collected { policy, commit_policy: CommitEach })
    }
}

impl<So, Tr, Si, C> LinearPipeline<So, Tr, Si, Batched<C>> {
    /// Commit as `policy` says.
    pub fn commit_policy<Next>(self, policy: Next) -> (pipeline: LinearPipeline<
        So,
        Tr,
        Si,
        Batched<Next>,
    >) where So: Source, Next: CommitPolicy<So::Position>
        ensures
            self.same_but(pipeline),
            pipeline.strategy == (Batched {
                policy: self.strategy.policy,
                commit_policy: policy,
            }),
    {
        let limits = self.strategy.policy;
        self.with_strategy(Batched { policy: limits, commit_policy: policy })
    }
}

impl<So, Tr, Si, C> LinearPipeline<So, Tr, Si, Each<C>> {
    /// Commit as `policy` says.
    pub fn commit_policy<Next>(self, policy: Next) -> (pipeline: LinearPipeline<
        So,
        Tr,
        Si,
        Each<Next>,
    >) where So: Source, Next: CommitPolicy<So::Position>
        ensures
            self.same_but(pipeline),
            pipeline.strategy == (Each { commit_policy: policy }),
    {
        self.with_strategy(Each { commit_policy: policy })
    }
}

impl<So, Tr, Si, C> LinearPipeline<So, Tr, Si, Collected<C>> {
    /// Commit as `policy` says.
    pub fn commit_policy<Next>(self, policy: Next) -> (pipeline: LinearPipeline<
        So,
        Tr,
        Si,
        Collected<Next>,
    >) where So: Source, Next: CommitPolicy<So::Position>
        ensures
            self.same_but(pipeline),
            pipeline.strategy == (Collected {
                policy: self.strategy.policy,
                commit_policy: policy,
            }),
    {
        let limits = self.strategy.policy;
        self.with_strategy(Collected { policy: limits, commit_policy: policy })
    }
}

/// A fanout builder requiring an ownership mode before sinks can be attached.
pub struct FanoutBuilder<So, Tr, Mode = Unset> {
    pub id: Option<PipelineId>,
    pub source: So,
    pub transform: Tr,
    pub mode: PhantomData<Mode>,
}

impl<So, Tr> FanoutBuilder<So, Tr> where So: Source, Tr: Transform<So::Payload, So::Position> {
    /// Give every sink its own owned clone of each batch.
    pub fn cloned(self) -> (builder: FanoutBuilder<So, Tr, Cloned>)
        ensures
            builder.id == self.id,
            builder.source == self.source,
            builder.transform == self.transform,
    {
        FanoutBuilder {
            id: self.id,
            source: self.source,
            transform: self.transform,
            mode: PhantomData,
        }
    }

    /// Give every sink the same immutable, reference-counted batch.
    pub fn shared(self) -> (builder: FanoutBuilder<So, Tr, Shared>)
        ensures
            builder.id == self.id,
            builder.source == self.source,
            builder.transform == self.transform,
    {
        FanoutBuilder {
            id: self.id,
            source: self.source,
            transform: self.transform,
            mode: PhantomData,
        }
    }
}

/// A selected ownership mode.
pub trait SelectedMode {

}

impl SelectedMode for Cloned {

}

impl SelectedMode for Shared {

}

impl<So, Tr, Mode> FanoutBuilder<So, Tr, Mode> where
    So: Source,
    Tr: Transform<So::Payload, So::Position>,
    Mode: SelectedMode,
 {
    /// Attach the sinks, in order.
    pub fn sinks<Si>(self, sinks: Vec<Si>) -> (pipeline: FanoutPipeline<So, Tr, Mode, Si>)
        ensures
            pipeline.id == self.id,
            pipeline.source == self.source,
            pipeline.transform == self.transform,
            pipeline.sinks == sinks,
            pipeline.strategy == Unset,
    {
        FanoutPipeline {
            id: self.id,
            source: self.source,
            transform: self.transform,
            sinks,
            strategy: Unset,
            mode: PhantomData,
        }
    }

    /// Attach the collectors, in order.
    pub fn collectors<Co>(self, collectors: Vec<Co>) -> (pipeline: FanoutCollectorPipeline<
        So,
        Tr,
        Mode,
        Co,
    >)
        ensures
            pipeline.id == self.id,
            pipeline.source == self.source,
            pipeline.transform == self.transform,
            pipeline.collectors == collectors,
            pipeline.strategy == Unset,
    {
        FanoutCollectorPipeline {
            id: self.id,
            source: self.source,
            transform: self.transform,
            collectors,
            strategy: Unset,
            mode: PhantomData,
        }
    }
}

/// A fanout pipeline whose mode determines cloned or shared delivery.
pub struct FanoutPipeline<So, Tr, Mode, Si, St = Unset> {
    pub id: Option<PipelineId>,
    pub source: So,
    pub transform: Tr,
    pub sinks: Vec<Si>,
    pub strategy: St,
    pub mode: PhantomData<Mode>,
}

impl<So, Tr, Mode, Si, St> FanoutPipeline<So, Tr, Mode, Si, St> {
    /// The same pipeline with another strategy.
    pub open spec fn same_but<Next>(self, next: FanoutPipeline<So, Tr, Mode, Si, Next>) -> bool {
        &&& next.id == self.id
        &&& next.source == self.source
        &&& next.transform == self.transform
        &&& next.sinks == self.sinks
    }

    /// Replace the strategy.
    fn with_strategy<Next>(self, strategy: Next) -> (pipeline: FanoutPipeline<
        So,
        Tr,
        Mode,
        Si,
        Next,
    >)
        ensures
            self.same_but(pipeline),
            pipeline.strategy == strategy,
    {
        FanoutPipeline {
            id: self.id,
            source: self.source,
            transform: self.transform,
            sinks: self.sinks,
            strategy,
            mode: PhantomData,
        }
    }
}

impl<So, Tr, Mode, Si, St> FanoutPipeline<So, Tr, Mode, Si, St> {
    /// A fanout without sinks is refused before anything else is done.
    pub fn require_sinks<Se, Te, Ke>(&self) -> (checked: Result<(), PipelineError<Se, Te, Ke>>)
        ensures
            checked == (if self.sinks@.len() == 0 {
                Err(PipelineError::<Se, Te, Ke>::NoSinks)
            } else {
                Ok(())
            }),
    {
        require_branches(self.sinks.len())
    }
}

impl<So, Tr, Mode, Si> FanoutPipeline<So, Tr, Mode, Si> where
    So: Source,
    Tr: Transform<So::Payload, So::Position>,
 {
    /// Deliver materialized batches, and commit after each.
    pub fn batched(self, policy: BatchPolicy) -> (pipeline: FanoutPipeline<
        So,
        Tr,
        Mode,
        Si,
        Batched,
    >)
        ensures
            self.same_but(pipeline),
            pipeline.strategy == (Batched { policy, commit_policy: CommitEach }),
    {
        self.with_strategy(Batched { policy, commit_policy: CommitEach })
    }

    /// Deliver records one at a time, and commit after each.
    pub fn each(self) -> (pipeline: FanoutPipeline<So, Tr, Mode, Si, Each>)
        ensures
            self.same_but(pipeline),
            pipeline.strategy == (Each { commit_policy: CommitEach }),
    {
        self.with_strategy(Each { commit_policy: CommitEach })
    }
}

impl<So, Tr, Mode, Si, C> FanoutPipeline<So, Tr, Mode, Si, Batched<C>> {
    /// Commit as `policy` says.
    pub fn commit_policy<Next>(self, policy: Next) -> (pipeline: FanoutPipeline<
        So,
        Tr,
        Mode,
        Si,
        Batched<Next>,
    >) where So: Source, Next: CommitPolicy<So::Position>
        ensures
            self.same_but(pipeline),
            pipeline.strategy == (Batched {
                policy: self.strategy.policy,
                commit_policy: policy,
            }),
    {
        let limits = self.strategy.policy;
        self.with_strategy(Batched { policy: limits, commit_policy: policy })
    }
}

impl<So, Tr, Mode, Si, C> FanoutPipeline<So, Tr, Mode, Si, Each<C>> {
    /// Commit as `policy` says.
    pub fn commit_policy<Next>(self, policy: Next) -> (pipeline: FanoutPipeline<
        So,
        Tr,
        Mode,
        Si,
        Each<Next>,
    >) where So: Source, Next: CommitPolicy<So::Position>
        ensures
            self.same_but(pipeline),
            pipeline.strategy == (Each { commit_policy: policy }),
    {
        self.with_strategy(Each { commit_policy: policy })
    }
}

/// A fanout pipeline with one incremental collection per branch.
pub struct FanoutCollectorPipeline<So, Tr, Mode, Co, St = Unset> {
    pub id: Option<PipelineId>,
    pub source: So,
    pub transform: Tr,
    pub collectors: Vec<Co>,
    pub strategy: St,
    pub mode: PhantomData<Mode>,
}

impl<So, Tr, Mode, Co, St> FanoutCollectorPipeline<So, Tr, Mode, Co, St> {
    /// The same pipeline with another strategy.
    pub open spec fn same_but<Next>(
        self,
        next: FanoutCollectorPipeline<So, Tr, Mode, Co, Next>,
    ) -> bool {
        &&& next.id == self.id
        &&& next.source == self.source
        &&& next.transform == self.transform
        &&& next.collectors == self.collectors
    }

    /// Replace the strategy.
    fn with_strategy<Next>(self, strategy: Next) -> (pipeline: FanoutCollectorPipeline<
        So,
        Tr,
        Mode,
        Co,
        Next,
    >)
        ensures
            self.same_but(pipeline),
            pipeline.strategy == strategy,
    {
        FanoutCollectorPipeline {
            id: self.id,
            source: self.source,
            transform: self.transform,
            collectors: self.collectors,
            strategy,
            mode: PhantomData,
        }
    }
}

impl<So, Tr, Mode, Co, St> FanoutCollectorPipeline<So, Tr, Mode, Co, St> {
    /// A fanout without collectors is refused before anything else is done.
    pub fn require_collectors<Se, Te, Ke>(&self) -> (checked: Result<
        (),
        PipelineError<Se, Te, Ke>,
    >)
        ensures
            checked == (if self.collectors@.len() == 0 {
                Err(PipelineError::<Se, Te, Ke>::NoSinks)
            } else {
                Ok(())
            }),
    {
        require_branches(self.collectors.len())
    }
}

impl<So, Tr, Mode, Co> FanoutCollectorPipeline<So, Tr, Mode, Co> where
    So: Source,
    Tr: Transform<So::Payload, So::Position>,
 {
    /// Deliver through incremental collections, and commit after each.
    pub fn collect(self, policy: CollectPolicy) -> (pipeline: FanoutCollectorPipeline<
        So,
        Tr,
        Mode,
        Co,
        Collected,
    >)
        ensures
            self.same_but(pipeline),
            pipeline.strategy == (Collected { policy, commit_policy: CommitEach }),
    {
        self.with_strategy(Collected { policy, commit_policy: CommitEach })
    }
}

impl<So, Tr, Mode, Co, C> FanoutCollectorPipeline<So, Tr, Mode, Co, Collected<C>> {
    /// Commit as `policy` says.
    pub fn commit_policy<Next>(self, policy: Next) -> (pipeline: FanoutCollectorPipeline<
        So,
        Tr,
        Mode,
        Co,
        Collected<Next>,
    >) where So: Source, Next: CommitPolicy<So::Position>
        ensures
            self.same_but(pipeline),
            pipeline.strategy == (Collected {
                policy: self.strategy.policy,
                commit_policy: policy,
            }),
    {
        let limits = self.strategy.policy;
        self.with_strategy(Collected { policy: limits, commit_policy: policy })
    }
}

/// Choosing a strategy keeps the identity, the source, the transform and the sinks or collectors that
/// were chosen before.
pub proof fn strategies_keep_earlier_choices<So, Tr, Mode, Si, St, Next>(
    linear: LinearPipeline<So, Tr, Si, St>,
    linear_next: LinearPipeline<So, Tr, Si, Next>,
    fanout: FanoutPipeline<So, Tr, Mode, Si, St>,
    fanout_next: FanoutPipeline<So, Tr, Mode, Si, Next>,
    collector: FanoutCollectorPipeline<So, Tr, Mode, Si, St>,
    collector_next: FanoutCollectorPipeline<So, Tr, Mode, Si, Next>,
)
    ensures
        linear.same_but(linear_next) <==> (linear_next.id, linear_next.source) == (
            linear.id,
            linear.source,
        ) && (linear_next.transform, linear_next.sink) == (linear.transform, linear.sink),
        fanout.same_but(fanout_next) <==> (fanout_next.id, fanout_next.source) == (
            fanout.id,
            fanout.source,
        ) && (fanout_next.transform, fanout_next.sinks) == (fanout.transform, fanout.sinks),
        collector.same_but(collector_next) <==> (collector_next.id, collector_next.source) == (
            collector.id,
            collector.source,
        ) && (collector_next.transform, collector_next.collectors) == (
            collector.transform,
            collector.collectors,
        ),
{
}

} // verus!
