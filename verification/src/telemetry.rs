//! What a running pipeline has to say about itself.
//!
//! An update names a metric, its labels and its change; emitting it is left to the application.
use crate::fanout;
use crate::fanout::Joined;
use crate::identity::PipelineId;
use vstd::prelude::*;

verus! {

/// How units reach their sinks.
#[derive(Debug, Clone, Copy, PartialEq, Eq, Structural)]
pub enum Topology {
    Linear,
    FanoutCloned,
    FanoutShared,
}

impl Topology {
    /// The label.
    pub open spec fn text(self) -> Seq<char> {
        match self {
            Topology::Linear => "linear"@,
            Topology::FanoutCloned => "fanout_cloned"@,
            Topology::FanoutShared => "fanout_shared"@,
        }
    }

    /// The label.
    pub fn label(self) -> (text: &'static str)
        ensures
            text@ == self.text(),
    {
        match self {
            Topology::Linear => "linear",
            Topology::FanoutCloned => "fanout_cloned",
            Topology::FanoutShared => "fanout_shared",
        }
    }
}

/// A part of a run that takes time or fails.
#[derive(Debug, Clone, Copy, PartialEq, Eq, Structural)]
pub enum Stage {
    Configuration,
    Source,
    Transform,
    Sink,
    SinkTask,
    Commit,
}

impl Stage {
    /// The label.
    pub open spec fn text(self) -> Seq<char> {
        match self {
            Stage::Configuration => "configuration"@,
            Stage::Source => "source"@,
            Stage::Transform => "transform"@,
            Stage::Sink => "sink"@,
            Stage::SinkTask => "sink_task"@,
            Stage::Commit => "commit"@,
        }
    }

    /// The label.
    pub fn label(self) -> (text: &'static str)
        ensures
            text@ == self.text(),
    {
        match self {
            Stage::Configuration => "configuration",
            Stage::Source => "source",
            Stage::Transform => "transform",
            Stage::Sink => "sink",
            Stage::SinkTask => "sink_task",
            Stage::Commit => "commit",
        }
    }
}

/// How a metric changes.
#[derive(Debug, Clone, Copy, PartialEq, Eq, Structural)]
pub enum Change {
    /// A gauge goes up by one.
    Increase,
    /// A gauge goes down by one.
    Decrease,
    /// A counter goes up by one.
    Count,
    /// A histogram gets one more whole number.
    Observe(usize),
    /// A histogram gets one more duration, in seconds.
    Time,
}

/// One change of one metric.
#[derive(Debug)]
pub struct Update {
    pub metric: &'static str,
    pub topology: Topology,
    pub pipeline_id: PipelineId,
    /// The name and value of a further label, if the metric has one.
    pub detail: Option<(&'static str, &'static str)>,
    pub change: Change,
}

/// The name and value of a further label.
pub open spec fn detail_of(detail: Option<(&'static str, &'static str)>) -> Option<
    (Seq<char>, Seq<char>),
> {
    match detail {
        Some((name, value)) => Some((name@, value@)),
        None => None,
    }
}

impl Update {
    /// Whether an update is the given change of the given metric.
    pub open spec fn is(
        self,
        metric: Seq<char>,
        run: Run,
        detail: Option<(Seq<char>, Seq<char>)>,
        change: Change,
    ) -> bool {
        &&& self.metric@ == metric
        &&& self.topology == run.topology
        &&& self.pipeline_id@ == run.pipeline_id@
        &&& detail_of(self.detail) == detail
        &&& self.change == change
    }
}

/// A run of a pipeline.
#[derive(Debug)]
pub struct Run {
    pub topology: Topology,
    pub pipeline_id: PipelineId,
}

/// The label for success or failure.
pub open spec fn status_text(success: bool) -> Seq<char> {
    if success {
        "success"@
    } else {
        "error"@
    }
}

/// The label for success or failure.
fn status(success: bool) -> (text: &'static str)
    ensures
        text@ == status_text(success),
{
    if success {
        "success"
    } else {
        "error"
    }
}

impl Run {
    /// A change of one metric.
    fn update(
        &self,
        metric: &'static str,
        detail: Option<(&'static str, &'static str)>,
        change: Change,
    ) -> (update: Update)
        ensures
            update.is(metric@, *self, detail_of(detail), change),
    {
        Update {
            metric,
            topology: self.topology,
            pipeline_id: self.pipeline_id.clone(),
            detail,
            change,
        }
    }

    /// The run has started.
    pub fn started(&self) -> (update: Update)
        ensures
            update.is("sluiceway_pipeline_active"@, *self, None, Change::Increase),
    {
        self.update("sluiceway_pipeline_active", None, Change::Increase)
    }

    /// The run has ended.
    pub fn ended(&self) -> (update: Update)
        ensures
            update.is("sluiceway_pipeline_active"@, *self, None, Change::Decrease),
    {
        self.update("sluiceway_pipeline_active", None, Change::Decrease)
    }

    /// A record has been transformed.
    pub fn record(&self) -> (update: Update)
        ensures
            update.is("sluiceway_records_total"@, *self, None, Change::Count),
    {
        self.update("sluiceway_records_total", None, Change::Count)
    }

    /// A batch of `records` records has been closed for a reason.
    pub fn batch(&self, records: usize, reason: &'static str) -> (updates: (Update, Update))
        ensures
            updates.0.is(
                "sluiceway_batches_total"@,
                *self,
                Some(("reason"@, reason@)),
                Change::Count,
            ),
            updates.1.is("sluiceway_batch_records"@, *self, None, Change::Observe(records)),
    {
        (
            self.update("sluiceway_batches_total", Some(("reason", reason)), Change::Count),
            self.update("sluiceway_batch_records", None, Change::Observe(records)),
        )
    }

    /// A sink has been delivered to.
    pub fn sink_delivery(&self, success: bool) -> (update: Update)
        ensures
            update.is(
                "sluiceway_sink_deliveries_total"@,
                *self,
                Some(("status"@, status_text(success))),
                Change::Count,
            ),
    {
        self.update(
            "sluiceway_sink_deliveries_total",
            Some(("status", status(success))),
            Change::Count,
        )
    }

    /// Progress has been committed.
    pub fn commit(&self, success: bool) -> (update: Update)
        ensures
            update.is(
                "sluiceway_commits_total"@,
                *self,
                Some(("status"@, status_text(success))),
                Change::Count,
            ),
    {
        self.update(
            "sluiceway_commits_total",
            Some(("status", status(success))),
            Change::Count,
        )
    }

    /// A stage has failed.
    pub fn error(&self, stage: Stage) -> (update: Update)
        ensures
            update.is(
                "sluiceway_errors_total"@,
                *self,
                Some(("stage"@, stage.text())),
                Change::Count,
            ),
    {
        self.update("sluiceway_errors_total", Some(("stage", stage.label())), Change::Count)
    }

    /// A stage has taken some time.
    pub fn stage_duration(&self, stage: Stage) -> (update: Update)
        ensures
            update.is(
                "sluiceway_stage_duration_seconds"@,
                *self,
                Some(("stage"@, stage.text())),
                Change::Time,
            ),
    {
        self.update(
            "sluiceway_stage_duration_seconds",
            Some(("stage", stage.label())),
            Change::Time,
        )
    }

    /// A branch of a fanout has ended: its delivery is counted, and so is its failure.
    pub fn joined<E>(&self, joined: &Joined<E>) -> (updates: (Update, Option<Update>))
        ensures
            updates.0.is(
                "sluiceway_sink_deliveries_total"@,
                *self,
                Some(("status"@, status_text(fanout::failure_of(*joined) is None))),
                Change::Count,
            ),
            match *joined {
                Ok(Ok(_)) => updates.1 is None,
                Ok(Err(_)) => updates.1 is Some && updates.1->0.is(
                    "sluiceway_errors_total"@,
                    *self,
                    Some(("stage"@, "sink"@)),
                    Change::Count,
                ),
                Err(_) => updates.1 is Some && updates.1->0.is(
                    "sluiceway_errors_total"@,
                    *self,
                    Some(("stage"@, "sink_task"@)),
                    Change::Count,
                ),
            },
    {
        match joined {
            Ok(Ok(_)) => (self.sink_delivery(true), None),
            Ok(Err(_)) => (self.sink_delivery(false), Some(self.error(Stage::Sink))),
            Err(_) => (self.sink_delivery(false), Some(self.error(Stage::SinkTask))),
        }
    }
}

/// An update of a run bears the run's own topology and identity beside its metric, its further label
/// and its change.
pub proof fn updates_bear_their_run(
    update: Update,
    metric: Seq<char>,
    run: Run,
    detail: Option<(Seq<char>, Seq<char>)>,
    change: Change,
)
    requires
        update.is(metric, run, detail, change),
    ensures
        update.metric@ == metric,
        update.topology == run.topology,
        update.pipeline_id@ == run.pipeline_id@,
        update.change == change,
        update.detail is Some <==> detail is Some,
        update.detail matches Some((name, value)) ==> detail == Some((name@, value@)),
{
}

/// Labels tell topologies, stages and outcomes apart.
pub proof fn labels_differ(
    topology: Topology,
    other_topology: Topology,
    stage: Stage,
    other_stage: Stage,
    success: bool,
    other_success: bool,
)
    ensures
        topology.text() == other_topology.text() <==> topology == other_topology,
        stage.text() == other_stage.text() <==> stage == other_stage,
        status_text(success) == status_text(other_success) <==> success == other_success,
{
    reveal_strlit("linear");
    reveal_strlit("fanout_cloned");
    reveal_strlit("fanout_shared");
    reveal_strlit("configuration");
    reveal_strlit("source");
    reveal_strlit("transform");
    reveal_strlit("sink");
    reveal_strlit("sink_task");
    reveal_strlit("commit");
    reveal_strlit("success");
    reveal_strlit("error");
    assert("linear"@.len() == 6 && "fanout_cloned"@.len() == 13);
    assert("fanout_shared"@.len() == 13 && "configuration"@.len() == 13);
    assert("source"@.len() == 6 && "commit"@.len() == 6 && "sink"@.len() == 4);
    assert("transform"@.len() == 9 && "sink_task"@.len() == 9);
    assert("success"@.len() == 7 && "error"@.len() == 5);
    assert("fanout_cloned"@[7] != "fanout_shared"@[7]);
    assert("source"@[0] != "commit"@[0]);
    assert("transform"@[0] != "sink_task"@[0]);
}

} // verus!
