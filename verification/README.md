# sluiceway

Ordered source-to-sink pipelines whose progress is committed only after it has been delivered.

`src/` is the verified library. It decides; it never waits. A runner is a state machine: it says
what is to be done next (wait, deliver, commit, complete, fail), is told how that went, and answers
with the next step. Its contracts speak of the source positions that entered delivery, of those that
were acknowledged, and of those that were persisted.

`app/` is the asynchronous side: streams, tasks, timers, databases, files and brokers. It performs
each step and reports back.

| Module | What it holds |
| --- | --- |
| `checkpoint`, `policy`, `commit`, `history` | Checkpoint epochs, commit policies, and the account of positions that commits are held to |
| `runner` | Delivery of records, batches and collections, and prefetching |
| `fanout`, `branch`, `sink` | Inputs and outcomes of several branches, delivery units |
| `cursor` | Batches that carry their own commit cursor |
| `pipeline`, `source`, `transform`, `record` | Assembling pipelines |
| `kafka` | Messages, offsets, and what the broker is told |
| `storage` | Checkpoints in files, object stores and SQL databases |
| `telemetry`, `identity`, `error`, `text`, `time`, `num` | Metrics, names, failures, numerals, the clock, counts |

The laws that hold of every run are public proof functions:
`history::persisted_is_acknowledged`, `commit::deadlines_hold_after_any_run`,
`commit::epochs_are_handed_out_in_order`, `runner::units::runs_deliver_their_units_in_order`,
`runner::units::batched_runs_deliver_the_stream`,
`runner::collecting::runs_collect_their_records_in_order`,
`runner::prefetch::prefetching_keeps_order`, `fanout::branches_get_every_unit`,
`cursor::committed_cursors_were_delivered` and others beside the functions that they relate.
