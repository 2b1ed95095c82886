use sluiceway::branch::{Branch, BranchMeta, BranchStage, Cons, ExecuteBranch, Nil, SpawnBranches};
use sluiceway::cursor::{Batch, CursorRunner, CursorStep};
use sluiceway::error::PipelineError;
use sluiceway::identity::PipelineId;
use sluiceway::record::Record;
use sluiceway::storage::file::{FileCheckpoint, FileCheckpointError, Opened, SaveRun, SaveStep};
use sluiceway::storage::load::Fetched;
use sluiceway::storage::objects::{ObjectStoreCheckpoint, ObjectStoreCheckpointError};
use sluiceway::storage::sql::{
    validated_identifier, MySql, Postgres, SqlCheckpoint, SqlCheckpointError, Sqlite,
};
use sluiceway::text::{push_decimal, push_signed_decimal};
use std::sync::Arc;

type Failure = PipelineError<&'static str, &'static str, &'static str>;

fn json(bytes: Vec<u8>) -> Result<u64, serde_json::Error> {
    serde_json::from_slice(&bytes)
}

#[test]
fn numbers_are_written_in_decimal() {
    for number in [0, 7, 10, 99, 100, 12_345, u64::MAX] {
        let mut text = "n=".to_owned();
        push_decimal(&mut text, number);
        assert_eq!(text, format!("n={number}"));
    }
    for number in [0, -1, 10, -10, i64::MIN, i64::MAX] {
        let mut text = String::new();
        push_signed_decimal(&mut text, number);
        assert_eq!(text, format!("{number}"));
    }
}

#[test]
fn temporary_files_lie_beside_the_checkpoint() {
    assert_eq!(
        FileCheckpoint::temporary_name(Some("state.json"), 42, 7),
        ".state.json.42.7.tmp"
    );
    assert_eq!(
        FileCheckpoint::temporary_name(None, 0, u64::MAX),
        ".checkpoint.0.18446744073709551615.tmp"
    );
    assert_ne!(
        FileCheckpoint::temporary_name(Some("a"), 1, 11),
        FileCheckpoint::temporary_name(Some("a"), 11, 1)
    );
    let checkpoint = FileCheckpoint::new("nested/state.json");
    assert_eq!(
        checkpoint.clone().path().as_path(),
        std::path::Path::new("nested/state.json")
    );
}

#[test]
fn missing_file_loads_as_none() {
    assert_eq!(
        FileCheckpoint::loaded(Fetched::Missing, json).unwrap(),
        None
    );
}

#[test]
fn stored_checkpoints_are_decoded() {
    assert_eq!(
        FileCheckpoint::loaded(Fetched::Found(b"12".to_vec()), json).unwrap(),
        Some(12)
    );
    assert!(matches!(
        FileCheckpoint::loaded(Fetched::Found(b"not json".to_vec()), json),
        Err(FileCheckpointError::Json(_))
    ));
    assert!(matches!(
        FileCheckpoint::loaded(
            Fetched::Failed(std::io::Error::from(std::io::ErrorKind::PermissionDenied)),
            json
        ),
        Err(FileCheckpointError::Io(_))
    ));
    type Objects = ObjectStoreCheckpoint<(), ()>;
    assert_eq!(Objects::loaded(Fetched::Missing, json).unwrap(), None);
    assert_eq!(
        Objects::loaded(Fetched::Found(b"3".to_vec()), json).unwrap(),
        Some(3)
    );
    assert!(matches!(
        Objects::loaded(Fetched::Found(br#"{"cursor":123}"#.to_vec()), json),
        Err(ObjectStoreCheckpointError::Json(_))
    ));
    assert!(matches!(
        Objects::loaded(Fetched::Failed(object_store::Error::NotImplemented {
            operation: "get".to_owned(),
            implementer: "test".to_owned(),
        }), json),
        Err(ObjectStoreCheckpointError::ObjectStore(_))
    ));
}

#[test]
fn object_checkpoints_keep_their_place() {
    let checkpoint: ObjectStoreCheckpoint<&str, String> =
        ObjectStoreCheckpoint::new("store", "state.json");
    assert_eq!(*checkpoint.store(), "store");
    assert_eq!(checkpoint.clone().path(), "state.json");
}

#[test]
fn saves_replace_the_file_as_a_whole() {
    let (mut run, step) = SaveRun::<&str>::start(true);
    assert!(matches!(step, SaveStep::CreateParent));
    assert!(matches!(run.on_parent(Ok(())), SaveStep::Open));
    assert!(matches!(run.on_opened(Opened::AlreadyExists), SaveStep::Open));
    assert!(matches!(run.on_opened(Opened::Created), SaveStep::Write));
    assert!(matches!(run.on_written(Ok(())), SaveStep::Sync));
    assert!(matches!(run.on_synced(Ok(())), SaveStep::Rename));
    assert!(matches!(run.on_renamed(Ok(())), SaveStep::Saved));
}

#[test]
fn failed_saves_clean_up() {
    let (mut run, step) = SaveRun::<&str>::start(false);
    assert!(matches!(step, SaveStep::Open));
    assert!(matches!(run.on_opened(Opened::Created), SaveStep::Write));
    assert!(matches!(run.on_written(Err("full")), SaveStep::Remove));
    assert!(matches!(run.on_removed(), SaveStep::Failed("full")));

    let (mut run, _) = SaveRun::<&str>::start(false);
    run.on_opened(Opened::Created);
    run.on_written(Ok(()));
    assert!(matches!(run.on_synced(Err("sync")), SaveStep::Remove));
    assert!(matches!(run.on_removed(), SaveStep::Failed("sync")));

    let (mut run, _) = SaveRun::<&str>::start(false);
    run.on_opened(Opened::Created);
    run.on_written(Ok(()));
    run.on_synced(Ok(()));
    assert!(matches!(run.on_renamed(Err("rename")), SaveStep::Remove));
    assert!(matches!(run.on_removed(), SaveStep::Failed("rename")));

    let (mut run, _) = SaveRun::<&str>::start(false);
    assert!(matches!(
        run.on_opened(Opened::Failed("open")),
        SaveStep::Failed("open")
    ));

    let (mut run, _) = SaveRun::<&str>::start(true);
    assert!(matches!(
        run.on_parent(Err("parent")),
        SaveStep::Failed("parent")
    ));
}

#[test]
fn sql_configuration_is_checked() {
    assert!(matches!(
        SqlCheckpoint::<Sqlite, ()>::new((), ""),
        Err(SqlCheckpointError::InvalidPipelineId)
    ));
    assert!(SqlCheckpoint::<Sqlite, ()>::new((), "x".repeat(255)).is_ok());
    assert!(matches!(
        SqlCheckpoint::<Sqlite, ()>::new((), "x".repeat(256)),
        Err(SqlCheckpointError::InvalidPipelineId)
    ));
    assert!(matches!(
        SqlCheckpoint::<Sqlite, ()>::for_key((), "☃".repeat(86)),
        Err(SqlCheckpointError::InvalidPipelineId)
    ));
    assert!(matches!(
        SqlCheckpoint::<Sqlite, ()>::new((), "pipeline")
            .unwrap()
            .table("not-valid"),
        Err(SqlCheckpointError::InvalidIdentifier { kind: "table", identifier })
            if identifier == "not-valid"
    ));
    assert!(matches!(
        SqlCheckpoint::<Postgres, ()>::new((), "pipeline")
            .unwrap()
            .schema("1st"),
        Err(SqlCheckpointError::InvalidIdentifier { kind: "schema", .. })
    ));
    for identifier in ["", "1a", "a-b", "a b", "a\"b", "é", "a.b"] {
        assert!(validated_identifier("table", identifier.to_owned()).is_err());
    }
    for identifier in ["a", "_", "A_1", "checkpoints"] {
        assert_eq!(
            validated_identifier("table", identifier.to_owned()).unwrap(),
            identifier
        );
    }
}

#[test]
fn sql_failures_are_worded() {
    assert_eq!(
        SqlCheckpointError::InvalidPipelineId.message().unwrap(),
        "pipeline_id must contain between 1 and 255 bytes"
    );
    assert_eq!(
        SqlCheckpointError::InvalidIdentifier {
            kind: "table",
            identifier: "a\"b".to_owned(),
        }
        .message()
        .unwrap(),
        "invalid portable SQL table identifier \"a\\\"b\""
    );
    assert!(SqlCheckpointError::Database(sqlx_core::Error::RowNotFound)
        .message()
        .is_none());
}

#[test]
fn postgres_statements_are_qualified() {
    let checkpoint = SqlCheckpoint::<Postgres, &str>::new("pool", "orders").unwrap();
    assert_eq!(*checkpoint.pool(), "pool");
    assert_eq!(checkpoint.pipeline_id(), "orders");
    assert_eq!(checkpoint.qualified_table(), r#""penstock"."checkpoints""#);
    let checkpoint = checkpoint
        .schema("progress")
        .unwrap()
        .table("cursors")
        .unwrap()
        .clone();
    assert_eq!(
        checkpoint.create_schema(),
        r#"CREATE SCHEMA IF NOT EXISTS "progress""#
    );
    assert_eq!(
        checkpoint.create_table(),
        "CREATE TABLE IF NOT EXISTS \"progress\".\"cursors\" (\"pipeline_id\" VARCHAR(255) PRIMARY KEY, \"cursor\" TEXT NOT NULL)"
    );
    assert_eq!(
        checkpoint.select(),
        "SELECT \"cursor\" FROM \"progress\".\"cursors\" WHERE \"pipeline_id\" = $1"
    );
    assert_eq!(
        checkpoint.upsert(),
        "INSERT INTO \"progress\".\"cursors\" (\"pipeline_id\", \"cursor\") VALUES ($1, $2) \
         ON CONFLICT (\"pipeline_id\") DO UPDATE SET \"cursor\" = EXCLUDED.\"cursor\""
    );
}

#[test]
fn mysql_and_sqlite_statements_are_quoted() {
    let checkpoint = SqlCheckpoint::<MySql, ()>::new((), "orders").unwrap();
    assert_eq!(
        checkpoint.create_table(),
        "CREATE TABLE IF NOT EXISTS `checkpoints` (`pipeline_id` VARCHAR(255) PRIMARY KEY, `cursor` LONGTEXT NOT NULL)"
    );
    assert_eq!(
        checkpoint.select(),
        "SELECT `cursor` FROM `checkpoints` WHERE `pipeline_id` = ?"
    );
    assert_eq!(
        checkpoint.upsert(),
        "INSERT INTO `checkpoints` (`pipeline_id`, `cursor`) VALUES (?, ?) \
         ON DUPLICATE KEY UPDATE `cursor` = VALUES(`cursor`)"
    );
    let id = PipelineId::new("orders/main").unwrap();
    let checkpoint = SqlCheckpoint::<Sqlite, ()>::with_id((), id.clone());
    assert_eq!(checkpoint.pipeline_id(), "orders/main");
    assert_eq!(
        checkpoint.create_table(),
        "CREATE TABLE IF NOT EXISTS \"checkpoints\" (\"pipeline_id\" TEXT PRIMARY KEY, \"cursor\" TEXT NOT NULL)"
    );
    assert_eq!(
        checkpoint.select(),
        "SELECT \"cursor\" FROM \"checkpoints\" WHERE \"pipeline_id\" = ?"
    );
    assert_eq!(
        checkpoint.upsert(),
        "INSERT INTO \"checkpoints\" (\"pipeline_id\", \"cursor\") VALUES (?, ?) \
         ON CONFLICT (\"pipeline_id\") DO UPDATE SET \"cursor\" = EXCLUDED.\"cursor\""
    );
}

#[test]
fn rows_are_decoded() {
    type Store = SqlCheckpoint<Sqlite, ()>;
    let decode = |text: String| serde_json::from_str::<u64>(&text);
    assert_eq!(Store::loaded(Ok(None), decode).unwrap(), None);
    assert_eq!(
        Store::loaded(Ok(Some("7".to_owned())), decode).unwrap(),
        Some(7)
    );
    assert!(matches!(
        Store::loaded(Ok(Some("not json".to_owned())), decode),
        Err(SqlCheckpointError::Json(_))
    ));
    assert!(matches!(
        Store::loaded(Err(sqlx_core::Error::PoolClosed), decode),
        Err(SqlCheckpointError::Database(sqlx_core::Error::PoolClosed))
    ));
}

fn last(_cursor: Option<u64>, position: u64) -> u64 {
    position
}

fn chunk(positions: &[u64]) -> Vec<Result<Record<u64, u64>, Failure>> {
    positions
        .iter()
        .map(|position| Ok(Record::new(*position, position * 10)))
        .collect()
}

#[test]
fn cursors_are_folded_out_of_chunks() {
    let batch = Batch::from_chunk(chunk(&[4, 4, 2]), last).unwrap().unwrap();
    assert_eq!(batch.len(), 3);
    assert_eq!(batch.clone().into_parts(), (vec![40, 40, 20], 2));
    assert_eq!(batch.into_iter().sum::<u64>(), 100);
    assert!(Batch::from_chunk(chunk(&[]), last).unwrap().is_none());
    let mut failed = chunk(&[1]);
    failed.push(Err(PipelineError::Source("first")));
    failed.push(Err(PipelineError::Source("second")));
    assert!(matches!(
        Batch::from_chunk(failed, last),
        Err(PipelineError::Source("first"))
    ));
}

#[test]
fn repeated_and_non_monotonic_cursors_remain_opaque() {
    let mut committed = Vec::new();
    let mut chunks = vec![chunk(&[4, 4]), chunk(&[2])].into_iter();
    let mut runner = CursorRunner::<u64>::start();
    let mut step: CursorStep<Batch<u64, u64>, u64, Failure> = CursorStep::Wait;
    loop {
        step = match step {
            CursorStep::Wait => match chunks.next() {
                Some(chunk) => runner.on_batch(Batch::from_chunk(chunk, last)),
                None => runner.on_end(),
            },
            CursorStep::Deliver(_) => runner.on_delivered(Ok(())),
            CursorStep::Commit(cursor) => {
                committed.push(cursor);
                runner.on_committed(Ok(()))
            }
            CursorStep::Complete => break,
            CursorStep::Fail(_) => panic!("nothing fails"),
        };
    }
    assert_eq!(committed, vec![4, 2]);
}

#[test]
fn failed_units_leave_their_cursor_uncommitted() {
    let mut runner = CursorRunner::<u64>::start();
    let step: CursorStep<&str, u64, Failure> = runner.on_unit(Ok(Some(("unit", 1))));
    assert!(matches!(step, CursorStep::Deliver("unit")));
    let step: CursorStep<&str, u64, Failure> =
        runner.on_delivered(Err(PipelineError::Sinks(Vec::new())));
    assert!(matches!(step, CursorStep::Fail(PipelineError::Sinks(_))));

    let mut runner = CursorRunner::<u64>::start();
    let step: CursorStep<&str, u64, Failure> = runner.on_unit(Err(PipelineError::Source("source")));
    assert!(matches!(
        step,
        CursorStep::Fail(PipelineError::Source("source"))
    ));

    let mut runner = CursorRunner::<u64>::start();
    let _: CursorStep<&str, u64, Failure> = runner.on_unit(Ok(Some(("unit", 1))));
    let step: CursorStep<&str, u64, Failure> = runner.on_delivered(Ok(()));
    assert!(matches!(step, CursorStep::Commit(1)));
    let step: CursorStep<&str, u64, Failure> = runner.on_committed(Err("commit"));
    assert!(matches!(
        step,
        CursorStep::Fail(PipelineError::Commit("commit"))
    ));
}

#[test]
fn branches_report_where_they_failed() {
    let branch = Branch::new("archive", "transform").sink("sink");
    assert_eq!(branch.transform, "transform");
    assert_eq!(branch.sink, "sink");
    let transformed: Vec<Result<Record<u64, u64>, &str>> =
        vec![Ok(Record::new(0, 1)), Ok(Record::new(1, 2))];
    let records = branch.transformed::<_, _, _, &str>(transformed).unwrap();
    assert_eq!(records.len(), 2);
    assert_eq!(records[1].payload, 2);
    let transformed: Vec<Result<Record<u64, u64>, &str>> =
        vec![Ok(Record::new(0, 1)), Err("first"), Err("second")];
    let failure = branch
        .transformed::<_, _, _, &str>(transformed)
        .unwrap_err();
    assert_eq!(failure.stage(), BranchStage::Transform);
    assert_eq!(failure.name, "archive");
    assert_eq!(failure.index, 0);
    let failure = branch.delivered::<u64, &str, _>(Err("sink")).unwrap_err();
    assert_eq!(failure.stage(), BranchStage::Sink);
    assert_eq!(branch.delivered::<u64, &str, &str>(Ok(5)).unwrap(), 5);
}

#[test]
fn branches_are_listed_from_the_head_on() {
    let mut second = Branch::identity("second");
    second.index = 1;
    let list = Cons {
        head: Arc::new(Branch::identity("first")),
        tail: Cons {
            head: Arc::new(second),
            tail: Nil,
        },
    };
    let mut metadata: Vec<BranchMeta> = Vec::new();
    list.collect_metadata(&mut metadata);
    assert_eq!(
        metadata
            .iter()
            .map(|meta| (meta.name.as_str(), meta.index))
            .collect::<Vec<_>>(),
        vec![("first", 0), ("second", 1)]
    );
    assert_eq!(list.head.metadata().name, "first");
}

#[test]
fn batches_are_committed_at_their_own_cursor() {
    let mut runner = CursorRunner::<String>::start();
    let batch = Batch::new(vec![1, 2], "second".to_owned());
    let step: CursorStep<Batch<i32, String>, String, Failure> = runner.on_batch(Ok(Some(batch)));
    assert!(matches!(step, CursorStep::Deliver(batch) if batch.items == vec![1, 2]));
    let step: CursorStep<Batch<i32, String>, String, Failure> = runner.on_delivered(Ok(()));
    assert!(matches!(step, CursorStep::Commit(cursor) if cursor == "second"));
    let _: CursorStep<Batch<i32, String>, String, Failure> = runner.on_committed(Ok(()));
    let step: CursorStep<Batch<i32, String>, String, Failure> = runner.on_batch(Ok(None));
    assert!(matches!(step, CursorStep::Wait));
    let step: CursorStep<Batch<i32, String>, String, Failure> =
        runner.on_batch(Err(PipelineError::Source("failed")));
    assert!(matches!(step, CursorStep::Fail(PipelineError::Source("failed"))));
}

#[test]
fn saved_checkpoints_load_back() {
    for checkpoint in [0u64, 41, u64::MAX] {
        let bytes = serde_json::to_vec(&checkpoint).unwrap();
        assert_eq!(
            FileCheckpoint::loaded(Fetched::Found(bytes), json).unwrap(),
            Some(checkpoint)
        );
    }
}
