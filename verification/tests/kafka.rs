use rdkafka::config::ClientConfig;
use rdkafka::error::KafkaError;
use rdkafka::message::{Header, Headers};
use rdkafka::topic_partition_list::Offset;
use sluiceway::checkpoint::Checkpoint;
use sluiceway::kafka::cursor;
use sluiceway::kafka::offsets::PartitionOffsets;
use sluiceway::kafka::received::{copy_headers, HeaderView, KafkaTimestamp, MessageView};
use sluiceway::kafka::source::{
    configure, message_position, track_checkpoint, BrokerCommitter, BrokerCommitterError,
    KafkaCheckpoint, KafkaCommitter, KafkaDeserializer, KafkaPosition, KafkaSource,
    KafkaSourceError, NoCommitter, NoKeyDeserializer,
};
use std::convert::Infallible;
use std::sync::Arc;

fn message(payload: Option<&[u8]>) -> MessageView<'_> {
    MessageView {
        topic: "events",
        partition: 3,
        offset: 7,
        timestamp: KafkaTimestamp::CreateTime(42),
        key: Some(b"key"),
        payload,
        headers: Some(vec![
            HeaderView {
                key: "trace",
                value: Some(b"first"),
            },
            HeaderView {
                key: "trace",
                value: None,
            },
        ]),
    }
}

fn message_at(partition: i32, offset: i64) -> MessageView<'static> {
    MessageView {
        topic: "events",
        partition,
        offset,
        timestamp: KafkaTimestamp::NotAvailable,
        key: None,
        payload: Some(b"payload"),
        headers: None,
    }
}

fn plain(key: Option<&'static [u8]>, payload: Option<&'static [u8]>, offset: i64) -> MessageView<'static> {
    MessageView {
        topic: "events",
        partition: 0,
        offset,
        timestamp: KafkaTimestamp::NotAvailable,
        key,
        payload,
        headers: None,
    }
}

#[derive(Debug)]
struct RecordingCommitError;

struct FailingCommitter;

impl KafkaCommitter for FailingCommitter {
    type Error = RecordingCommitError;
}

impl FailingCommitter {
    fn commit(&self, _checkpoint: KafkaCheckpoint) -> Result<(), RecordingCommitError> {
        Err(RecordingCommitError)
    }
}

fn offsets(entries: &[(&str, i32, i64)]) -> PartitionOffsets {
    let mut offsets = PartitionOffsets::new();
    for (topic, partition, offset) in entries {
        offsets.raise(&topic.to_string(), *partition, *offset);
    }
    offsets
}

fn bytes(value: &[u8]) -> Result<Vec<u8>, Infallible> {
    Ok(value.to_vec())
}

#[test]
fn raw_decoder_preserves_tombstones() {
    assert_eq!(cursor::raw_payload(&message(None)), None);
}

#[test]
fn raw_source_preserves_owned_message_metadata() {
    let source = message(Some(b"payload"));
    let message = cursor::message_with_payload(&source, cursor::raw_payload(&source));

    assert_eq!(message.payload, Some(b"payload".to_vec()));
    assert_eq!(message.key, Some(b"key".to_vec()));
    assert_eq!(message.topic, "events");
    assert_eq!(message.partition, 3);
    assert_eq!(message.offset, 7);
    assert_eq!(message.timestamp, KafkaTimestamp::CreateTime(42));
    assert_eq!(
        message.headers,
        vec![
            cursor::KafkaHeader {
                key: "trace".to_owned(),
                value: Some(b"first".to_vec()),
            },
            cursor::KafkaHeader {
                key: "trace".to_owned(),
                value: None,
            },
        ]
    );
}

#[test]
fn json_decoder_decodes_known_types_and_rejects_bad_payloads() {
    assert_eq!(
        cursor::json_payload(&message(Some(b"[1,2]")), |bytes| {
            serde_json::from_slice::<Option<Vec<u64>>>(bytes)
        })
        .unwrap(),
        Some(vec![1, 2])
    );
    assert_eq!(
        cursor::json_payload(&message(Some(b"null")), |bytes| {
            serde_json::from_slice::<Option<Vec<u64>>>(bytes)
        })
        .unwrap(),
        None
    );
    assert!(matches!(
        cursor::json_payload(&message(None), |bytes| {
            serde_json::from_slice::<Vec<u64>>(bytes)
        }),
        Err(cursor::KafkaSourceError::MissingPayload { .. })
    ));
    assert!(matches!(
        cursor::json_payload(&message(Some(b"not-json")), |bytes| {
            serde_json::from_slice::<Vec<u64>>(bytes)
        }),
        Err(cursor::KafkaSourceError::Json(_))
    ));
}

#[test]
fn cursor_folds_interleaved_partition_positions() {
    let cursor = [message_at(0, 4), message_at(1, 9), message_at(0, 5)]
        .iter()
        .map(cursor::message_position)
        .collect::<Result<Vec<_>, _>>()
        .unwrap()
        .into_iter()
        .fold(None, |cursor, position| {
            Some(cursor::KafkaSource::<(), cursor::Raw>::track(cursor, position))
        })
        .unwrap();

    assert_eq!(cursor.get(&("events".to_owned(), 0)), Some(&6));
    assert_eq!(cursor.get(&("events".to_owned(), 1)), Some(&10));
}

#[test]
fn cursor_rejects_exhausted_offsets() {
    assert!(matches!(
        cursor::message_position(&message_at(0, i64::MAX)),
        Err(cursor::KafkaSourceError::OffsetExhausted { .. })
    ));
}

#[test]
fn source_rejects_an_empty_subscription() {
    assert!(matches!(
        cursor::KafkaSource::raw(ClientConfig::new(), &[], |_, _| Ok(())),
        Err(cursor::KafkaSourceError::NoTopics)
    ));
}

#[test]
fn mod_source_rejects_an_empty_subscription() {
    assert!(matches!(
        KafkaSource::from_config(ClientConfig::new(), &[], |_, _| Ok(())),
        Err(KafkaSourceError::NoTopics)
    ));
}

#[test]
fn checkpoint_folds_interleaved_partition_positions() {
    let checkpoint = [message_at(0, 4), message_at(1, 9), message_at(0, 5)]
        .iter()
        .map(message_position)
        .fold(None, |checkpoint, position| {
            Some(track_checkpoint(checkpoint, &position))
        })
        .unwrap();

    assert_eq!(checkpoint.get(&("events".to_owned(), 0)), Some(&5));
    assert_eq!(checkpoint.get(&("events".to_owned(), 1)), Some(&9));
}

#[test]
fn offsets_never_go_back() {
    let mut checkpoint = PartitionOffsets::start_epoch(&message_position(&message_at(2, 8)));
    checkpoint.include_position(&message_position(&message_at(2, 3)));
    assert_eq!(checkpoint.get(&("events".to_owned(), 2)), Some(&8));
    assert_eq!(checkpoint.get(&("events".to_owned(), 1)), None);
    checkpoint.include_position(&message_position(&message_at(2, 9)));
    assert_eq!(checkpoint.get(&("events".to_owned(), 2)), Some(&9));
    assert_eq!(checkpoint.len(), 1);
    let transition = checkpoint.clone().start_next_epoch(&message_position(&message_at(0, 1)));
    assert_eq!(
        transition.completed_epoch.get(&("events".to_owned(), 2)),
        Some(&9)
    );
    assert_eq!(transition.next_epoch.get(&("events".to_owned(), 2)), None);
    assert_eq!(
        transition.next_epoch.get(&("events".to_owned(), 0)),
        Some(&1)
    );
}

#[test]
fn raising_in_either_order_gives_the_same_offsets() {
    let left = offsets(&[("a", 0, 4), ("b", 0, 1), ("a", 0, 2)]);
    let right = offsets(&[("a", 0, 2), ("a", 0, 4), ("b", 0, 1)]);
    for key in [("a".to_owned(), 0), ("b".to_owned(), 0)] {
        assert_eq!(left.get(&key), right.get(&key));
    }
    assert_eq!(left.get(&("a".to_owned(), 0)), Some(&4));
}

#[test]
fn broker_committer_rejects_an_exhausted_offset() {
    let checkpoint = offsets(&[("events", 0, i64::MAX)]);

    assert!(matches!(
        BrokerCommitter.next_offsets(&checkpoint),
        Err(BrokerCommitterError::OffsetExhausted { .. })
    ));
}

#[test]
fn the_broker_is_told_the_next_offsets() {
    let checkpoint = offsets(&[("events", 0, 4), ("orders", 2, 41)]);
    let list = BrokerCommitter.next_offsets(&checkpoint).unwrap();
    assert_eq!(list.count(), 2);
    assert_eq!(
        list.find_partition("events", 0).unwrap().offset(),
        Offset::Offset(5)
    );
    assert_eq!(
        list.find_partition("orders", 2).unwrap().offset(),
        Offset::Offset(42)
    );
    assert!(list.find_partition("orders", 0).is_none());

    let list = cursor::BrokerCheckpoint
        .committed_offsets(&checkpoint)
        .unwrap();
    assert_eq!(
        list.find_partition("events", 0).unwrap().offset(),
        Offset::Offset(4)
    );
}

#[test]
fn the_client_refuses_negative_offsets() {
    assert!(matches!(
        BrokerCommitter.next_offsets(&offsets(&[("events", 0, -2)])),
        Err(BrokerCommitterError::Kafka(KafkaError::SetPartitionOffset(_)))
    ));
    assert!(BrokerCommitter
        .next_offsets(&offsets(&[("events", 0, -1)]))
        .is_ok());
    assert!(matches!(
        cursor::BrokerCheckpoint.committed_offsets(&offsets(&[("events", 0, -1)])),
        Err(cursor::KafkaSourceError::Kafka(_))
    ));
}

#[derive(Debug, Clone, Copy)]
struct Utf8Deserializer;

impl KafkaDeserializer for Utf8Deserializer {
    type Output = String;
    type Error = std::str::Utf8Error;

    fn deserialize(&self, bytes: &[u8]) -> Result<String, std::str::Utf8Error> {
        Ok(std::str::from_utf8(bytes)?.to_owned())
    }
}

#[test]
fn record_preserves_missing_successful_and_failed_decode_outcomes() {
    let decoding_source = KafkaSource {
        consumer: Arc::new(()),
        key_deserializer: Utf8Deserializer,
        payload_deserializer: Utf8Deserializer,
        committer: BrokerCommitter,
    };
    let invalid_payload = plain(Some(b"key"), Some(&[0xff]), 0);
    let decoded = decoding_source.record_from_message(&invalid_payload).payload;

    assert_eq!(decoded.key.unwrap().unwrap(), "key");
    assert!(matches!(decoded.payload, Some(Err(_))));

    let absent = plain(None, None, 1);
    let ignoring_source = KafkaSource {
        consumer: Arc::new(()),
        key_deserializer: NoKeyDeserializer,
        payload_deserializer: Utf8Deserializer,
        committer: BrokerCommitter,
    };
    let decoded = ignoring_source.record_from_message(&absent).payload;

    assert!(decoded.key.is_none());
    assert!(decoded.payload.is_none());

    let ignored_key = plain(Some(b"ignored"), None, 2);
    let decoded = ignoring_source.record_from_message(&ignored_key).payload;

    assert!(matches!(decoded.key, Some(Ok(()))));
}

#[test]
fn records_keep_position_timestamp_and_headers() {
    let source = KafkaSource::from_consumer(Arc::new("consumer"))
        .key_deserializer(bytes)
        .payload_deserializer(bytes)
        .build();
    let record = source.on_received(Ok(message(Some(b"payload")))).unwrap();
    assert_eq!(
        *record.position(),
        KafkaPosition {
            topic: "events".to_owned(),
            partition: 3,
            offset: 7,
        }
    );
    let record = record.payload;
    assert_eq!(record.key.unwrap().unwrap(), b"key".to_vec());
    assert_eq!(record.payload.unwrap().unwrap(), b"payload".to_vec());
    assert_eq!(record.timestamp, KafkaTimestamp::CreateTime(42));
    let headers = record.headers.unwrap();
    assert_eq!(headers.count(), 2);
    assert_eq!(
        headers.get(0),
        Header {
            key: "trace",
            value: Some(b"first".as_slice()),
        }
    );
    assert_eq!(
        headers.get(1),
        Header {
            key: "trace",
            value: None,
        }
    );
    assert!(matches!(
        source.on_received(Err(KafkaError::Canceled)),
        Err(KafkaSourceError::Kafka(KafkaError::Canceled))
    ));
}

#[test]
fn empty_header_values_are_kept_apart_from_missing_ones() {
    let headers = copy_headers(&vec![HeaderView {
        key: "",
        value: Some(b""),
    }]);
    assert_eq!(headers.count(), 1);
    assert_eq!(
        headers.get(0),
        Header {
            key: "",
            value: Some(b"".as_slice()),
        }
    );
}

#[test]
fn consumers_are_configured_for_manual_offsets() {
    let mut config = ClientConfig::new();
    config
        .set("group.id", "pipeline")
        .set("enable.auto.commit", "true");
    let source = KafkaSource::from_config(config, &["events", "orders"], |config, topics| {
        Ok((
            config.get("group.id").map(str::to_owned),
            config.get("enable.auto.commit").map(str::to_owned),
            config.get("enable.auto.offset.store").map(str::to_owned),
            topics.len(),
        ))
    })
    .unwrap()
    .payload_deserializer(bytes)
    .committer(NoCommitter)
    .build();
    assert_eq!(
        *source.consumer,
        (
            Some("pipeline".to_owned()),
            Some("false".to_owned()),
            Some("false".to_owned()),
            2
        )
    );
    let mut config = ClientConfig::new();
    assert!(!configure(&mut config, &[]));
    assert_eq!(config.get("enable.auto.commit"), None);
}

#[test]
fn a_consumer_that_cannot_be_created_is_reported() {
    assert!(matches!(
        KafkaSource::<(), _, _>::from_config(ClientConfig::new(), &["events"], |_, _| {
            Err(KafkaError::Canceled)
        }),
        Err(KafkaSourceError::Kafka(KafkaError::Canceled))
    ));
    assert!(matches!(
        cursor::KafkaSource::<(), cursor::Raw>::json::<u64, _>(
            ClientConfig::new(),
            &["events"],
            |_, _| Err(KafkaError::Canceled)
        ),
        Err(cursor::KafkaSourceError::Kafka(KafkaError::Canceled))
    ));
}

#[test]
fn no_committer_accepts_a_checkpoint_without_broker_commit() {
    NoCommitter.commit(offsets(&[("events", 0, 1)])).unwrap();
}

#[test]
fn commit_failure_retains_its_typed_cause() {
    let source = KafkaSource::from_consumer(Arc::new(()))
        .key_deserializer(bytes)
        .payload_deserializer(bytes)
        .committer(FailingCommitter)
        .build();
    assert!(matches!(
        source.on_commit(source.committer.commit(KafkaCheckpoint::new())),
        Err(KafkaSourceError::Commit(RecordingCommitError))
    ));
    assert!(source.on_commit(Ok(())).is_ok());
}

#[test]
fn broker_commits_that_run_as_tasks_report_both_failures() {
    assert!(BrokerCommitter.on_joined(Ok(Ok(()))).is_ok());
    assert!(matches!(
        BrokerCommitter.on_joined(Ok(Err(BrokerCommitterError::Kafka(KafkaError::Canceled)))),
        Err(BrokerCommitterError::Kafka(KafkaError::Canceled))
    ));
    let runtime = tokio::runtime::Builder::new_current_thread()
        .build()
        .unwrap();
    let failure = runtime.block_on(async {
        let task = tokio::spawn(std::future::pending::<()>());
        task.abort();
        task.await.unwrap_err()
    });
    assert!(matches!(
        BrokerCommitter.on_joined(Err(failure)),
        Err(BrokerCommitterError::Task(_))
    ));
}

#[test]
fn raw_and_json_sources_turn_messages_into_records() {
    let raw = cursor::KafkaSource::raw(ClientConfig::new(), &["events"], |_, _| Ok(())).unwrap();
    let record = raw.on_received(Ok(message(None))).unwrap();
    assert_eq!(record.position().next_offset, 8);
    assert_eq!(record.payload.payload, None);
    assert!(matches!(
        raw.on_received(Ok(message_at(0, i64::MAX))),
        Err(cursor::KafkaSourceError::OffsetExhausted { .. })
    ));
    assert!(matches!(
        raw.on_received(Err(KafkaError::Canceled)),
        Err(cursor::KafkaSourceError::Kafka(_))
    ));

    let json = cursor::KafkaSource::<(), cursor::Raw>::json::<u64, _>(
        ClientConfig::new(),
        &["events"],
        |_, _| Ok(()),
    )
    .unwrap();
    let record = json
        .on_received(Ok(message(Some(b"12"))), |bytes| serde_json::from_slice(bytes))
        .unwrap();
    assert_eq!(record.payload.payload, 12);
    assert!(matches!(
        json.on_received(Ok(plain(None, Some(b"x"), i64::MAX)), |bytes| {
            serde_json::from_slice(bytes)
        }),
        Err(cursor::KafkaSourceError::Json(_))
    ));
    assert!(matches!(
        json.on_received(Ok(plain(None, Some(b"1"), i64::MAX)), |bytes| {
            serde_json::from_slice(bytes)
        }),
        Err(cursor::KafkaSourceError::OffsetExhausted { .. })
    ));
}

#[test]
fn commits_that_run_as_tasks_report_both_failures() {
    let checkpoint = cursor::BrokerCheckpoint;
    assert!(checkpoint.on_joined(Ok(Ok(()))).is_ok());
    assert!(matches!(
        checkpoint.on_joined(Ok(Err(KafkaError::Canceled))),
        Err(cursor::KafkaSourceError::Kafka(KafkaError::Canceled))
    ));
    let runtime = tokio::runtime::Builder::new_current_thread()
        .build()
        .unwrap();
    let failed = runtime.block_on(async {
        let task = tokio::spawn(std::future::pending::<()>());
        task.abort();
        task.await.unwrap_err()
    });
    assert!(matches!(
        checkpoint.on_joined(Err(failed)),
        Err(cursor::KafkaSourceError::CommitTask(_))
    ));
}

#[test]
fn kafka_failures_are_worded() {
    let exhausted = BrokerCommitterError::OffsetExhausted {
        topic: "events".to_owned(),
        partition: -3,
        offset: i64::MAX,
    };
    assert_eq!(
        exhausted.message(),
        "Kafka offset at events[-3] cannot be advanced beyond 9223372036854775807"
    );
    assert_eq!(
        BrokerCommitterError::Kafka(KafkaError::Canceled).message(),
        "Kafka commit failed"
    );
    assert_eq!(
        KafkaSourceError::<Infallible>::NoTopics.message(),
        "at least one Kafka topic is required"
    );
    assert_eq!(
        KafkaSourceError::<Infallible>::Kafka(KafkaError::Canceled).message(),
        "Kafka operation failed"
    );
    assert_eq!(
        KafkaSourceError::Commit(exhausted).message(),
        "Kafka checkpoint commit failed"
    );
    assert_eq!(
        cursor::KafkaSourceError::MissingPayload {
            topic: "events".to_owned(),
            partition: 0,
            offset: i64::MIN,
        }
        .message(),
        "Kafka message at events[0] offset -9223372036854775808 has no payload"
    );
    assert_eq!(
        cursor::KafkaSourceError::NoTopics.message(),
        "at least one Kafka topic is required"
    );
}

#[test]
fn decoding_markers_are_copied() {
    let marker = cursor::Json::<u64>::default();
    let copy = marker;
    assert_eq!(format!("{copy:?}"), format!("{:?}", marker.clone()));
}
