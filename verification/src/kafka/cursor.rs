//! A source that keeps whole messages and commits absolute next offsets.
use crate::kafka::client;
use crate::kafka::listing;
use crate::kafka::listing::{list_partitions, Unlisted};
use crate::kafka::offsets;
use crate::kafka::offsets::PartitionOffsets;
use crate::kafka::received::{HeaderView, KafkaTimestamp, MessageView};
use crate::kafka::source;
use crate::kafka::source::{configure, exhausted_message};
use crate::record::Record;
use crate::text;
use crate::text::push_signed_decimal;
use std::marker::PhantomData;
use std::sync::Arc;
use vstd::prelude::*;

verus! {

/// A failure to decode JSON, `serde_json::Error`.
#[verifier::external_type_specification]
#[verifier::external_body]
pub struct ExJsonError(serde_json::Error);

/// A Kafka header with owned key and value storage.
#[derive(Debug, Clone, PartialEq, Eq)]
pub struct KafkaHeader {
    pub key: String,
    pub value: Option<Vec<u8>>,
}

impl KafkaHeader {
    /// The key and the value, if there is one.
    pub open spec fn content(self) -> (Seq<char>, Option<Seq<u8>>) {
        (
            self.key@,
            match self.value {
                Some(bytes) => Some(bytes@),
                None => None,
            },
        )
    }
}

/// An owned Kafka message whose payload representation depends on the source decoding mode.
#[derive(Debug, Clone, PartialEq, Eq)]
pub struct KafkaMessage<P> {
    pub payload: P,
    pub key: Option<Vec<u8>>,
    pub topic: String,
    pub partition: i32,
    pub offset: i64,
    pub timestamp: KafkaTimestamp,
    pub headers: Vec<KafkaHeader>,
}

/// Absolute next offsets keyed by topic and partition.
///
/// The source folds the message-local positions in each batch into this map, which translates
/// directly into a list of partitions when the batch is delivered.
pub type KafkaCursor = PartitionOffsets;

/// The next offset for the topic-partition of one consumed message.
#[derive(Debug, PartialEq, Eq)]
pub struct KafkaPosition {
    pub topic: String,
    pub partition: i32,
    pub next_offset: i64,
}

impl Clone for KafkaPosition {
    fn clone(&self) -> (copy: Self)
        ensures
            copy == *self,
    {
        KafkaPosition {
            topic: self.topic.clone(),
            partition: self.partition,
            next_offset: self.next_offset,
        }
    }
}

impl KafkaPosition {
    /// The topic and partition.
    pub open spec fn key(self) -> offsets::PartitionKey {
        (self.topic@, self.partition)
    }
}

/// Kafka source construction, consumption, decoding, or commit failure.
#[derive(Debug)]
pub enum KafkaSourceError {
    /// There is no topic to subscribe to.
    NoTopics,
    Kafka(rdkafka::error::KafkaError),
    MissingPayload { topic: String, partition: i32, offset: i64 },
    Json(serde_json::Error),
    OffsetExhausted { topic: String, partition: i32, offset: i64 },
    CommitTask(tokio::task::JoinError),
}

impl KafkaSourceError {
    /// The failure in words.
    pub open spec fn words(self) -> Seq<char> {
        match self {
            KafkaSourceError::NoTopics => "at least one Kafka topic is required"@,
            KafkaSourceError::Kafka(_) => "Kafka operation failed"@,
            KafkaSourceError::MissingPayload { topic, partition, offset } => {
                "Kafka message at "@ + topic@ + "["@ + text::signed_decimal(partition as int)
                    + "] offset "@ + text::signed_decimal(offset as int) + " has no payload"@
            },
            KafkaSourceError::Json(_) => "Kafka JSON payload could not be decoded"@,
            KafkaSourceError::OffsetExhausted { topic, partition, offset } => {
                source::exhausted_words(topic@, partition, offset)
            },
            KafkaSourceError::CommitTask(_) => "Kafka commit task failed"@,
        }
    }

    /// The failure in words.
    pub fn message(&self) -> (text: String)
        ensures
            text@ == self.words(),
            *self matches KafkaSourceError::MissingPayload { topic, partition, offset } ==> text@
                == "Kafka message at "@ + topic@ + "["@ + text::signed_decimal(partition as int)
                + "] offset "@ + text::signed_decimal(offset as int) + " has no payload"@,
    {
        match self {
            KafkaSourceError::NoTopics => "at least one Kafka topic is required".to_owned(),
            KafkaSourceError::Kafka(_) => "Kafka operation failed".to_owned(),
            KafkaSourceError::MissingPayload { topic, partition, offset } => {
                let mut text = "Kafka message at ".to_owned();
                text.append(topic.as_str());
                text.append("[");
                push_signed_decimal(&mut text, *partition as i64);
                text.append("] offset ");
                push_signed_decimal(&mut text, *offset);
                text.append(" has no payload");
                text
            },
            KafkaSourceError::Json(_) => "Kafka JSON payload could not be decoded".to_owned(),
            KafkaSourceError::OffsetExhausted { topic, partition, offset } => {
                exhausted_message(topic, *partition, *offset)
            },
            KafkaSourceError::CommitTask(_) => "Kafka commit task failed".to_owned(),
        }
    }
}

/// Marker selecting owned raw payload bytes.
#[derive(Debug, Default, Clone, Copy)]
pub struct Raw;

/// Marker selecting JSON decoding into `T`.
#[derive(Debug, Default, Copy)]
pub struct Json<T>(pub PhantomData<T>);

impl<T: Clone> Clone for Json<T> {
    fn clone(&self) -> (copy: Self)
        ensures
            copy == *self,
    {
        Json(self.0)
    }
}

/// The bytes of an optional field.
pub open spec fn field_bytes(field: Option<&[u8]>) -> Option<Seq<u8>> {
    match field {
        Some(bytes) => Some(bytes@),
        None => None,
    }
}

/// The bytes of an optional owned field.
pub open spec fn owned_bytes(field: Option<Vec<u8>>) -> Option<Seq<u8>> {
    match field {
        Some(bytes) => Some(bytes@),
        None => None,
    }
}

/// Copy an optional field.
fn copy_field(field: Option<&[u8]>) -> (copy: Option<Vec<u8>>)
    ensures
        owned_bytes(copy) == field_bytes(field),
{
    match field {
        Some(bytes) => Some(vstd::slice::slice_to_vec(bytes)),
        None => None,
    }
}

/// The payload bytes; a tombstone has none.
pub fn raw_payload(message: &MessageView<'_>) -> (payload: Option<Vec<u8>>)
    ensures
        owned_bytes(payload) == field_bytes(message.payload),
{
    copy_field(message.payload)
}

/// Whether an error says of a message that it has no payload.
pub open spec fn lacks_payload(message: MessageView<'_>, error: KafkaSourceError) -> bool {
    error matches KafkaSourceError::MissingPayload { topic, partition, offset } && topic@
        == message.topic@ && partition == message.partition && offset == message.offset
}

/// What `decode` makes of the payload, which must be present.
pub fn json_payload<T, F>(message: &MessageView<'_>, decode: F) -> (payload: Result<
    T,
    KafkaSourceError,
>) where F: FnOnce(&[u8]) -> Result<T, serde_json::Error>
    requires
        message.payload matches Some(bytes) ==> call_requires(decode, (bytes,)),
    ensures
        match message.payload {
            Some(bytes) => match payload {
                Ok(value) => call_ensures(decode, (bytes,), Ok(value)),
                Err(KafkaSourceError::Json(error)) => call_ensures(decode, (bytes,), Err(error)),
                Err(_) => false,
            },
            None => payload matches Err(error) && lacks_payload(*message, error),
        },
{
    match message.payload {
        Some(bytes) => match decode(bytes) {
            Ok(value) => Ok(value),
            Err(error) => Err(KafkaSourceError::Json(error)),
        },
        None => Err(
            KafkaSourceError::MissingPayload {
                topic: message.topic.to_owned(),
                partition: message.partition,
                offset: message.offset,
            },
        ),
    }
}

/// The headers of a received message; a message without headers has none.
pub open spec fn headers_in(message: MessageView<'_>) -> Seq<(Seq<char>, Option<Seq<u8>>)> {
    match message.headers {
        Some(headers) => headers@.map_values(|header: HeaderView| header.content()),
        None => Seq::empty(),
    }
}

/// Whether an owned message holds what a received one holds, but for the payload.
pub open spec fn is_copy<P>(message: MessageView<'_>, owned: KafkaMessage<P>) -> bool {
    &&& owned_bytes(owned.key) == field_bytes(message.key)
    &&& owned.topic@ == message.topic@
    &&& owned.partition == message.partition
    &&& owned.offset == message.offset
    &&& owned.timestamp == message.timestamp
    &&& owned.headers@.map_values(|header: KafkaHeader| header.content()) == headers_in(message)
}

/// Copy a message, with its payload as given; a message without headers gets none.
pub fn message_with_payload<P>(message: &MessageView<'_>, payload: P) -> (owned: KafkaMessage<P>)
    ensures
        owned.payload == payload,
        is_copy(*message, owned),
{
    let mut headers: Vec<KafkaHeader> = Vec::new();
    match &message.headers {
        Some(views) => {
            let mut index: usize = 0;
            while index < views.len()
                invariant
                    index <= views@.len(),
                    headers@.len() == index,
                    forall|i: int|
                        0 <= i < index ==> (#[trigger] headers@[i]).content()
                            == views@[i].content(),
                decreases views@.len() - index,
            {
                let header = views[index];
                headers.push(
                    KafkaHeader { key: header.key.to_owned(), value: copy_field(header.value) },
                );
                index = index + 1;
            }
        },
        None => {},
    }
    let owned = KafkaMessage {
        payload,
        key: copy_field(message.key),
        topic: message.topic.to_owned(),
        partition: message.partition,
        offset: message.offset,
        timestamp: message.timestamp,
        headers,
    };
    proof {
        assert(owned.headers@.map_values(|header: KafkaHeader| header.content()) =~= headers_in(
            *message,
        ));
    }
    owned
}

/// Whether `position` is the position of a message: the offset after its own.
pub open spec fn is_position_of(message: MessageView<'_>, position: KafkaPosition) -> bool {
    &&& position.topic@ == message.topic@
    &&& position.partition == message.partition
    &&& position.next_offset == message.offset + 1
}

/// Whether an error says of a message that its offset cannot be advanced.
pub open spec fn is_exhausted(message: MessageView<'_>, error: KafkaSourceError) -> bool {
    error matches KafkaSourceError::OffsetExhausted { topic, partition, offset } && topic@
        == message.topic@ && partition == message.partition && offset == message.offset
}

/// The position of a message, unless its offset is the largest there is.
pub fn message_position(message: &MessageView<'_>) -> (position: Result<
    KafkaPosition,
    KafkaSourceError,
>)
    ensures
        position is Ok <==> message.offset < i64::MAX,
        position matches Ok(position) ==> is_position_of(*message, position),
        position matches Ok(position) ==> position.next_offset == message.offset + 1,
        position matches Err(error) ==> is_exhausted(*message, error),
{
    match message.offset.checked_add(1) {
        Some(next_offset) => Ok(
            KafkaPosition {
                topic: message.topic.to_owned(),
                partition: message.partition,
                next_offset,
            },
        ),
        None => Err(
            KafkaSourceError::OffsetExhausted {
                topic: message.topic.to_owned(),
                partition: message.partition,
                offset: message.offset,
            },
        ),
    }
}

/// Persists successful cursor snapshots to Kafka consumer-group offsets.
#[derive(Debug, Default, Clone, Copy)]
pub struct BrokerCheckpoint;

impl BrokerCheckpoint {
    /// What the broker is told: every offset as it stands.
    pub fn committed_offsets(self, cursor: &KafkaCursor) -> (list: Result<
        rdkafka::topic_partition_list::TopicPartitionList,
        KafkaSourceError,
    >)
        requires
            listing::are_listable(cursor@),
        ensures
            list is Ok <==> listing::can_advance(cursor@, 0),
            list matches Ok(list) ==> listing::lists(client::partitions_of(list), cursor@, 0),
            list matches Err(error) ==> error is Kafka,
    {
        match list_partitions(cursor, 0) {
            Ok(list) => Ok(list),
            Err(Unlisted::Exhausted { topic, partition, offset }) => Err(
                KafkaSourceError::OffsetExhausted { topic, partition, offset },
            ),
            Err(Unlisted::Refused(error)) => Err(KafkaSourceError::Kafka(error)),
        }
    }

    /// The outcome of a commit that ran as a task of its own.
    pub fn on_joined(
        self,
        joined: Result<Result<(), rdkafka::error::KafkaError>, tokio::task::JoinError>,
    ) -> (outcome: Result<(), KafkaSourceError>)
        ensures
            outcome == (match joined {
                Ok(Ok(_)) => Ok(()),
                Ok(Err(error)) => Err(KafkaSourceError::Kafka(error)),
                Err(error) => Err(KafkaSourceError::CommitTask(error)),
            }),
    {
        match joined {
            Ok(Ok(_)) => Ok(()),
            Ok(Err(error)) => Err(KafkaSourceError::Kafka(error)),
            Err(error) => Err(KafkaSourceError::CommitTask(error)),
        }
    }
}

/// A subscribed Kafka-compatible consumer source.
///
/// Use [`KafkaSource::raw`] for owned bytes or [`KafkaSource::json`] for strict JSON decoding. The
/// supplied consumer config is forced to use manual offset management.
pub struct KafkaSource<Co, D = Raw> {
    pub consumer: Arc<Co>,
    pub mode: PhantomData<D>,
    pub checkpoint: BrokerCheckpoint,
}

/// Whether a source is what connecting may give: no topics are refused before anything is created,
/// and else the consumer is created with automatic commits and offset storage disabled.
pub open spec fn is_built<Co, D, F>(
    config: rdkafka::config::ClientConfig,
    topics: &[&str],
    connect: F,
    built: Result<KafkaSource<Co, D>, KafkaSourceError>,
) -> bool where
    F: FnOnce(rdkafka::config::ClientConfig, &[&str]) -> Result<Co, rdkafka::error::KafkaError>,
 {
    if topics@.len() == 0 {
        built matches Err(KafkaSourceError::NoTopics)
    } else {
        exists|
            manual_config: rdkafka::config::ClientConfig,
            connected: Result<Co, rdkafka::error::KafkaError>,
        |
            {
                &&& client::settings_of(manual_config) == source::manual(
                    client::settings_of(config),
                )
                &&& #[trigger] call_ensures(connect, (manual_config, topics), connected)
                &&& match connected {
                    Ok(consumer) => built matches Ok(source) && *source.consumer == consumer,
                    Err(error) => built matches Err(KafkaSourceError::Kafka(e)) && e == error,
                }
            }
    }
}

impl<Co> KafkaSource<Co, Raw> {
    /// A source of raw payload bytes.
    pub fn raw<F>(
        config: rdkafka::config::ClientConfig,
        topics: &[&str],
        connect: F,
    ) -> (source: Result<Self, KafkaSourceError>) where
        F: FnOnce(rdkafka::config::ClientConfig, &[&str]) -> Result<
            Co,
            rdkafka::error::KafkaError,
        >,

        requires
            forall|manual_config: rdkafka::config::ClientConfig| #[trigger]
                call_requires(connect, (manual_config, topics)),
        ensures
            is_built(config, topics, connect, source),
    {
        Self::build(config, topics, connect)
    }

    /// A source of payloads decoded from JSON.
    pub fn json<T, F>(
        config: rdkafka::config::ClientConfig,
        topics: &[&str],
        connect: F,
    ) -> (source: Result<KafkaSource<Co, Json<T>>, KafkaSourceError>) where
        F: FnOnce(rdkafka::config::ClientConfig, &[&str]) -> Result<
            Co,
            rdkafka::error::KafkaError,
        >,

        requires
            forall|manual_config: rdkafka::config::ClientConfig| #[trigger]
                call_requires(connect, (manual_config, topics)),
        ensures
            is_built(config, topics, connect, source),
    {
        KafkaSource::build(config, topics, connect)
    }
}

impl<Co, D> KafkaSource<Co, D> {
    /// Check the subscription, disable automatic offset management, and have `connect` create and
    /// subscribe the consumer.
    pub fn build<F>(
        config: rdkafka::config::ClientConfig,
        topics: &[&str],
        connect: F,
    ) -> (source: Result<Self, KafkaSourceError>) where
        F: FnOnce(rdkafka::config::ClientConfig, &[&str]) -> Result<
            Co,
            rdkafka::error::KafkaError,
        >,

        requires
            forall|manual_config: rdkafka::config::ClientConfig| #[trigger]
                call_requires(connect, (manual_config, topics)),
        ensures
            is_built(config, topics, connect, source),
    {
        let mut config = config;
        if !configure(&mut config, topics) {
            return Err(KafkaSourceError::NoTopics);
        }
        match connect(config, topics) {
            Ok(consumer) => Ok(
                KafkaSource {
                    consumer: Arc::new(consumer),
                    mode: PhantomData,
                    checkpoint: BrokerCheckpoint,
                },
            ),
            Err(error) => Err(KafkaSourceError::Kafka(error)),
        }
    }

    /// The record of a message, with its payload as given.
    pub fn record<P>(message: &MessageView<'_>, payload: P) -> (record: Result<
        Record<KafkaMessage<P>, KafkaPosition>,
        KafkaSourceError,
    >)
        ensures
            record is Ok <==> message.offset < i64::MAX,
            record matches Ok(record) ==> {
                &&& is_position_of(*message, record.at())
                &&& record.value().payload == payload
                &&& is_copy(*message, record.value())
            },
            record matches Err(error) ==> is_exhausted(*message, error),
    {
        match message_position(message) {
            Ok(position) => Ok(Record::new(position, message_with_payload(message, payload))),
            Err(error) => Err(error),
        }
    }

    /// Fold one more position into a cursor: for each partition the largest next offset is kept.
    pub fn track(cursor: Option<KafkaCursor>, position: KafkaPosition) -> (next: KafkaCursor)
        ensures
            next@ == offsets::raised(
                match cursor {
                    Some(cursor) => cursor@,
                    None => Map::empty(),
                },
                position.key(),
                position.next_offset,
            ),
    {
        let mut next = match cursor {
            Some(cursor) => cursor,
            None => PartitionOffsets::new(),
        };
        next.raise(&position.topic, position.partition, position.next_offset);
        next
    }
}

impl<Co> KafkaSource<Co, Raw> {
    /// One item of the source's stream: the record of a message, or what went wrong.
    pub fn on_received(
        &self,
        received: Result<MessageView<'_>, rdkafka::error::KafkaError>,
    ) -> (item: Result<Record<KafkaMessage<Option<Vec<u8>>>, KafkaPosition>, KafkaSourceError>)
        ensures
            match received {
                Ok(message) => {
                    &&& item is Ok <==> message.offset < i64::MAX
                    &&& item matches Ok(record) ==> {
                        &&& is_position_of(message, record.at())
                        &&& owned_bytes(record.value().payload) == field_bytes(message.payload)
                        &&& is_copy(message, record.value())
                    }
                    &&& item matches Err(error) ==> is_exhausted(message, error)
                },
                Err(failure) => item matches Err(KafkaSourceError::Kafka(error)) && error
                    == failure,
            },
    {
        match received {
            Ok(message) => {
                let payload = raw_payload(&message);
                Self::record(&message, payload)
            },
            Err(error) => Err(KafkaSourceError::Kafka(error)),
        }
    }
}

impl<Co, T> KafkaSource<Co, Json<T>> {
    /// One item of the source's stream: the record of a message whose payload `decode` has decoded,
    /// or what went wrong. A payload that cannot be decoded comes before an exhausted offset.
    pub fn on_received<F>(
        &self,
        received: Result<MessageView<'_>, rdkafka::error::KafkaError>,
        decode: F,
    ) -> (item: Result<Record<KafkaMessage<T>, KafkaPosition>, KafkaSourceError>) where
        F: FnOnce(&[u8]) -> Result<T, serde_json::Error>,

        requires
            received matches Ok(message) ==> (message.payload matches Some(bytes)
                ==> call_requires(decode, (bytes,))),
        ensures
            match received {
                Ok(message) => match item {
                    Ok(record) => {
                        &&& message.payload matches Some(bytes) && call_ensures(
                            decode,
                            (bytes,),
                            Ok(record.value().payload),
                        )
                        &&& is_position_of(message, record.at())
                        &&& is_copy(message, record.value())
                    },
                    Err(KafkaSourceError::Json(error)) => message.payload matches Some(bytes)
                        && call_ensures(decode, (bytes,), Err(error)),
                    Err(error) => {
                        ||| message.payload is None && lacks_payload(message, error)
                        ||| {
                            &&& message.offset == i64::MAX
                            &&& is_exhausted(message, error)
                            &&& message.payload matches Some(bytes) && exists|value: T|
                                call_ensures(decode, (bytes,), Ok(value))
                        }
                    },
                },
                Err(failure) => item matches Err(KafkaSourceError::Kafka(error)) && error
                    == failure,
            },
    {
        match received {
            Ok(message) => match json_payload(&message, decode) {
                Ok(payload) => Self::record(&message, payload),
                Err(error) => Err(error),
            },
            Err(error) => Err(KafkaSourceError::Kafka(error)),
        }
    }
}

/// An owned message keeps everything but the payload of the message that it was copied from: where it
/// stood, when it was written, and, byte for byte and in order, its key and its headers.
pub proof fn copies_keep_the_message<P>(message: MessageView<'_>, owned: KafkaMessage<P>)
    requires
        is_copy(message, owned),
    ensures
        owned.topic@ == message.topic@,
        owned.partition == message.partition,
        owned.offset == message.offset,
        owned.timestamp == message.timestamp,
        owned.key is Some <==> message.key is Some,
        message.key matches Some(bytes) ==> owned.key->0@ == bytes@,
        message.headers is None ==> owned.headers@.len() == 0,
        message.headers matches Some(headers) ==> {
            &&& owned.headers@.len() == headers@.len()
            &&& forall|i: int|
                0 <= i < headers@.len() ==> {
                    &&& (#[trigger] owned.headers@[i]).key@ == headers@[i].key@
                    &&& owned.headers@[i].value is Some <==> headers@[i].value is Some
                    &&& headers@[i].value matches Some(bytes) ==> owned.headers@[i].value->0@
                        == bytes@
                }
        },
{
    let contents = owned.headers@.map_values(|header: KafkaHeader| header.content());
    assert(contents == headers_in(message));
    assert(contents.len() == owned.headers@.len());
    if message.headers is Some {
        let headers = message.headers->0;
        assert forall|i: int| 0 <= i < headers@.len() implies {
            &&& (#[trigger] owned.headers@[i]).key@ == headers@[i].key@
            &&& owned.headers@[i].value is Some <==> headers@[i].value is Some
            &&& headers@[i].value matches Some(bytes) ==> owned.headers@[i].value->0@ == bytes@
        } by {
            assert(contents[i] == owned.headers@[i].content());
            assert(headers_in(message)[i] == headers@[i].content());
        }
    }
}

/// The position of a message is the very next offset of its partition, and the positions of a
/// partition's messages are in the order of the messages.
pub proof fn positions_lie_behind_their_message(
    message: MessageView<'_>,
    position: KafkaPosition,
    later: MessageView<'_>,
    later_position: KafkaPosition,
)
    requires
        is_position_of(message, position),
        is_position_of(later, later_position),
    ensures
        position.next_offset - 1 == message.offset,
        position.key() == (message.topic@, message.partition),
        message.offset < later.offset <==> position.next_offset < later_position.next_offset,
        message.offset < later.offset ==> position.next_offset <= later.offset,
{
}

/// A source is built only where there is something to subscribe to, and only around a consumer that
/// was created for the very topics and with the caller's settings, but for automatic commits and
/// offset storage, which are off.
pub proof fn sources_are_built_with_manual_offsets<Co, D, F>(
    config: rdkafka::config::ClientConfig,
    topics: &[&str],
    connect: F,
    built: Result<KafkaSource<Co, D>, KafkaSourceError>,
) where
    F: FnOnce(rdkafka::config::ClientConfig, &[&str]) -> Result<Co, rdkafka::error::KafkaError>,

    requires
        is_built(config, topics, connect, built),
    ensures
        topics@.len() == 0 <==> built matches Err(KafkaSourceError::NoTopics),
        built is Err ==> built->Err_0 is NoTopics || built->Err_0 is Kafka,
        topics@.len() > 0 ==> exists|
            handed: rdkafka::config::ClientConfig,
            connected: Result<Co, rdkafka::error::KafkaError>,
        |
            {
                let (given, kept) = (client::settings_of(config), client::settings_of(handed));
                &&& #[trigger] call_ensures(connect, (handed, topics), connected)
                &&& connected is Ok <==> built is Ok
                &&& built matches Ok(source) ==> *source.consumer == connected->Ok_0
                &&& kept.dom().contains("enable.auto.commit"@) && kept["enable.auto.commit"@]
                    == "false"@
                &&& kept.dom().contains("enable.auto.offset.store"@)
                    && kept["enable.auto.offset.store"@] == "false"@
                &&& forall|name: Seq<char>|
                    name != "enable.auto.commit"@ && name != "enable.auto.offset.store"@ ==> {
                        &&& (#[trigger] kept.dom().contains(name)) <==> given.dom().contains(name)
                        &&& given.dom().contains(name) ==> kept[name] == given[name]
                    }
            },
{
    if topics@.len() > 0 {
        let (handed, connected) = choose|
            handed: rdkafka::config::ClientConfig,
            connected: Result<Co, rdkafka::error::KafkaError>,
        |
            {
                &&& client::settings_of(handed) == source::manual(client::settings_of(config))
                &&& #[trigger] call_ensures(connect, (handed, topics), connected)
                &&& match connected {
                    Ok(consumer) => built matches Ok(source) && *source.consumer == consumer,
                    Err(error) => built matches Err(KafkaSourceError::Kafka(e)) && e == error,
                }
            };
        let (given, kept) = (client::settings_of(config), client::settings_of(handed));
        assert forall|name: Seq<char>|
            name != "enable.auto.commit"@ && name != "enable.auto.offset.store"@ implies {
            &&& (#[trigger] kept.dom().contains(name)) <==> given.dom().contains(name)
            &&& given.dom().contains(name) ==> kept[name] == given[name]
        } by {
            source::only_offset_management_is_forced(given, name);
        }
        source::only_offset_management_is_forced(given, "enable.auto.commit"@);
        source::only_offset_management_is_forced(given, "enable.auto.offset.store"@);
        assert(call_ensures(connect, (handed, topics), connected));
    }
}

} // verus!
