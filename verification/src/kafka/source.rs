//! A source with inline key and payload deserialization.
use crate::checkpoint;
use crate::checkpoint::Checkpoint;
use crate::kafka::client;
use crate::kafka::client::set_parameter;
use crate::kafka::listing;
use crate::kafka::listing::{list_partitions, Unlisted};
use crate::kafka::received;
use crate::kafka::received::{copy_headers, KafkaTimestamp, MessageView};
use crate::kafka::offsets;
use crate::kafka::offsets::PartitionOffsets;
use crate::record::Record;
use crate::source::Source;
use crate::text;
use crate::text::push_signed_decimal;
use std::convert::Infallible;
use std::marker::PhantomData;
use std::sync::Arc;
use vstd::prelude::*;

verus! {

/// Decoded Kafka contents with owned values and per-field decode outcomes.
///
/// Deserialization failures are emitted as records instead of terminating the source stream. A
/// downstream stage can inspect them and decide whether accepting the record should advance its
/// Kafka offset. Topic, partition, and raw consumed offset live in the enclosing [`Record`]'s
/// [`KafkaPosition`]; this type holds the message contents and other broker metadata.
#[derive(Debug, Clone)]
pub struct KafkaRecord<K, P, KeyError = Infallible, PayloadError = Infallible> {
    /// `None` when no key was present; otherwise the key's deserialization outcome.
    pub key: Option<Result<K, KeyError>>,
    /// `None` for a tombstone; otherwise the payload's deserialization outcome.
    pub payload: Option<Result<P, PayloadError>>,
    pub timestamp: KafkaTimestamp,
    pub headers: Option<rdkafka::message::OwnedHeaders>,
}

/// Synchronously converts borrowed Kafka bytes into an owned value.
///
/// Both successful values and errors are carried in [`KafkaRecord`] for downstream handling. Unless
/// an implementation says otherwise, any bytes are accepted, and any outcome is possible.
pub trait KafkaDeserializer {
    type Output;

    type Error;

    /// Whether the deserializer may be handed these bytes.
    open spec fn accepts(&self, bytes: Seq<u8>) -> bool {
        true
    }

    /// Whether these bytes may have this outcome.
    open spec fn decodes(
        &self,
        bytes: Seq<u8>,
        outcome: Result<Self::Output, Self::Error>,
    ) -> bool {
        true
    }

    fn deserialize(&self, bytes: &[u8]) -> (outcome: Result<Self::Output, Self::Error>)
        requires
            self.accepts(bytes@),
        ensures
            self.decodes(bytes@, outcome),
    ;
}

/// Default key policy: preserve key presence but discard its bytes.
#[derive(Debug, Default, Clone, Copy)]
pub struct NoKeyDeserializer;

impl KafkaDeserializer for NoKeyDeserializer {
    type Output = ();

    type Error = Infallible;

    open spec fn accepts(&self, bytes: Seq<u8>) -> bool {
        true
    }

    open spec fn decodes(&self, bytes: Seq<u8>, outcome: Result<(), Infallible>) -> bool {
        outcome == Ok::<(), Infallible>(())
    }

    fn deserialize(&self, _bytes: &[u8]) -> (outcome: Result<(), Infallible>) {
        Ok(())
    }
}

/// Adapter used by the builder for a deserializer function or closure.
pub struct FnDeserializer<F, T, E> {
    pub function: F,
    pub output: PhantomData<Result<T, E>>,
}

impl<F, T, E> KafkaDeserializer for FnDeserializer<F, T, E> where F: Fn(&[u8]) -> Result<T, E> {
    type Output = T;

    type Error = E;

    open spec fn accepts(&self, bytes: Seq<u8>) -> bool {
        forall|slice: &[u8]| #![trigger slice@]
            slice@ == bytes ==> call_requires(self.function, (slice,))
    }

    open spec fn decodes(&self, bytes: Seq<u8>, outcome: Result<T, E>) -> bool {
        exists|slice: &[u8]|
            slice@ == bytes && #[trigger] call_ensures(self.function, (slice,), outcome)
    }

    fn deserialize(&self, bytes: &[u8]) -> (outcome: Result<T, E>) {
        (self.function)(bytes)
    }
}

/// Last delivered offsets keyed by topic and partition.
///
/// The source folds the message-local positions in each batch into this map, which translates
/// into Kafka's next-offset convention when the batch is committed.
pub type KafkaCheckpoint = PartitionOffsets;

/// The broker position of one consumed message.
#[derive(Debug, PartialEq, Eq)]
pub struct KafkaPosition {
    pub topic: String,
    pub partition: i32,
    pub offset: i64,
}

impl Clone for KafkaPosition {
    fn clone(&self) -> (copy: Self)
        ensures
            copy == *self,
    {
        KafkaPosition {
            topic: self.topic.clone(),
            partition: self.partition,
            offset: self.offset,
        }
    }
}

impl KafkaPosition {
    /// The topic and partition.
    pub open spec fn key(self) -> offsets::PartitionKey {
        (self.topic@, self.partition)
    }
}

/// Kafka source construction, consumption, or commit failure.
#[derive(Debug)]
pub enum KafkaSourceError<CommitError = BrokerCommitterError> {
    /// There is no topic to subscribe to.
    NoTopics,
    Kafka(rdkafka::error::KafkaError),
    Commit(CommitError),
}

impl<CommitError> KafkaSourceError<CommitError> {
    /// The failure in words.
    pub fn message(&self) -> (text: &'static str)
        ensures
            text@ == (match *self {
                KafkaSourceError::NoTopics => "at least one Kafka topic is required"@,
                KafkaSourceError::Kafka(_) => "Kafka operation failed"@,
                KafkaSourceError::Commit(_) => "Kafka checkpoint commit failed"@,
            }),
    {
        match self {
            KafkaSourceError::NoTopics => "at least one Kafka topic is required",
            KafkaSourceError::Kafka(_) => "Kafka operation failed",
            KafkaSourceError::Commit(_) => "Kafka checkpoint commit failed",
        }
    }
}

/// Failure while synchronously committing a checkpoint to Kafka consumer-group offsets.
#[derive(Debug)]
pub enum BrokerCommitterError {
    Task(tokio::task::JoinError),
    Kafka(rdkafka::error::KafkaError),
    OffsetExhausted { topic: String, partition: i32, offset: i64 },
}

/// That an offset cannot be advanced, in words.
pub open spec fn exhausted_words(topic: Seq<char>, partition: i32, offset: i64) -> Seq<char> {
    "Kafka offset at "@ + topic + "["@ + text::signed_decimal(partition as int)
        + "] cannot be advanced beyond "@ + text::signed_decimal(offset as int)
}

/// That an offset cannot be advanced, in words.
pub fn exhausted_message(topic: &String, partition: i32, offset: i64) -> (text: String)
    ensures
        text@ == exhausted_words(topic@, partition, offset),
        text@ == "Kafka offset at "@ + topic@ + "["@ + text::signed_decimal(partition as int)
            + "] cannot be advanced beyond "@ + text::signed_decimal(offset as int),
{
    let mut text = "Kafka offset at ".to_owned();
    text.append(topic.as_str());
    text.append("[");
    push_signed_decimal(&mut text, partition as i64);
    text.append("] cannot be advanced beyond ");
    push_signed_decimal(&mut text, offset);
    text
}

impl BrokerCommitterError {
    /// The failure in words.
    pub fn message(&self) -> (text: String)
        ensures
            text@ == (match *self {
                BrokerCommitterError::Task(_) => "Kafka commit task failed"@,
                BrokerCommitterError::Kafka(_) => "Kafka commit failed"@,
                BrokerCommitterError::OffsetExhausted { topic, partition, offset } => {
                    exhausted_words(topic@, partition, offset)
                },
            }),
    {
        match self {
            BrokerCommitterError::Task(_) => "Kafka commit task failed".to_owned(),
            BrokerCommitterError::Kafka(_) => "Kafka commit failed".to_owned(),
            BrokerCommitterError::OffsetExhausted { topic, partition, offset } => {
                exhausted_message(topic, *partition, *offset)
            },
        }
    }
}

/// The broker position of a message.
pub fn message_position(message: &MessageView<'_>) -> (position: KafkaPosition)
    ensures
        position.topic@ == message.topic@,
        position.partition == message.partition,
        position.offset == message.offset,
{
    KafkaPosition {
        topic: message.topic.to_owned(),
        partition: message.partition,
        offset: message.offset,
    }
}

/// Fold one more position into a checkpoint: for each partition the largest offset is kept.
pub fn track_checkpoint(
    checkpoint: Option<KafkaCheckpoint>,
    position: &KafkaPosition,
) -> (next: KafkaCheckpoint)
    ensures
        next@ == offsets::raised(
            match checkpoint {
                Some(checkpoint) => checkpoint@,
                None => Map::empty(),
            },
            position.key(),
            position.offset,
        ),
{
    let mut next = match checkpoint {
        Some(checkpoint) => checkpoint,
        None => PartitionOffsets::new(),
    };
    next.raise(&position.topic, position.partition, position.offset);
    next
}

impl Checkpoint<KafkaPosition> for PartitionOffsets {
    type Content = Map<offsets::PartitionKey, i64>;

    open spec fn content(&self) -> Map<offsets::PartitionKey, i64> {
        self@
    }

    open spec fn starting(first_position: KafkaPosition) -> Map<offsets::PartitionKey, i64> {
        Map::empty().insert(first_position.key(), first_position.offset)
    }

    open spec fn including(
        content: Map<offsets::PartitionKey, i64>,
        position: KafkaPosition,
    ) -> Map<offsets::PartitionKey, i64> {
        offsets::raised(content, position.key(), position.offset)
    }

    fn start_epoch(first_position: &KafkaPosition) -> (epoch: Self) {
        track_checkpoint(None, first_position)
    }

    fn include_position(&mut self, position: &KafkaPosition) {
        self.raise(&position.topic, position.partition, position.offset);
    }
}

/// Closing a Kafka checkpoint leaves its offsets as they are, and the next one starts from the
/// boundary position alone.
pub proof fn kafka_epochs_are_independent()
    ensures
        checkpoint::epochs_are_independent::<KafkaPosition, PartitionOffsets>(),
{
}

/// A checkpoint folded out of a run of positions holds, for every partition that occurs among them
/// and for no other, the largest offset at which it occurs.
pub proof fn checkpoints_keep_the_largest_offsets(positions: Seq<KafkaPosition>)
    requires
        positions.len() > 0,
    ensures
        ({
            let folded = checkpoint::epoch_of::<KafkaPosition, PartitionOffsets>(positions);
            &&& forall|i: int|
                0 <= i < positions.len() ==> {
                    &&& folded.dom().contains((#[trigger] positions[i]).key())
                    &&& positions[i].offset <= folded[positions[i].key()]
                }
            &&& forall|key: offsets::PartitionKey| #[trigger]
                folded.dom().contains(key) ==> exists|i: int|
                    0 <= i < positions.len() && (#[trigger] positions[i]).key() == key
                        && positions[i].offset == folded[key]
        }),
    decreases positions.len(),
{
    let folded = checkpoint::epoch_of::<KafkaPosition, PartitionOffsets>(positions);
    if positions.len() == 1 {
        assert forall|key: offsets::PartitionKey| #[trigger]
            folded.dom().contains(key) implies exists|i: int|
            0 <= i < positions.len() && (#[trigger] positions[i]).key() == key
                && positions[i].offset == folded[key] by {
            assert(positions[0].key() == key);
        }
    } else {
        let before = positions.drop_last();
        let last = positions.last();
        checkpoints_keep_the_largest_offsets(before);
        let earlier = checkpoint::epoch_of::<KafkaPosition, PartitionOffsets>(before);
        assert(folded == offsets::raised(earlier, last.key(), last.offset));
        assert forall|i: int| 0 <= i < positions.len() implies {
            &&& folded.dom().contains((#[trigger] positions[i]).key())
            &&& positions[i].offset <= folded[positions[i].key()]
        } by {
            if i < before.len() {
                assert(before[i] == positions[i]);
            }
        }
        assert forall|key: offsets::PartitionKey| #[trigger]
            folded.dom().contains(key) implies exists|i: int|
            0 <= i < positions.len() && (#[trigger] positions[i]).key() == key
                && positions[i].offset == folded[key] by {
            if earlier.dom().contains(key) && folded[key] == earlier[key] {
                let i = choose|i: int|
                    0 <= i < before.len() && (#[trigger] before[i]).key() == key
                        && before[i].offset == earlier[key];
                assert(positions[i] == before[i]);
            } else {
                assert(positions[positions.len() - 1].key() == key);
            }
        }
    }
}

/// Commits successfully delivered Kafka checkpoints.
///
/// The commit itself is asynchronous and belongs to the runtime side of a committer.
pub trait KafkaCommitter {
    type Error;
}

/// Commits checkpoints to Kafka consumer-group offsets.
#[derive(Debug, Default, Clone, Copy)]
pub struct BrokerCommitter;

impl KafkaCommitter for BrokerCommitter {
    type Error = BrokerCommitterError;
}

impl BrokerCommitter {
    /// What the broker is told: for every partition the offset after the last delivered one.
    pub fn next_offsets(self, checkpoint: &KafkaCheckpoint) -> (list: Result<
        rdkafka::topic_partition_list::TopicPartitionList,
        BrokerCommitterError,
    >)
        requires
            listing::are_listable(checkpoint@),
        ensures
            list is Ok <==> listing::can_advance(checkpoint@, 1),
            list matches Ok(list) ==> listing::lists(client::partitions_of(list), checkpoint@, 1),
            list matches Err(error) ==> match error {
                BrokerCommitterError::OffsetExhausted { topic, partition, offset } => {
                    &&& offset == i64::MAX
                    &&& checkpoint@.dom().contains((topic@, partition))
                    &&& checkpoint@[(topic@, partition)] == offset
                },
                BrokerCommitterError::Kafka(_) => exists|key: offsets::PartitionKey| #[trigger]
                    checkpoint@.dom().contains(key) && checkpoint@[key] < -1,
                BrokerCommitterError::Task(_) => false,
            },
    {
        match list_partitions(checkpoint, 1) {
            Ok(list) => Ok(list),
            Err(Unlisted::Exhausted { topic, partition, offset }) => Err(
                BrokerCommitterError::OffsetExhausted { topic, partition, offset },
            ),
            Err(Unlisted::Refused(error)) => Err(BrokerCommitterError::Kafka(error)),
        }
    }

    /// The outcome of a commit that ran as a task of its own.
    pub fn on_joined(
        self,
        joined: Result<Result<(), BrokerCommitterError>, tokio::task::JoinError>,
    ) -> (outcome: Result<(), BrokerCommitterError>)
        ensures
            outcome == (match joined {
                Ok(outcome) => outcome,
                Err(error) => Err(BrokerCommitterError::Task(error)),
            }),
    {
        match joined {
            Ok(outcome) => outcome,
            Err(error) => Err(BrokerCommitterError::Task(error)),
        }
    }
}

/// Disables Kafka consumer-group offset commits.
#[derive(Debug, Default, Clone, Copy)]
pub struct NoCommitter;

impl KafkaCommitter for NoCommitter {
    type Error = Infallible;
}

impl NoCommitter {
    /// Every checkpoint is accepted, and none is committed.
    pub fn commit(self, _checkpoint: KafkaCheckpoint) -> (outcome: Result<(), Infallible>)
        ensures
            outcome == Ok::<(), Infallible>(()),
    {
        Ok(())
    }
}

/// Type-state marker for a deserializer that has not been configured.
#[derive(Debug, Default, Clone, Copy)]
pub struct MissingDeserializer;

/// Builds a typed Kafka source from an externally managed consumer.
pub struct KafkaSourceBuilder<
    Co,
    Kd = NoKeyDeserializer,
    Pd = MissingDeserializer,
    Cm = BrokerCommitter,
> {
    pub consumer: Arc<Co>,
    pub key_deserializer: Kd,
    pub payload_deserializer: Pd,
    pub committer: Cm,
}

impl<Co, Kd, Pd, Cm> KafkaSourceBuilder<Co, Kd, Pd, Cm> {
    /// Decode keys with a function.
    pub fn key_deserializer<F, T, E>(self, deserializer: F) -> (builder: KafkaSourceBuilder<
        Co,
        FnDeserializer<F, T, E>,
        Pd,
        Cm,
    >) where F: Fn(&[u8]) -> Result<T, E>
        ensures
            builder.consumer == self.consumer,
            builder.key_deserializer.function == deserializer,
            builder.payload_deserializer == self.payload_deserializer,
            builder.committer == self.committer,
    {
        KafkaSourceBuilder {
            consumer: self.consumer,
            key_deserializer: FnDeserializer { function: deserializer, output: PhantomData },
            payload_deserializer: self.payload_deserializer,
            committer: self.committer,
        }
    }

    /// Decode payloads with a function.
    pub fn payload_deserializer<F, T, E>(self, deserializer: F) -> (builder: KafkaSourceBuilder<
        Co,
        Kd,
        FnDeserializer<F, T, E>,
        Cm,
    >) where F: Fn(&[u8]) -> Result<T, E>
        ensures
            builder.consumer == self.consumer,
            builder.key_deserializer == self.key_deserializer,
            builder.payload_deserializer.function == deserializer,
            builder.committer == self.committer,
    {
        KafkaSourceBuilder {
            consumer: self.consumer,
            key_deserializer: self.key_deserializer,
            payload_deserializer: FnDeserializer { function: deserializer, output: PhantomData },
            committer: self.committer,
        }
    }

    /// Commit through another committer.
    pub fn committer<Next>(self, committer: Next) -> (builder: KafkaSourceBuilder<
        Co,
        Kd,
        Pd,
        Next,
    >)
        ensures
            builder.consumer == self.consumer,
            builder.key_deserializer == self.key_deserializer,
            builder.payload_deserializer == self.payload_deserializer,
            builder.committer == committer,
    {
        KafkaSourceBuilder {
            consumer: self.consumer,
            key_deserializer: self.key_deserializer,
            payload_deserializer: self.payload_deserializer,
            committer,
        }
    }
}

impl<Co, Kd, Pd, Cm> KafkaSourceBuilder<Co, Kd, Pd, Cm> where
    Kd: KafkaDeserializer,
    Pd: KafkaDeserializer,
    Cm: KafkaCommitter,
 {
    /// The finished source.
    pub fn build(self) -> (source: KafkaSource<Co, Kd, Pd, Cm>)
        ensures
            source.consumer == self.consumer,
            source.key_deserializer == self.key_deserializer,
            source.payload_deserializer == self.payload_deserializer,
            source.committer == self.committer,
    {
        KafkaSource {
            consumer: self.consumer,
            key_deserializer: self.key_deserializer,
            payload_deserializer: self.payload_deserializer,
            committer: self.committer,
        }
    }
}

/// A Kafka-compatible source with inline key and payload deserialization.
pub struct KafkaSource<Co, Kd, Pd, Cm = BrokerCommitter> {
    pub consumer: Arc<Co>,
    pub key_deserializer: Kd,
    pub payload_deserializer: Pd,
    pub committer: Cm,
}

/// Settings with automatic commits and automatic offset storage disabled.
pub open spec fn manual(settings: Map<Seq<char>, Seq<char>>) -> Map<Seq<char>, Seq<char>> {
    settings.insert("enable.auto.commit"@, "false"@).insert(
        "enable.auto.offset.store"@,
        "false"@,
    )
}

/// Check a subscription and disable automatic commits and automatic offset storage, so that offsets
/// are advanced only through a committer after successful delivery.
pub fn configure(config: &mut rdkafka::config::ClientConfig, topics: &[&str]) -> (subscribed: bool)
    ensures
        subscribed == (topics@.len() > 0),
        client::settings_of(*final(config)) == (if topics@.len() > 0 {
            manual(client::settings_of(*old(config)))
        } else {
            client::settings_of(*old(config))
        }),
        forall|name: Seq<char>|
            #![trigger client::settings_of(*final(config)).dom().contains(name)]
            #![trigger client::settings_of(*final(config))[name]]
            name != "enable.auto.commit"@ && name != "enable.auto.offset.store"@ ==> {
                &&& client::settings_of(*final(config)).dom().contains(name)
                    == client::settings_of(*old(config)).dom().contains(name)
                &&& client::settings_of(*old(config)).dom().contains(name)
                    ==> client::settings_of(*final(config))[name] == client::settings_of(
                    *old(config),
                )[name]
            },
{
    if topics.len() == 0 {
        return false;
    }
    set_parameter(config, "enable.auto.commit", "false");
    set_parameter(config, "enable.auto.offset.store", "false");
    true
}

impl<Co> KafkaSource<Co, NoKeyDeserializer, MissingDeserializer> {
    /// Builds a Kafka source around an existing consumer.
    ///
    /// Unlike [`KafkaSource::from_config`], this constructor does not modify the consumer
    /// configuration or subscribe it to any topics. The caller is responsible for configuring
    /// safe offset management before creating the consumer, subscribing it before the source is
    /// polled, and managing any subsequent subscription changes.
    pub fn from_consumer(consumer: Arc<Co>) -> (builder: KafkaSourceBuilder<
        Co,
        NoKeyDeserializer,
        MissingDeserializer,
    >)
        ensures
            builder.consumer == consumer,
    {
        KafkaSourceBuilder {
            consumer,
            key_deserializer: NoKeyDeserializer,
            payload_deserializer: MissingDeserializer,
            committer: BrokerCommitter,
        }
    }

    /// Safely configures a consumer and has `connect` create it and subscribe it.
    ///
    /// This forces `enable.auto.commit=false` and `enable.auto.offset.store=false`, ensuring that
    /// offsets are advanced only through the source's committer after successful delivery. Without
    /// topics nothing is created.
    pub fn from_config<F>(
        config: rdkafka::config::ClientConfig,
        topics: &[&str],
        connect: F,
    ) -> (builder: Result<
        KafkaSourceBuilder<Co, NoKeyDeserializer, MissingDeserializer>,
        KafkaSourceError,
    >) where
        F: FnOnce(rdkafka::config::ClientConfig, &[&str]) -> Result<
            Co,
            rdkafka::error::KafkaError,
        >,

        requires
            forall|manual_config: rdkafka::config::ClientConfig| #[trigger]
                call_requires(connect, (manual_config, topics)),
        ensures
            builder matches Err(KafkaSourceError::NoTopics) <==> topics@.len() == 0,
            builder !is Err || builder->Err_0 !is Commit,
            topics@.len() > 0 ==> exists|
                manual_config: rdkafka::config::ClientConfig,
                connected: Result<Co, rdkafka::error::KafkaError>,
            |
                {
                    &&& client::settings_of(manual_config) == manual(client::settings_of(config))
                    &&& #[trigger] call_ensures(connect, (manual_config, topics), connected)
                    &&& match connected {
                        Ok(consumer) => builder matches Ok(builder) && *builder.consumer == consumer,
                        Err(error) => builder matches Err(KafkaSourceError::Kafka(e)) && e == error,
                    }
                },
    {
        let mut config = config;
        if !configure(&mut config, topics) {
            return Err(KafkaSourceError::NoTopics);
        }
        match connect(config, topics) {
            Ok(consumer) => Ok(Self::from_consumer(Arc::new(consumer))),
            Err(error) => Err(KafkaSourceError::Kafka(error)),
        }
    }
}

/// Whether a field of a message may have been decoded to this.
pub open spec fn field_decodes<D: KafkaDeserializer>(
    deserializer: D,
    bytes: Option<&[u8]>,
    decoded: Option<Result<D::Output, D::Error>>,
) -> bool {
    match bytes {
        Some(bytes) => decoded is Some && deserializer.decodes(bytes@, decoded->0),
        None => decoded is None,
    }
}

/// Decode a field of a message, if it is present.
fn decode_field<D: KafkaDeserializer>(deserializer: &D, bytes: Option<&[u8]>) -> (decoded: Option<
    Result<D::Output, D::Error>,
>)
    requires
        bytes matches Some(bytes) ==> deserializer.accepts(bytes@),
    ensures
        field_decodes(*deserializer, bytes, decoded),
{
    match bytes {
        Some(bytes) => Some(deserializer.deserialize(bytes)),
        None => None,
    }
}

impl<Co, Kd, Pd, Cm> KafkaSource<Co, Kd, Pd, Cm> where
    Kd: KafkaDeserializer,
    Pd: KafkaDeserializer,
    Cm: KafkaCommitter,
 {
    /// Whether the source can take a message: both deserializers accept it, and its headers can be
    /// copied.
    pub open spec fn takes(self, message: MessageView<'_>) -> bool {
        &&& message.key matches Some(bytes) ==> self.key_deserializer.accepts(bytes@)
        &&& message.payload matches Some(bytes) ==> self.payload_deserializer.accepts(bytes@)
        &&& message.headers matches Some(headers) ==> received::are_copyable(headers@)
    }

    /// Whether a record is what a message may become.
    pub open spec fn becomes(
        self,
        message: MessageView<'_>,
        record: Record<KafkaRecord<Kd::Output, Pd::Output, Kd::Error, Pd::Error>, KafkaPosition>,
    ) -> bool {
        &&& record.at().topic@ == message.topic@
        &&& record.at().partition == message.partition
        &&& record.at().offset == message.offset
        &&& field_decodes(self.key_deserializer, message.key, record.value().key)
        &&& field_decodes(self.payload_deserializer, message.payload, record.value().payload)
        &&& record.value().timestamp == message.timestamp
        &&& match message.headers {
            Some(headers) => {
                &&& record.value().headers is Some
                &&& client::headers_of(record.value().headers->0) == received::header_contents(
                    headers@,
                )
            },
            None => record.value().headers is None,
        }
    }

    /// The record that a message becomes.
    pub fn record_from_message(&self, message: &MessageView<'_>) -> (record: Record<
        KafkaRecord<Kd::Output, Pd::Output, Kd::Error, Pd::Error>,
        KafkaPosition,
    >)
        requires
            self.takes(*message),
        ensures
            self.becomes(*message, record),
    {
        let position = message_position(message);
        let record = KafkaRecord {
            key: decode_field(&self.key_deserializer, message.key),
            payload: decode_field(&self.payload_deserializer, message.payload),
            timestamp: message.timestamp,
            headers: match &message.headers {
                Some(headers) => Some(copy_headers(headers)),
                None => None,
            },
        };
        Record::new(position, record)
    }

    /// One item of the source's stream: the record of a message, or the failure to receive one.
    pub fn on_received(
        &self,
        received: Result<MessageView<'_>, rdkafka::error::KafkaError>,
    ) -> (item: Result<
        Record<KafkaRecord<Kd::Output, Pd::Output, Kd::Error, Pd::Error>, KafkaPosition>,
        KafkaSourceError<Cm::Error>,
    >)
        requires
            received matches Ok(message) ==> self.takes(message),
        ensures
            match received {
                Ok(message) => item is Ok && self.becomes(message, item->Ok_0),
                Err(error) => item == Err::<
                    Record<
                        KafkaRecord<Kd::Output, Pd::Output, Kd::Error, Pd::Error>,
                        KafkaPosition,
                    >,
                    KafkaSourceError<Cm::Error>,
                >(KafkaSourceError::Kafka(error)),
            },
    {
        match received {
            Ok(message) => Ok(self.record_from_message(&message)),
            Err(error) => Err(KafkaSourceError::Kafka(error)),
        }
    }

    /// The outcome of a commit: a failure keeps its typed cause.
    pub fn on_commit(&self, outcome: Result<(), Cm::Error>) -> (committed: Result<
        (),
        KafkaSourceError<Cm::Error>,
    >)
        ensures
            committed == (match outcome {
                Ok(_) => Ok(()),
                Err(error) => Err(KafkaSourceError::<Cm::Error>::Commit(error)),
            }),
    {
        match outcome {
            Ok(_) => Ok(()),
            Err(error) => Err(KafkaSourceError::Commit(error)),
        }
    }
}

impl<Co, Kd, Pd, Cm> Source for KafkaSource<Co, Kd, Pd, Cm> where
    Kd: KafkaDeserializer,
    Pd: KafkaDeserializer,
    Cm: KafkaCommitter,
 {
    type Payload = KafkaRecord<Kd::Output, Pd::Output, Kd::Error, Pd::Error>;

    type Position = KafkaPosition;

    type Checkpoint = KafkaCheckpoint;

    type Error = KafkaSourceError<Cm::Error>;
}

/// A configuration that disables automatic offset management keeps every other setting: it has a
/// setting exactly where the caller's configuration has it, and with the caller's value. The two
/// settings that it forces are there, whatever the caller had, and are off.
pub proof fn only_offset_management_is_forced(
    settings: Map<Seq<char>, Seq<char>>,
    name: Seq<char>,
)
    ensures
        name != "enable.auto.commit"@ && name != "enable.auto.offset.store"@ ==> {
            &&& manual(settings).dom().contains(name) <==> settings.dom().contains(name)
            &&& settings.dom().contains(name) ==> manual(settings)[name] == settings[name]
        },
        name == "enable.auto.commit"@ || name == "enable.auto.offset.store"@ ==> {
            &&& manual(settings).dom().contains(name)
            &&& manual(settings)[name] == "false"@
        },
{
}

/// A record stands at the position of its message, has a key, a payload and headers exactly where the
/// message has them, and keeps the message's timestamp and its headers, in order. Its key and its
/// payload are what the deserializers may make of the message's own.
pub proof fn records_tell_their_message<Co, Kd, Pd, Cm>(
    source: KafkaSource<Co, Kd, Pd, Cm>,
    message: MessageView<'_>,
    record: Record<KafkaRecord<Kd::Output, Pd::Output, Kd::Error, Pd::Error>, KafkaPosition>,
) where Kd: KafkaDeserializer, Pd: KafkaDeserializer, Cm: KafkaCommitter
    requires
        source.becomes(message, record),
    ensures
        record.at().topic@ == message.topic@,
        record.at().partition == message.partition,
        record.at().offset == message.offset,
        record.value().timestamp == message.timestamp,
        record.value().key is Some <==> message.key is Some,
        message.key matches Some(bytes) ==> source.key_deserializer.decodes(
            bytes@,
            record.value().key->0,
        ),
        record.value().payload is Some <==> message.payload is Some,
        message.payload matches Some(bytes) ==> source.payload_deserializer.decodes(
            bytes@,
            record.value().payload->0,
        ),
        record.value().headers is Some <==> message.headers is Some,
        message.headers matches Some(headers) ==> {
            let kept = client::headers_of(record.value().headers->0);
            &&& kept.len() == headers@.len()
            &&& forall|i: int|
                0 <= i < kept.len() ==> {
                    &&& (#[trigger] kept[i]).0 == headers@[i].key@
                    &&& kept[i].1 is Some <==> headers@[i].value is Some
                    &&& headers@[i].value matches Some(bytes) ==> kept[i].1->0 == bytes@
                }
        },
{
}

} // verus!
