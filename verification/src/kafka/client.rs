//! The Kafka client's own collections, by what they hold.
use vstd::prelude::*;

verus! {

/// A failure reported by the client, `rdkafka::error::KafkaError`.
#[verifier::external_type_specification]
#[verifier::external_body]
pub struct ExKafkaError(rdkafka::error::KafkaError);

/// Client settings by name, `rdkafka::config::ClientConfig`.
#[verifier::external_type_specification]
#[verifier::external_body]
pub struct ExClientConfig(rdkafka::config::ClientConfig);

/// Headers of one message, in order, `rdkafka::message::OwnedHeaders`.
#[verifier::external_type_specification]
#[verifier::external_body]
pub struct ExOwnedHeaders(rdkafka::message::OwnedHeaders);

/// Partitions with their offsets, in order, `rdkafka::topic_partition_list::TopicPartitionList`.
#[verifier::external_type_specification]
#[verifier::external_body]
pub struct ExTopicPartitionList(rdkafka::topic_partition_list::TopicPartitionList);

/// The longest list that is kept in the client.
///
/// The client counts list elements, and the room that it sets aside for more of them, in a C `int`,
/// and makes room for up to twice as many more at a time.
pub const MAX_LISTED: usize = 268_435_456;

/// The settings that a configuration holds.
pub uninterp spec fn settings_of(config: rdkafka::config::ClientConfig) -> Map<
    Seq<char>,
    Seq<char>,
>;

/// Set a parameter, by `ClientConfig::set`: an existing value for the key is overridden, and no
/// other setting changes.
#[verifier::external_body]
pub(crate) fn set_parameter(config: &mut rdkafka::config::ClientConfig, key: &str, value: &str)
    ensures
        settings_of(*final(config)) == settings_of(*old(config)).insert(key@, value@),
{
    config.set(key, value);
}

/// The headers that a header list holds: each with its key and its value, if it has one.
pub uninterp spec fn headers_of(headers: rdkafka::message::OwnedHeaders) -> Seq<
    (Seq<char>, Option<Seq<u8>>),
>;

/// No headers, by `OwnedHeaders::new_with_capacity`.
#[verifier::external_body]
pub(crate) fn new_headers(capacity: usize) -> (headers: rdkafka::message::OwnedHeaders)
    requires
        capacity <= MAX_LISTED,
    ensures
        headers_of(headers) == Seq::<(Seq<char>, Option<Seq<u8>>)>::empty(),
{
    rdkafka::message::OwnedHeaders::new_with_capacity(capacity)
}

/// The same headers with one more behind them, by `OwnedHeaders::insert`.
///
/// The key is kept as a C string, so it must not hold the character zero.
#[verifier::external_body]
pub(crate) fn push_header(
    headers: rdkafka::message::OwnedHeaders,
    key: &str,
    value: Option<&[u8]>,
) -> (longer: rdkafka::message::OwnedHeaders)
    requires
        !key@.contains('\0'),
        headers_of(headers).len() < MAX_LISTED,
    ensures
        headers_of(longer) == headers_of(headers).push(
            (
                key@,
                match value {
                    Some(bytes) => Some(bytes@),
                    None => None,
                },
            ),
        ),
{
    headers.insert(rdkafka::message::Header { key, value })
}

/// The partitions that a list holds: each with its topic, its number and its offset.
pub uninterp spec fn partitions_of(
    list: rdkafka::topic_partition_list::TopicPartitionList,
) -> Seq<(Seq<char>, i32, i64)>;

/// No partitions, by `TopicPartitionList::with_capacity`.
#[verifier::external_body]
pub(crate) fn new_partitions(capacity: usize) -> (list:
    rdkafka::topic_partition_list::TopicPartitionList)
    requires
        capacity <= MAX_LISTED,
    ensures
        partitions_of(list) == Seq::<(Seq<char>, i32, i64)>::empty(),
{
    rdkafka::topic_partition_list::TopicPartitionList::with_capacity(capacity)
}

/// Whether a list holds a partition already.
pub open spec fn holds_partition(
    partitions: Seq<(Seq<char>, i32, i64)>,
    topic: Seq<char>,
    partition: i32,
) -> bool {
    exists|i: int|
        0 <= i < partitions.len() && (#[trigger] partitions[i]).0 == topic && partitions[i].1
            == partition
}

/// Put a partition behind the others, by `TopicPartitionList::add_partition_offset` with
/// `Offset::Offset`.
///
/// The client takes the topic as a C string, so it must not hold the character zero. It sets the
/// offset on the first entry of the list that has the topic and the partition, so there must be none
/// before. A negative offset is refused; what the list then holds is left unsaid.
#[verifier::external_body]
pub(crate) fn push_partition(
    list: &mut rdkafka::topic_partition_list::TopicPartitionList,
    topic: &str,
    partition: i32,
    offset: i64,
) -> (added: Result<(), rdkafka::error::KafkaError>)
    requires
        !topic@.contains('\0'),
        partitions_of(*old(list)).len() < MAX_LISTED,
        !holds_partition(partitions_of(*old(list)), topic@, partition),
    ensures
        added is Ok <==> offset >= 0,
        added is Ok ==> partitions_of(*final(list)) == partitions_of(*old(list)).push(
            (topic@, partition, offset),
        ),
{
    list.add_partition_offset(
        topic,
        partition,
        rdkafka::topic_partition_list::Offset::Offset(offset),
    )
}

} // verus!
