//! Handing offsets to the broker.
use crate::kafka::client;
use crate::kafka::client::{new_partitions, push_partition, MAX_LISTED};
use crate::kafka::offsets;
use crate::kafka::offsets::PartitionOffsets;
use vstd::prelude::*;

verus! {

/// Why offsets cannot be handed to the broker.
pub enum Unlisted {
    /// An offset cannot be advanced.
    Exhausted { topic: String, partition: i32, offset: i64 },
    /// The client refused an offset.
    Refused(rdkafka::error::KafkaError),
}

/// Whether every offset can be advanced to an offset that the client takes.
pub open spec fn can_advance(
    checkpoint: Map<offsets::PartitionKey, i64>,
    advance: int,
) -> bool {
    forall|key: offsets::PartitionKey| #[trigger]
        checkpoint.dom().contains(key) ==> 0 <= checkpoint[key] + advance <= i64::MAX
}

/// Whether the client can list every partition: there are not too many, and no topic holds the
/// character zero.
pub open spec fn are_listable(checkpoint: Map<offsets::PartitionKey, i64>) -> bool {
    &&& checkpoint.dom().len() <= MAX_LISTED
    &&& forall|key: offsets::PartitionKey| #[trigger]
        checkpoint.dom().contains(key) ==> !key.0.contains('\0')
}

/// Whether a list holds exactly the partitions of a checkpoint, once each, every one with its offset
/// advanced.
pub open spec fn lists(
    partitions: Seq<(Seq<char>, i32, i64)>,
    checkpoint: Map<offsets::PartitionKey, i64>,
    advance: int,
) -> bool {
    &&& partitions.len() == checkpoint.dom().len()
    &&& forall|i: int|
        0 <= i < partitions.len() ==> {
            let entry = #[trigger] partitions[i];
            &&& checkpoint.dom().contains((entry.0, entry.1))
            &&& entry.2 == checkpoint[(entry.0, entry.1)] + advance
        }
    &&& forall|i: int, j: int|
        0 <= i < j < partitions.len() ==> ((#[trigger] partitions[i]).0, partitions[i].1) != (
            (#[trigger] partitions[j]).0,
            partitions[j].1,
        )
}

/// List every partition with its offset advanced.
pub fn list_partitions(checkpoint: &PartitionOffsets, advance: u32) -> (list: Result<
    rdkafka::topic_partition_list::TopicPartitionList,
    Unlisted,
>)
    requires
        are_listable(checkpoint@),
    ensures
        list is Ok <==> can_advance(checkpoint@, advance as int),
        list matches Ok(list) ==> lists(
            client::partitions_of(list),
            checkpoint@,
            advance as int,
        ),
        list matches Err(Unlisted::Exhausted { topic, partition, offset }) ==> {
            &&& checkpoint@.dom().contains((topic@, partition))
            &&& checkpoint@[(topic@, partition)] == offset
            &&& offset + advance > i64::MAX
        },
        list matches Err(Unlisted::Refused(_)) ==> exists|key: offsets::PartitionKey| #[trigger]
            checkpoint@.dom().contains(key) && checkpoint@[key] + advance < 0,
{
    let entries = checkpoint.entries();
    let count = checkpoint.len();
    let mut list = new_partitions(count);
    let mut index: usize = 0;
    while index < count
        invariant
            index <= count == entries@.len(),
            count == checkpoint@.dom().len(),
            are_listable(checkpoint@),
            offsets::keys_differ(entries@),
            checkpoint@ == offsets::offsets_of(entries@),
            client::partitions_of(list).len() == index,
            forall|i: int|
                0 <= i < index ==> {
                    &&& (#[trigger] client::partitions_of(list)[i]).0 == entries@[i].0.0@
                    &&& client::partitions_of(list)[i].1 == entries@[i].0.1
                    &&& client::partitions_of(list)[i].2 == entries@[i].1 + advance
                    &&& 0 <= entries@[i].1 + advance <= i64::MAX
                },
        decreases count - index,
    {
        proof {
            offsets::lemma_keys_have_offsets(entries@);
            let key = offsets::key_of(entries@[index as int].0);
            assert(checkpoint@.dom().contains(key));
            let listed = client::partitions_of(list);
            if client::holds_partition(listed, key.0, key.1) {
                let i = choose|i: int|
                    0 <= i < listed.len() && (#[trigger] listed[i]).0 == key.0 && listed[i].1
                        == key.1;
                assert(offsets::key_of(entries@[i].0) == key);
                assert(false);
            }
        }
        let topic = &entries[index].0.0;
        let partition: i32 = entries[index].0.1;
        let offset: i64 = entries[index].1;
        let next: i64 = match offset.checked_add(advance as i64) {
            Some(next) => next,
            None => {
                return Err(Unlisted::Exhausted { topic: topic.clone(), partition, offset });
            },
        };
        match push_partition(&mut list, topic.as_str(), partition, next) {
            Ok(_) => {},
            Err(error) => {
                return Err(Unlisted::Refused(error));
            },
        }
        index = index + 1;
    }
    proof {
        offsets::lemma_keys_have_offsets(entries@);
        let listed = client::partitions_of(list);
        assert forall|i: int, j: int| 0 <= i < j < listed.len() implies (
            (#[trigger] listed[i]).0,
            listed[i].1,
        ) != ((#[trigger] listed[j]).0, listed[j].1) by {
            assert(offsets::key_of(entries@[i].0) != offsets::key_of(entries@[j].0));
        }
        assert forall|i: int| 0 <= i < listed.len() implies {
            let entry = #[trigger] listed[i];
            &&& checkpoint@.dom().contains((entry.0, entry.1))
            &&& entry.2 == checkpoint@[(entry.0, entry.1)] + advance
        } by {
            assert(offsets::key_of(entries@[i].0) == (listed[i].0, listed[i].1));
        }
        assert forall|key: offsets::PartitionKey| #[trigger]
            checkpoint@.dom().contains(key) implies 0 <= checkpoint@[key] + advance <= i64::MAX by {
            let i = choose|i: int|
                0 <= i < entries@.len() && offsets::key_of(#[trigger] entries@[i].0) == key;
            assert(listed[i].2 == entries@[i].1 + advance);
        }
    }
    Ok(list)
}

/// A list of a checkpoint's partitions has, for every partition of the checkpoint, one entry and no
/// more, and that entry has the partition's offset advanced.
pub proof fn every_partition_is_listed_once(
    partitions: Seq<(Seq<char>, i32, i64)>,
    checkpoint: Map<offsets::PartitionKey, i64>,
    advance: int,
    key: offsets::PartitionKey,
)
    requires
        lists(partitions, checkpoint, advance),
        checkpoint.dom().finite(),
    ensures
        checkpoint.dom().contains(key) <==> exists|i: int|
            0 <= i < partitions.len() && ((#[trigger] partitions[i]).0, partitions[i].1) == key
                && partitions[i].2 == checkpoint[key] + advance,
        forall|i: int, j: int|
            0 <= i < partitions.len() && 0 <= j < partitions.len() && (
                (#[trigger] partitions[i]).0,
                partitions[i].1,
            ) == key && ((#[trigger] partitions[j]).0, partitions[j].1) == key ==> i == j,
{
    let keys = partitions.map_values(|entry: (Seq<char>, i32, i64)| (entry.0, entry.1));
    assert(keys.no_duplicates()) by {
        assert forall|i: int, j: int|
            0 <= i < keys.len() && 0 <= j < keys.len() && i != j implies keys[i] != keys[j] by {
            if i < j {
                assert((partitions[i].0, partitions[i].1) != (partitions[j].0, partitions[j].1));
            } else {
                assert((partitions[j].0, partitions[j].1) != (partitions[i].0, partitions[i].1));
            }
        }
    }
    keys.unique_seq_to_set();
    let listed = keys.to_set();
    assert(listed.subset_of(checkpoint.dom())) by {
        assert forall|k: offsets::PartitionKey| #[trigger] listed.contains(k) implies
            checkpoint.dom().contains(k) by {
            let i = choose|i: int| 0 <= i < keys.len() && keys[i] == k;
            assert(checkpoint.dom().contains((partitions[i].0, partitions[i].1)));
        }
    }
    vstd::set_lib::lemma_subset_equality(listed, checkpoint.dom());
    if checkpoint.dom().contains(key) {
        assert(listed.contains(key));
        let i = choose|i: int| 0 <= i < keys.len() && keys[i] == key;
        assert((partitions[i].0, partitions[i].1) == key);
    }
    assert forall|i: int, j: int|
        0 <= i < partitions.len() && 0 <= j < partitions.len() && (
            (#[trigger] partitions[i]).0,
            partitions[i].1,
        ) == key && ((#[trigger] partitions[j]).0, partitions[j].1) == key implies i == j by {
        assert(keys[i] == key && keys[j] == key);
    }
}

} // verus!
