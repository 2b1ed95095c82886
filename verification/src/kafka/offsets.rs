//! Offsets by topic and partition.
use vstd::prelude::*;

verus! {

/// A topic and one of its partitions.
pub type PartitionKey = (Seq<char>, i32);

/// The topic and partition that an entry is kept under.
pub open spec fn key_of(key: (String, i32)) -> PartitionKey {
    (key.0@, key.1)
}

/// The offsets that a list of entries holds.
pub open spec fn offsets_of(entries: Seq<((String, i32), i64)>) -> Map<PartitionKey, i64>
    decreases entries.len(),
{
    if entries.len() == 0 {
        Map::empty()
    } else {
        offsets_of(entries.drop_last()).insert(key_of(entries.last().0), entries.last().1)
    }
}

/// Whether no two entries have the same key.
pub open spec fn keys_differ(entries: Seq<((String, i32), i64)>) -> bool {
    forall|i: int, j: int|
        0 <= i < j < entries.len() ==> key_of(#[trigger] entries[i].0) != key_of(
            #[trigger] entries[j].0,
        )
}

/// The offsets with one of them raised: an offset never goes back.
pub open spec fn raised(
    offsets: Map<PartitionKey, i64>,
    key: PartitionKey,
    offset: i64,
) -> Map<PartitionKey, i64> {
    if offsets.dom().contains(key) && offsets[key] >= offset {
        offsets
    } else {
        offsets.insert(key, offset)
    }
}

/// Every key of a list of entries, and no other, has an offset.
pub proof fn lemma_keys_have_offsets(entries: Seq<((String, i32), i64)>)
    requires
        keys_differ(entries),
    ensures
        forall|i: int|
            0 <= i < entries.len() ==> {
                &&& offsets_of(entries).dom().contains(key_of(#[trigger] entries[i].0))
                &&& offsets_of(entries)[key_of(entries[i].0)] == entries[i].1
            },
        forall|key: PartitionKey| #[trigger]
            offsets_of(entries).dom().contains(key) ==> exists|i: int|
                0 <= i < entries.len() && key_of(#[trigger] entries[i].0) == key,
        offsets_of(entries).dom().finite(),
        offsets_of(entries).dom().len() == entries.len(),
    decreases entries.len(),
{
    if entries.len() > 0 {
        let before = entries.drop_last();
        let last = entries.len() - 1;
        assert forall|i: int, j: int| 0 <= i < j < before.len() implies key_of(
            #[trigger] before[i].0,
        ) != key_of(#[trigger] before[j].0) by {
            assert(before[i] == entries[i] && before[j] == entries[j]);
        }
        lemma_keys_have_offsets(before);
        let newest = key_of(entries[last].0);
        if offsets_of(before).dom().contains(newest) {
            let i = choose|i: int| 0 <= i < before.len() && key_of(#[trigger] before[i].0)
                == newest;
            assert(before[i] == entries[i]);
            assert(false);
        }
        assert forall|i: int| 0 <= i < entries.len() implies {
            &&& offsets_of(entries).dom().contains(key_of(#[trigger] entries[i].0))
            &&& offsets_of(entries)[key_of(entries[i].0)] == entries[i].1
        } by {
            if i < last {
                assert(before[i] == entries[i]);
                assert(key_of(entries[i].0) != key_of(entries[last].0));
            }
        }
        assert forall|key: PartitionKey| #[trigger]
            offsets_of(entries).dom().contains(key) implies exists|i: int|
            0 <= i < entries.len() && key_of(#[trigger] entries[i].0) == key by {
            if key == newest {
                assert(key_of(entries[last].0) == key);
            } else {
                assert(offsets_of(before).dom().contains(key));
                let i = choose|i: int| 0 <= i < before.len() && key_of(#[trigger] before[i].0)
                    == key;
                assert(before[i] == entries[i]);
                assert(key_of(entries[i].0) == key);
            }
        }
    }
}

/// Offsets keyed by topic and partition.
#[derive(Debug)]
pub struct PartitionOffsets {
    entries: Vec<((String, i32), i64)>,
}

impl View for PartitionOffsets {
    type V = Map<PartitionKey, i64>;

    closed spec fn view(&self) -> Map<PartitionKey, i64> {
        offsets_of(self.entries@)
    }
}

impl PartitionOffsets {
    #[verifier::type_invariant]
    spec fn is_valid(self) -> bool {
        keys_differ(self.entries@)
    }

    /// The entries, in some order.
    pub closed spec fn listed(self) -> Seq<((String, i32), i64)> {
        self.entries@
    }

    /// No offsets.
    pub fn new() -> (offsets: Self)
        ensures
            offsets@ == Map::<PartitionKey, i64>::empty(),
    {
        PartitionOffsets { entries: Vec::new() }
    }

    /// How many partitions have an offset.
    pub fn len(&self) -> (len: usize)
        ensures
            len == self@.dom().len(),
            self@.dom().finite(),
            len == self.listed().len(),
    {
        proof {
            use_type_invariant(self);
            lemma_keys_have_offsets(self.entries@);
        }
        self.entries.len()
    }

    /// Every entry once, in some order.
    pub fn entries(&self) -> (entries: &Vec<((String, i32), i64)>)
        ensures
            entries@ == self.listed(),
            keys_differ(entries@),
            self@ == offsets_of(entries@),
    {
        proof {
            use_type_invariant(self);
        }
        &self.entries
    }

    /// Where the entry for a partition stands.
    fn find(&self, topic: &String, partition: i32) -> (found: Option<usize>)
        ensures
            match found {
                Some(index) => {
                    &&& index < self.entries@.len()
                    &&& key_of(self.entries@[index as int].0) == (topic@, partition)
                },
                None => forall|i: int|
                    0 <= i < self.entries@.len() ==> key_of(#[trigger] self.entries@[i].0) != (
                        topic@,
                        partition,
                    ),
            },
    {
        let mut index: usize = 0;
        while index < self.entries.len()
            invariant
                index <= self.entries@.len(),
                forall|i: int|
                    0 <= i < index ==> key_of(#[trigger] self.entries@[i].0) != (topic@, partition),
            decreases self.entries@.len() - index,
        {
            let key = &self.entries[index].0;
            if key.1 == partition && key.0 == *topic {
                return Some(index);
            }
            index = index + 1;
        }
        None
    }

    /// The offset of a partition, if it has one.
    pub fn get(&self, key: &(String, i32)) -> (offset: Option<&i64>)
        ensures
            match offset {
                Some(offset) => {
                    &&& self@.dom().contains(key_of(*key))
                    &&& self@[key_of(*key)] == *offset
                },
                None => !self@.dom().contains(key_of(*key)),
            },
    {
        proof {
            use_type_invariant(self);
            lemma_keys_have_offsets(self.entries@);
        }
        match self.find(&key.0, key.1) {
            Some(index) => Some(&self.entries[index].1),
            None => None,
        }
    }

    /// Raise the offset of a partition: a partition without an offset gets one, and no offset goes
    /// back.
    pub fn raise(&mut self, topic: &String, partition: i32, offset: i64)
        ensures
            final(self)@ == raised(old(self)@, (topic@, partition), offset),
    {
        proof {
            use_type_invariant(&*self);
            lemma_keys_have_offsets(self.entries@);
        }
        let found = self.find(topic, partition);
        let mut entries: Vec<((String, i32), i64)> = Vec::new();
        std::mem::swap(&mut entries, &mut self.entries);
        let ghost before = entries@;
        match found {
            Some(index) => {
                if entries[index].1 < offset {
                    entries[index].1 = offset;
                    proof {
                        lemma_update(before, index as int, offset);
                        assert(entries@ =~= before.update(
                            index as int,
                            (before[index as int].0, offset),
                        ));
                    }
                }
            },
            None => {
                entries.push(((topic.clone(), partition), offset));
                proof {
                    assert(entries@.drop_last() =~= before);
                }
            },
        }
        self.entries = entries;
    }
}

/// Replacing the offset of one entry replaces the offset of its key.
proof fn lemma_update(entries: Seq<((String, i32), i64)>, index: int, offset: i64)
    requires
        0 <= index < entries.len(),
        keys_differ(entries),
    ensures
        keys_differ(entries.update(index, (entries[index].0, offset))),
        offsets_of(entries.update(index, (entries[index].0, offset))) == offsets_of(
            entries,
        ).insert(key_of(entries[index].0), offset),
{
    let updated = entries.update(index, (entries[index].0, offset));
    assert forall|i: int, j: int| 0 <= i < j < updated.len() implies key_of(
        #[trigger] updated[i].0,
    ) != key_of(#[trigger] updated[j].0) by {
        assert(key_of(updated[i].0) == key_of(entries[i].0));
        assert(key_of(updated[j].0) == key_of(entries[j].0));
    }
    lemma_keys_have_offsets(entries);
    lemma_keys_have_offsets(updated);
    let left = offsets_of(updated);
    let right = offsets_of(entries).insert(key_of(entries[index].0), offset);
    assert forall|key: PartitionKey| left.dom().contains(key) == right.dom().contains(key) by {
        if left.dom().contains(key) {
            let i = choose|i: int| 0 <= i < updated.len() && key_of(#[trigger] updated[i].0) == key;
            assert(key_of(entries[i].0) == key);
        }
        if right.dom().contains(key) && key != key_of(entries[index].0) {
            let i = choose|i: int| 0 <= i < entries.len() && key_of(#[trigger] entries[i].0) == key;
            assert(key_of(updated[i].0) == key);
        }
        if key == key_of(entries[index].0) {
            assert(key_of(updated[index].0) == key);
        }
    }
    assert forall|key: PartitionKey| left.dom().contains(key) implies left[key] == right[key] by {
        let i = choose|i: int| 0 <= i < updated.len() && key_of(#[trigger] updated[i].0) == key;
        assert(key_of(entries[i].0) == key);
        if i != index {
            if i < index {
                assert(key_of(entries[i].0) != key_of(entries[index].0));
            } else {
                assert(key_of(entries[index].0) != key_of(entries[i].0));
            }
        }
    }
    assert(left =~= right);
}

impl Clone for PartitionOffsets {
    fn clone(&self) -> (copy: Self)
        ensures
            copy@ == self@,
    {
        proof {
            use_type_invariant(self);
        }
        let mut entries: Vec<((String, i32), i64)> = Vec::new();
        let mut index: usize = 0;
        while index < self.entries.len()
            invariant
                index <= self.entries@.len(),
                keys_differ(self.entries@),
                entries@.len() == index,
                forall|i: int|
                    0 <= i < index ==> key_of(#[trigger] entries@[i].0) == key_of(
                        self.entries@[i].0,
                    ),
                offsets_of(entries@) == offsets_of(self.entries@.take(index as int)),
            decreases self.entries@.len() - index,
        {
            let ghost before = entries@;
            let entry = &self.entries[index];
            entries.push(((entry.0.0.clone(), entry.0.1), entry.1));
            proof {
                assert(entries@.drop_last() =~= before);
                assert(self.entries@.take(index + 1).drop_last() =~= self.entries@.take(
                    index as int,
                ));
            }
            index = index + 1;
        }
        proof {
            assert(self.entries@.take(index as int) =~= self.entries@);
            assert forall|i: int, j: int| 0 <= i < j < entries@.len() implies key_of(
                #[trigger] entries@[i].0,
            ) != key_of(#[trigger] entries@[j].0) by {
                assert(key_of(self.entries@[i].0) != key_of(self.entries@[j].0));
            }
        }
        PartitionOffsets { entries }
    }
}

impl Default for PartitionOffsets {
    fn default() -> (offsets: Self)
        ensures
            offsets@ == Map::<PartitionKey, i64>::empty(),
    {
        Self::new()
    }
}

/// Raising offsets keeps, for every partition, the largest offset that it was raised to: two raises
/// give the same offsets in either order.
pub proof fn raising_commutes(
    offsets: Map<PartitionKey, i64>,
    first: (PartitionKey, i64),
    second: (PartitionKey, i64),
)
    ensures
        raised(raised(offsets, first.0, first.1), second.0, second.1) == raised(
            raised(offsets, second.0, second.1),
            first.0,
            first.1,
        ),
{
    assert(raised(raised(offsets, first.0, first.1), second.0, second.1) =~= raised(
        raised(offsets, second.0, second.1),
        first.0,
        first.1,
    ));
}

/// Raising an offset to what it already reached changes nothing.
pub proof fn raising_is_idempotent(
    offsets: Map<PartitionKey, i64>,
    key: PartitionKey,
    offset: i64,
)
    ensures
        raised(raised(offsets, key, offset), key, offset) == raised(offsets, key, offset),
{
}

/// Raising an offset leaves a partition at the larger of what it had and what it is raised to, and
/// leaves every other partition alone.
pub proof fn raising_keeps_the_largest(
    offsets: Map<PartitionKey, i64>,
    key: PartitionKey,
    offset: i64,
    other: PartitionKey,
)
    ensures
        ({
            let after = raised(offsets, key, offset);
            &&& after.dom().contains(key)
            &&& after[key] >= offset
            &&& after[key] == offset || (offsets.dom().contains(key) && after[key] == offsets[key])
            &&& offsets.dom().contains(key) ==> after[key] >= offsets[key]
            &&& other != key ==> {
                &&& after.dom().contains(other) <==> offsets.dom().contains(other)
                &&& offsets.dom().contains(other) ==> after[other] == offsets[other]
            }
        }),
{
}

} // verus!
