//! What one message holds, and what becomes of it.
use crate::kafka::client;
use crate::kafka::client::{new_headers, push_header, MAX_LISTED};
use vstd::prelude::*;

verus! {

/// The broker timestamp attached to a Kafka message, in milliseconds.
#[derive(Debug, Clone, Copy, PartialEq, Eq, Structural)]
pub enum KafkaTimestamp {
    NotAvailable,
    CreateTime(i64),
    LogAppendTime(i64),
}

/// One header of a message that is still held by the client.
#[derive(Debug, Clone, Copy)]
pub struct HeaderView<'a> {
    pub key: &'a str,
    pub value: Option<&'a [u8]>,
}

impl<'a> HeaderView<'a> {
    /// The key and the value, if there is one.
    pub open spec fn content(self) -> (Seq<char>, Option<Seq<u8>>) {
        (
            self.key@,
            match self.value {
                Some(bytes) => Some(bytes@),
                None => None,
            },
        )
    }
}

/// A message that is still held by the client.
#[derive(Debug)]
pub struct MessageView<'a> {
    pub topic: &'a str,
    pub partition: i32,
    pub offset: i64,
    pub timestamp: KafkaTimestamp,
    pub key: Option<&'a [u8]>,
    pub payload: Option<&'a [u8]>,
    pub headers: Option<Vec<HeaderView<'a>>>,
}

/// The contents of several headers, in order.
pub open spec fn header_contents(headers: Seq<HeaderView>) -> Seq<(Seq<char>, Option<Seq<u8>>)> {
    headers.map_values(|header: HeaderView| header.content())
}

/// Whether headers can be copied: there are not too many, and no key holds the character zero.
pub open spec fn are_copyable(headers: Seq<HeaderView>) -> bool {
    &&& headers.len() <= MAX_LISTED
    &&& forall|i: int| 0 <= i < headers.len() ==> !(#[trigger] headers[i]).key@.contains('\0')
}

/// Copy headers out of a message, in order.
pub fn copy_headers(headers: &Vec<HeaderView<'_>>) -> (owned: rdkafka::message::OwnedHeaders)
    requires
        are_copyable(headers@),
    ensures
        client::headers_of(owned) == header_contents(headers@),
        client::headers_of(owned).len() == headers@.len(),
        forall|i: int|
            0 <= i < headers@.len() ==> {
                &&& (#[trigger] client::headers_of(owned)[i]).0 == headers@[i].key@
                &&& client::headers_of(owned)[i].1 == (match headers@[i].value {
                    Some(bytes) => Some(bytes@),
                    None => None,
                })
            },
{
    let mut owned = new_headers(headers.len());
    let mut index: usize = 0;
    while index < headers.len()
        invariant
            index <= headers@.len(),
            are_copyable(headers@),
            client::headers_of(owned) == header_contents(headers@.take(index as int)),
        decreases headers@.len() - index,
    {
        let header = headers[index];
        owned = push_header(owned, header.key, header.value);
        proof {
            assert(headers@.take(index + 1) =~= headers@.take(index as int).push(
                headers@[index as int],
            ));
            assert(header_contents(headers@.take(index + 1)) =~= header_contents(
                headers@.take(index as int),
            ).push(headers@[index as int].content()));
        }
        index = index + 1;
    }
    proof {
        assert(headers@.take(index as int) =~= headers@);
    }
    owned
}

} // verus!
