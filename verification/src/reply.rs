//! The shapes a backing store's reply can take, and the errors a cache
//! operation can surface.

use crate::codec::dec_int;
use vstd::prelude::*;
use vstd::utf8::decode_utf8;
use vstd::utf8::valid_utf8;

verus! {

/// Every shape a reply from the backing store can take.  Exactly one
/// variant is active per reply; callers handle all six exhaustively.
#[derive(Debug)]
pub enum WireReply {
    /// The store holds nothing for the requested key.
    Nil,
    /// A numeric reply, e.g. the receiver count of a publish.
    Integer(i64),
    /// A byte-string payload.
    Bytes(Vec<u8>),
    /// A nested, list-shaped reply.
    List(Vec<WireReply>),
    /// A status line carrying a message.
    Status(String),
    /// A bare acknowledgement with no payload.
    Ack,
}

/// The error taxonomy of every cache operation.
#[derive(Debug)]
pub enum CacheError {
    /// The store could not be reached, or the connection broke.
    Connection(String),
    /// The reply shape is incompatible with the requested operation.
    Protocol(String),
    /// The payload does not parse as the requested type.
    Decode(String),
    /// A publish was not positively acknowledged by the store.
    PublishNotAcknowledged,
}

/// What a backing store holds for a key: the stored wire string, or
/// nothing.
pub open spec fn stored(m: Map<Seq<char>, Seq<char>>, k: Seq<char>) -> Option<Seq<char>> {
    if m.dom().contains(k) {
        Some(m[k])
    } else {
        None
    }
}

/// Does the reply faithfully represent the value `v` that the store
/// holds (or does not hold) for the requested key?  A `Nil` reply
/// stands for an absent value; an `Integer` reply carries its decimal
/// rendering; a `Bytes` reply carries the UTF-8 bytes of the stored
/// wire string.  No other shape represents a scalar lookup result.
pub open spec fn reply_denotes(rep: WireReply, v: Option<Seq<char>>) -> bool {
    match rep {
        WireReply::Nil => v is None,
        WireReply::Integer(i) => v == Some(dec_int(i as int)),
        WireReply::Bytes(b) => valid_utf8(b@) && v == Some(decode_utf8(b@)),
        WireReply::List(_) => false,
        WireReply::Status(_) => false,
        WireReply::Ack => false,
    }
}

} // verus!
