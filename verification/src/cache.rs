//! The typed cache client and the backend contract it is built on.
//!
//! A backend (the [`Cache`] trait) speaks in wire strings and
//! [`WireReply`] shapes; the client ([`CacheStorage`]) composes it with
//! the string codec and defines all typed semantics: the decode table
//! of `get` / `forget`, the acknowledgement rule of `publish`, and the
//! callback-driven `subscribe` loop.

use crate::codec::dec_int;
use crate::codec::Codec;
use crate::codec::Decodable;
use crate::codec::Encodable;
use crate::reply::reply_denotes;
use crate::reply::stored;
use crate::reply::CacheError;
use crate::reply::WireReply;
use vstd::prelude::*;
use vstd::string::StringExecFns;
use vstd::utf8::decode_utf8;
use vstd::utf8::valid_utf8;

verus! {

/// What a subscribe callback tells the loop after each message:
/// keep listening, or stop and carry a value out.
pub enum ControlFlow<T> {
    /// Keep listening for further messages.
    Continue,
    /// Detach from the topic and return the value.
    Break(T),
}

/// A backend that executes one wire command per call against a remote
/// store.  Its abstract state is a string store, a set of topics being
/// listened to, and a queue of pending messages per topic.  Users
/// implement this trait to connect the client to a concrete store; the
/// library ships a verified in-memory implementation.
///
/// An `Err` from any method reports connection trouble only; shapes and
/// payloads are judged by the client, not the backend.
pub trait Cache: Sized {
    /// The wire strings the store holds, by key.  A verified
    /// implementation overrides this with its model of the store; the
    /// default, for implementations living outside the verifier, is
    /// the empty model.
    open spec fn store(&self) -> Map<Seq<char>, Seq<char>> {
        Map::empty()
    }

    /// The topics this backend is attached to.
    open spec fn subscribed(&self) -> Set<Seq<char>> {
        Set::empty()
    }

    /// The messages pending delivery on a topic, oldest first.
    open spec fn inbox(&self, topic: Seq<char>) -> Seq<Seq<char>> {
        Seq::empty()
    }

    /// Write a wire string under a key, overwriting any previous value.
    fn set(&mut self, key: &str, value: &str) -> (r: Result<(), CacheError>)
        ensures
            r is Ok ==> final(self).store() == old(self).store().insert(key@, value@),
            r is Ok ==> final(self).subscribed() == old(self).subscribed(),
            forall|t: Seq<char>| r is Ok ==> #[trigger] final(self).inbox(t) == old(self).inbox(t),
            r matches Err(e) ==> e is Connection,
    ;

    /// Read the reply for a key.  A conforming backend answers with a
    /// reply that represents exactly what the store holds.
    fn get(&self, key: &str) -> (r: Result<WireReply, CacheError>)
        ensures
            r matches Ok(rep) ==> reply_denotes(rep, stored(self.store(), key@)),
            r matches Err(e) ==> e is Connection,
    ;

    /// Atomically read and delete the value under a key.
    fn forget(&mut self, key: &str) -> (r: Result<WireReply, CacheError>)
        ensures
            r matches Ok(rep) ==> reply_denotes(rep, stored(old(self).store(), key@)),
            r is Ok ==> final(self).store() == old(self).store().remove(key@),
            r is Ok ==> final(self).subscribed() == old(self).subscribed(),
            forall|t: Seq<char>| r is Ok ==> #[trigger] final(self).inbox(t) == old(self).inbox(t),
            r matches Err(e) ==> e is Connection,
    ;

    /// Broadcast a payload on a topic.  With somebody listening, the
    /// reply is the receiver count and the payload joins the topic's
    /// pending messages; with nobody listening, the reply is `Nil`: no
    /// positive confirmation.
    fn publish(&mut self, topic: &str, payload: &str) -> (r: Result<WireReply, CacheError>)
        ensures
            r is Ok ==> final(self).store() == old(self).store(),
            r is Ok ==> final(self).subscribed() == old(self).subscribed(),
            r matches Ok(rep) ==> (if old(self).subscribed().contains(topic@) {
                (rep matches WireReply::Integer(n) && n >= 1) && final(self).inbox(topic@) == old(
                    self,
                ).inbox(topic@).push(payload@)
            } else {
                rep is Nil && final(self).inbox(topic@) == old(self).inbox(topic@)
            }),
            forall|t: Seq<char>|
                r is Ok && t != topic@ ==> #[trigger] final(self).inbox(t) == old(self).inbox(t),
            r matches Err(e) ==> e is Connection,
    ;

    /// Attach to a topic, so that published payloads are queued for
    /// this backend.  Attaching twice is harmless.
    fn listen(&mut self, topic: &str) -> (r: Result<(), CacheError>)
        ensures
            r is Ok ==> final(self).subscribed() == old(self).subscribed().insert(topic@),
            r is Ok ==> final(self).store() == old(self).store(),
            forall|t: Seq<char>| r is Ok ==> #[trigger] final(self).inbox(t) == old(self).inbox(t),
            r matches Err(e) ==> e is Connection && final(self).store() == old(self).store()
                && final(self).subscribed() == old(self).subscribed(),
            forall|t: Seq<char>| r is Err ==> #[trigger] final(self).inbox(t) == old(self).inbox(t),
    ;

    /// Wait for the next message on a topic the backend is attached
    /// to.  A pending message is always delivered, oldest first; an
    /// `Err` means the connection is gone.
    fn recv(&mut self, topic: &str) -> (r: Result<String, CacheError>)
        requires
            old(self).subscribed().contains(topic@),
        ensures
            r matches Ok(payload) ==> old(self).inbox(topic@).len() > 0 && payload@ == old(
                self,
            ).inbox(topic@)[0] && final(self).inbox(topic@) == old(self).inbox(
                topic@,
            ).drop_first(),
            r is Ok ==> final(self).store() == old(self).store(),
            r is Ok ==> final(self).subscribed() == old(self).subscribed(),
            forall|t: Seq<char>|
                r is Ok && t != topic@ ==> #[trigger] final(self).inbox(t) == old(self).inbox(t),
            old(self).inbox(topic@).len() > 0 ==> r is Ok,
            r matches Err(e) ==> e is Connection && final(self).store() == old(self).store()
                && final(self).subscribed() == old(self).subscribed(),
            forall|t: Seq<char>| r is Err ==> #[trigger] final(self).inbox(t) == old(self).inbox(t),
    ;
}

/// Relies on `String::from_utf8`: it succeeds exactly on valid UTF-8
/// input and decodes it, as `vstd`'s UTF-8 model states.
#[verifier::external_body]
fn string_from_utf8(bytes: Vec<u8>) -> (r: Option<String>)
    ensures
        match r {
            Some(s) => valid_utf8(bytes@) && s@ == decode_utf8(bytes@),
            None => !valid_utf8(bytes@),
        },
{
    String::from_utf8(bytes).ok()
}

/// Map a scalar read reply to a typed result, the same way for `get`
/// and `forget`: `Nil` is an absent value; an `Integer` is decoded
/// through its decimal rendering; `Bytes` are decoded as a UTF-8
/// string; a `List` is refused as a protocol error; `Status` and `Ack`
/// carry no usable value and decode to nothing.  A payload that does
/// not parse as `V` is always a decode error, never a panic or a
/// silent default.
pub fn decode_reply<V: Decodable>(rep: WireReply) -> (r: Result<Option<V>, CacheError>)
    ensures
        match rep {
            WireReply::Nil => r == Ok::<Option<V>, CacheError>(None),
            WireReply::Integer(i) => {
                if V::dec_ok(dec_int(i as int)) {
                    r matches Ok(Some(v)) && V::dec_rel(dec_int(i as int), v)
                } else {
                    r matches Err(e) && e is Decode
                }
            },
            WireReply::Bytes(b) => {
                if valid_utf8(b@) && V::dec_ok(decode_utf8(b@)) {
                    r matches Ok(Some(v)) && V::dec_rel(decode_utf8(b@), v)
                } else {
                    r matches Err(e) && e is Decode
                }
            },
            WireReply::List(_) => r matches Err(e) && e is Protocol,
            WireReply::Status(_) => r == Ok::<Option<V>, CacheError>(None),
            WireReply::Ack => r == Ok::<Option<V>, CacheError>(None),
        },
{
    match rep {
        WireReply::Nil => Ok(None),
        WireReply::Integer(i) => {
            let s = crate::codec::i64_to_string(i);
            match V::decode(s.as_str()) {
                Some(v) => Ok(Some(v)),
                None => Err(CacheError::Decode(s)),
            }
        },
        WireReply::Bytes(b) => match string_from_utf8(b) {
            Some(s) => match V::decode(s.as_str()) {
                Some(v) => Ok(Some(v)),
                None => Err(CacheError::Decode(s)),
            },
            None => Err(CacheError::Decode(String::from_str("payload is not valid UTF-8"))),
        },
        WireReply::List(_) => Err(
            CacheError::Protocol(String::from_str("reply is a list shape, not a scalar")),
        ),
        WireReply::Status(_) => Ok(None),
        WireReply::Ack => Ok(None),
    }
}

/// Judge a publish reply.  An `Integer` (any receiver count) or a
/// UTF-8 `Bytes` reply acknowledges delivery; a `Status` reply is a
/// store-reported failure and surfaces its message; `Nil` and `Ack`
/// give no positive confirmation and are refused; a `List` is a
/// protocol error.  This keeps the behaviour of treating the bare
/// acknowledgement shapes as failure, and it always treats a `Status`
/// reply with message content as an error.
pub fn publish_outcome(rep: WireReply) -> (r: Result<(), CacheError>)
    ensures
        match rep {
            WireReply::Integer(_) => r == Ok::<(), CacheError>(()),
            WireReply::Bytes(b) => {
                if valid_utf8(b@) {
                    r == Ok::<(), CacheError>(())
                } else {
                    r matches Err(e) && e is Decode
                }
            },
            WireReply::Status(s) => r matches Err(e) && (e matches CacheError::Protocol(m)
                && m@ == s@),
            WireReply::Nil => r matches Err(e) && e is PublishNotAcknowledged,
            WireReply::Ack => r matches Err(e) && e is PublishNotAcknowledged,
            WireReply::List(_) => r matches Err(e) && e is Protocol,
        },
{
    match rep {
        WireReply::Integer(_) => Ok(()),
        WireReply::Bytes(b) => match string_from_utf8(b) {
            Some(_) => Ok(()),
            None => Err(CacheError::Decode(String::from_str("payload is not valid UTF-8"))),
        },
        WireReply::Status(s) => Err(CacheError::Protocol(s)),
        WireReply::Nil => Err(CacheError::PublishNotAcknowledged),
        WireReply::Ack => Err(CacheError::PublishNotAcknowledged),
        WireReply::List(_) => Err(
            CacheError::Protocol(String::from_str("reply is a list shape, not a scalar")),
        ),
    }
}

/// The round trip of the cache.  After a `set` of `v` under key `k`
/// the store holds exactly `v`'s wire string; that string always
/// decodes; and every value it can decode to renders as the same wire
/// string again.  With the contracts of `set` and `get`, a `get` of
/// `k` right after the `set` therefore returns `Ok(Some(w))` with
/// `w.enc() == v.enc()` whenever the store can be reached.
pub proof fn lemma_set_then_get<V: Codec>(m: Map<Seq<char>, Seq<char>>, k: Seq<char>, v: V)
    ensures
        stored(m.insert(k, v.enc()), k) == Some(v.enc()),
        V::dec_ok(v.enc()),
        forall|w: V| V::dec_rel(v.enc(), w) ==> #[trigger] w.enc() == v.enc(),
{
    v.lemma_round_trip();
}

/// After a `forget` of key `k` the store no longer holds `k`: with the
/// contracts of `forget` and `get`, a `get` of `k` right after finds
/// nothing and returns `Ok(None)` whenever the store can be reached.
pub proof fn lemma_forget_then_get(m: Map<Seq<char>, Seq<char>>, k: Seq<char>)
    ensures
        stored(m.remove(k), k) is None,
{
}

/// The typed cache client: a thin, fully specified layer over a
/// backend, generic in the value type of every operation.
#[derive(Clone)]
pub struct CacheStorage<C: Cache> {
    inner: C,
}

impl<C: Cache> CacheStorage<C> {
    /// The wire strings the underlying store holds, by key.
    pub closed spec fn store(&self) -> Map<Seq<char>, Seq<char>> {
        self.inner.store()
    }

    /// The topics the underlying backend is attached to.
    pub closed spec fn subscribed(&self) -> Set<Seq<char>> {
        self.inner.subscribed()
    }

    /// The messages pending delivery on a topic, oldest first.
    pub closed spec fn inbox(&self, topic: Seq<char>) -> Seq<Seq<char>> {
        self.inner.inbox(topic)
    }

    /// Wrap a backend.
    pub fn new(cache: C) -> (r: Self)
        ensures
            r.store() == cache.store(),
            r.subscribed() == cache.subscribed(),
            forall|t: Seq<char>| #[trigger] r.inbox(t) == cache.inbox(t),
    {
        CacheStorage { inner: cache }
    }

    /// Store a value under a key, overwriting any previous value.  The
    /// store afterwards holds exactly the value's wire string.
    pub fn set<V: Encodable>(&mut self, key: String, value: V) -> (r: Result<(), CacheError>)
        ensures
            r is Ok ==> final(self).store() == old(self).store().insert(key@, value.enc()),
            r is Ok ==> final(self).subscribed() == old(self).subscribed(),
            forall|t: Seq<char>| r is Ok ==> #[trigger] final(self).inbox(t) == old(self).inbox(t),
            r matches Err(e) ==> e is Connection,
    {
        let encoded = value.encode();
        self.inner.set(key.as_str(), encoded.as_str())
    }

    /// Read the value under a key.  An absent key is `Ok(None)`, never
    /// an error; a present key yields the decoding of its stored wire
    /// string, and a decode failure is always surfaced.
    pub fn get<V: Decodable>(&self, key: String) -> (r: Result<Option<V>, CacheError>)
        ensures
            stored(self.store(), key@) is None ==> match r {
                Ok(v) => v is None,
                Err(e) => e is Connection,
            },
            match r {
                Ok(None) => stored(self.store(), key@) is None,
                Ok(Some(v)) => stored(self.store(), key@) matches Some(s) && V::dec_ok(s)
                    && V::dec_rel(s, v),
                Err(e) => e is Connection || (e is Decode && match stored(self.store(), key@) {
                    Some(s) => !V::dec_ok(s),
                    None => false,
                }),
            },
    {
        match self.inner.get(key.as_str()) {
            Ok(rep) => decode_reply::<V>(rep),
            Err(e) => Err(e),
        }
    }

    /// Atomically read and delete the value under a key, with the same
    /// decode rules as `get`.  Whenever a value is returned, it has
    /// also been removed from the store.
    pub fn forget<V: Decodable>(&mut self, key: String) -> (r: Result<Option<V>, CacheError>)
        ensures
            r is Ok ==> final(self).store() == old(self).store().remove(key@),
            r is Ok ==> final(self).subscribed() == old(self).subscribed(),
            forall|t: Seq<char>| r is Ok ==> #[trigger] final(self).inbox(t) == old(self).inbox(t),
            match r {
                Ok(None) => stored(old(self).store(), key@) is None,
                Ok(Some(v)) => stored(old(self).store(), key@) matches Some(s) && V::dec_ok(s)
                    && V::dec_rel(s, v),
                Err(e) => e is Connection || (e is Decode && final(self).store() == old(
                    self,
                ).store().remove(key@) && match stored(old(self).store(), key@) {
                    Some(s) => !V::dec_ok(s),
                    None => false,
                }),
            },
    {
        match self.inner.forget(key.as_str()) {
            Ok(rep) => decode_reply::<V>(rep),
            Err(e) => Err(e),
        }
    }

    /// Broadcast a value on a topic.  Success means the payload was
    /// positively acknowledged and queued for the topic's listener;
    /// with nobody attached to the topic there is no confirmation, and
    /// the publish reports a failure.
    pub fn publish<V: Encodable>(&mut self, topic: String, value: V) -> (r: Result<
        (),
        CacheError,
    >)
        ensures
            r is Ok ==> old(self).subscribed().contains(topic@),
            r is Ok ==> final(self).store() == old(self).store(),
            r is Ok ==> final(self).subscribed() == old(self).subscribed(),
            r is Ok ==> final(self).inbox(topic@) == old(self).inbox(topic@).push(value.enc()),
            forall|t: Seq<char>|
                r is Ok && t != topic@ ==> #[trigger] final(self).inbox(t) == old(self).inbox(t),
            !old(self).subscribed().contains(topic@) ==> r is Err,
            r matches Err(e) ==> e is Connection || e is PublishNotAcknowledged,
    {
        let encoded = value.encode();
        match self.inner.publish(topic.as_str(), encoded.as_str()) {
            Ok(rep) => publish_outcome(rep),
            Err(e) => Err(e),
        }
    }

    /// Attach to a topic and decode every received message, handing
    /// each to the callback until it breaks with a value.  A message
    /// that does not decode ends the loop with a decode error; a
    /// break value always comes out of the callback.  In particular,
    /// with a pending message that decodes, a callback that can only
    /// break returns its break value for that first message (unless
    /// the connection itself fails).
    pub fn subscribe<V: Decodable, F: Fn(V) -> ControlFlow<V>>(
        &mut self,
        topic: String,
        f: F,
    ) -> (r: Result<Option<V>, CacheError>)
        requires
            forall|v: V| #[trigger] call_requires(f, (v,)),
        ensures
            final(self).store() == old(self).store(),
            r != Ok::<Option<V>, CacheError>(None),
            r matches Ok(Some(b)) ==> exists|v: V|
                #[trigger] call_ensures(f, (v,), ControlFlow::Break(b)),
            r matches Err(e) ==> e is Connection || e is Decode,
            ((forall|v: V, c: ControlFlow<V>|
                #[trigger] call_ensures(f, (v,), c) ==> c is Break) && old(self).inbox(
                topic@,
            ).len() > 0 && V::dec_ok(old(self).inbox(topic@)[0])) ==> (r matches Err(e) ==> e is Connection),
            ((forall|v: V, c: ControlFlow<V>|
                #[trigger] call_ensures(f, (v,), c) ==> c is Break) && old(self).inbox(
                topic@,
            ).len() > 0 && V::dec_ok(old(self).inbox(topic@)[0])) ==> (r matches Ok(Some(b))
                ==> exists|v: V|
                V::dec_rel(old(self).inbox(topic@)[0], v) && #[trigger] call_ensures(
                    f,
                    (v,),
                    ControlFlow::Break(b),
                )),
    {
        let ghost breaks_only = forall|v: V, c: ControlFlow<V>|
            #[trigger] call_ensures(f, (v,), c) ==> c is Break;
        let ghost first_ready = old(self).inbox(topic@).len() > 0 && V::dec_ok(
            old(self).inbox(topic@)[0],
        );
        match self.inner.listen(topic.as_str()) {
            Ok(()) => {},
            Err(e) => {
                return Err(e);
            },
        }
        // The first message settles the law stated above: when it is
        // already pending and the callback can only break, the loop
        // ends right here.
        let payload0 = match self.inner.recv(topic.as_str()) {
            Ok(p) => p,
            Err(e) => {
                return Err(e);
            },
        };
        match V::decode(payload0.as_str()) {
            None => {
                return Err(CacheError::Decode(payload0));
            },
            Some(v0) => {
                let ghost v0_snapshot = v0;
                match f(v0) {
                    ControlFlow::Break(b) => {
                        let res: Result<Option<V>, CacheError> = Ok(Some(b));
                        proof {
                            assert(res matches Ok(Some(bb)) ==> call_ensures(
                                f,
                                (v0_snapshot,),
                                ControlFlow::Break(bb),
                            ) && V::dec_rel(payload0@, v0_snapshot));
                            assert(res matches Ok(Some(bb)) ==> exists|v: V|
                                #[trigger] call_ensures(f, (v,), ControlFlow::Break(bb)));
                            assert(res matches Ok(Some(bb)) ==> exists|v: V|
                                V::dec_rel(old(self).inbox(topic@)[0], v)
                                    && #[trigger] call_ensures(f, (v,), ControlFlow::Break(bb)));
                        }
                        return res;
                    },
                    ControlFlow::Continue => {},
                }
            },
        }
        proof {
            assert(!(breaks_only && first_ready));
        }
        loop
            invariant
                self.inner.subscribed().contains(topic@),
                self.inner.store() == old(self).store(),
                !(breaks_only && first_ready),
                breaks_only == (forall|v: V, c: ControlFlow<V>|
                    #[trigger] call_ensures(f, (v,), c) ==> c is Break),
                first_ready == (old(self).inbox(topic@).len() > 0 && V::dec_ok(
                    old(self).inbox(topic@)[0],
                )),
                forall|v: V| #[trigger] call_requires(f, (v,)),
            decreases self.inner.inbox(topic@).len(),
        {
            let payload = match self.inner.recv(topic.as_str()) {
                Ok(p) => p,
                Err(e) => {
                    return Err(e);
                },
            };
            match V::decode(payload.as_str()) {
                None => {
                    return Err(CacheError::Decode(payload));
                },
                Some(v) => {
                    let ghost v_snapshot = v;
                    match f(v) {
                        ControlFlow::Break(b) => {
                            let res: Result<Option<V>, CacheError> = Ok(Some(b));
                            proof {
                                assert(res matches Ok(Some(bb)) ==> call_ensures(
                                    f,
                                    (v_snapshot,),
                                    ControlFlow::Break(bb),
                                ));
                                assert(res matches Ok(Some(bb)) ==> exists|w: V|
                                    #[trigger] call_ensures(f, (w,), ControlFlow::Break(bb)));
                            }
                            return res;
                        },
                        ControlFlow::Continue => {},
                    }
                },
            }
        }
    }
}

} // verus!
