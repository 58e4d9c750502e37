//! A verified in-memory backend: the reference implementation of the
//! [`Cache`] trait.  It keeps the store and the pending messages of
//! every listened-to topic in process memory, and it conforms to the
//! backend contract by proof, not by convention.

use crate::cache::Cache;
use crate::reply::CacheError;
use crate::reply::WireReply;
use vstd::hash_map::StringHashMap;
use vstd::prelude::*;
use vstd::string::StrSliceExecFns;

verus! {

/// An in-memory store and message board.  `entries` holds the wire
/// strings by key; `channels` holds, for every topic with a listener
/// attached, the messages pending delivery, oldest first.
pub struct MemoryCache {
    entries: StringHashMap<String>,
    channels: StringHashMap<Vec<String>>,
}

impl MemoryCache {
    /// An empty store with no listener attached to any topic.
    pub fn new() -> (r: MemoryCache)
        ensures
            r.store() == Map::<Seq<char>, Seq<char>>::empty(),
            r.subscribed() == Set::<Seq<char>>::empty(),
            forall|t: Seq<char>| #[trigger] r.inbox(t) == Seq::<Seq<char>>::empty(),
    {
        let r = MemoryCache { entries: StringHashMap::new(), channels: StringHashMap::new() };
        proof {
            assert(r.store() =~= Map::<Seq<char>, Seq<char>>::empty());
            assert(r.subscribed() =~= Set::<Seq<char>>::empty());
        }
        r
    }
}

impl Cache for MemoryCache {
    closed spec fn store(&self) -> Map<Seq<char>, Seq<char>> {
        self.entries@.map_values(|v: String| v@)
    }

    closed spec fn subscribed(&self) -> Set<Seq<char>> {
        self.channels@.dom()
    }

    closed spec fn inbox(&self, topic: Seq<char>) -> Seq<Seq<char>> {
        if self.channels@.dom().contains(topic) {
            self.channels@[topic].deep_view()
        } else {
            Seq::empty()
        }
    }

    fn set(&mut self, key: &str, value: &str) -> (r: Result<(), CacheError>)
        ensures
            r is Ok,
    {
        self.entries.insert(key.to_owned(), value.to_owned());
        proof {
            assert(final(self).store() =~= old(self).store().insert(key@, value@));
        }
        Ok(())
    }

    fn get(&self, key: &str) -> (r: Result<WireReply, CacheError>)
        ensures
            r is Ok,
    {
        match self.entries.get(key) {
            Some(v) => {
                let bytes = v.as_str().as_bytes_vec();
                proof {
                    broadcast use vstd::utf8::encode_utf8_valid_utf8;
                    broadcast use vstd::utf8::encode_utf8_decode_utf8;

                }
                Ok(WireReply::Bytes(bytes))
            },
            None => Ok(WireReply::Nil),
        }
    }

    fn forget(&mut self, key: &str) -> (r: Result<WireReply, CacheError>)
        ensures
            r is Ok,
    {
        let found = match self.entries.get(key) {
            Some(v) => {
                let bytes = v.as_str().as_bytes_vec();
                proof {
                    broadcast use vstd::utf8::encode_utf8_valid_utf8;
                    broadcast use vstd::utf8::encode_utf8_decode_utf8;

                }
                Some(WireReply::Bytes(bytes))
            },
            None => None,
        };
        self.entries.remove(key);
        proof {
            assert(final(self).store() =~= old(self).store().remove(key@));
        }
        match found {
            Some(rep) => Ok(rep),
            None => Ok(WireReply::Nil),
        }
    }

    fn publish(&mut self, topic: &str, payload: &str) -> (r: Result<WireReply, CacheError>)
        ensures
            r is Ok,
    {
        let queue = match self.channels.get(topic) {
            Some(q) => q.clone(),
            None => {
                return Ok(WireReply::Nil);
            },
        };
        let ghost queue0 = self.channels@[topic@];
        proof {
            broadcast use vstd::std_specs::vec::vec_clone_deep_view_proof;

            assert(queue.deep_view() =~= queue0.deep_view());
        }
        let mut queue = queue;
        queue.push(payload.to_owned());
        self.channels.insert(topic.to_owned(), queue);
        proof {
            assert(final(self).subscribed() =~= old(self).subscribed());
            assert(final(self).store() =~= old(self).store());
            assert(final(self).inbox(topic@) =~= old(self).inbox(topic@).push(payload@));
        }
        Ok(WireReply::Integer(1))
    }

    fn listen(&mut self, topic: &str) -> (r: Result<(), CacheError>)
        ensures
            r is Ok,
    {
        if self.channels.contains_key(topic) {
            proof {
                assert(final(self).subscribed() =~= old(self).subscribed().insert(topic@));
            }
        } else {
            self.channels.insert(topic.to_owned(), Vec::new());
            proof {
                assert(final(self).subscribed() =~= old(self).subscribed().insert(topic@));
                assert(final(self).store() =~= old(self).store());
                assert(final(self).inbox(topic@) =~= old(self).inbox(topic@));
            }
        }
        Ok(())
    }

    fn recv(&mut self, topic: &str) -> (r: Result<String, CacheError>)
        ensures
            r is Ok <==> old(self).inbox(topic@).len() > 0,
    {
        let queue = match self.channels.get(topic) {
            Some(q) => q,
            None => {
                proof {
                    assert(false);
                }
                return Err(CacheError::Connection(String::new()));
            },
        };
        if queue.len() == 0 {
            return Err(
                CacheError::Connection(String::from_str("no message pending on the topic")),
            );
        }
        let ghost queue0 = self.channels@[topic@];
        let mut queue = queue.clone();
        proof {
            broadcast use vstd::std_specs::vec::vec_clone_deep_view_proof;

            assert(queue.deep_view() =~= queue0.deep_view());
        }
        let first = queue.remove(0);
        self.channels.insert(topic.to_owned(), queue);
        proof {
            assert(final(self).subscribed() =~= old(self).subscribed());
            assert(final(self).store() =~= old(self).store());
            assert(first@ == old(self).inbox(topic@)[0]);
            assert(final(self).inbox(topic@) =~= old(self).inbox(topic@).drop_first());
        }
        Ok(first)
    }
}

} // verus!
