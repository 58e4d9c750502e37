//! A typed cache and publish/subscribe library.
//!
//! Values of arbitrary application types are marshalled to and from a
//! textual wire representation, stored under string keys in a backing
//! store, and broadcast over topics.  The backing store is reached
//! through the [`Cache`] trait; every reply it produces is one of the
//! shapes of [`WireReply`], and the decoding of those shapes into
//! typed results is fully specified and verified.  Alongside the cache
//! live the account model with its registration rule, the input
//! validators, the credential and encryption helpers, and the job
//! queue.

use vstd::prelude::*;

mod account;
pub mod base64;
mod cache;
pub mod codec;
pub mod crypto_aes;
pub mod hash;
mod memory;
mod queue;
mod reply;
mod response;
pub mod validate;

pub use account::register;
pub use account::validate_registration;
pub use account::AccountError;
pub use account::AuthProvider;
pub use account::ProfileType;
pub use account::User;
pub use cache::decode_reply;
pub use cache::lemma_forget_then_get;
pub use cache::lemma_set_then_get;
pub use cache::publish_outcome;
pub use cache::Cache;
pub use cache::CacheStorage;
pub use cache::ControlFlow;
pub use codec::Codec;
pub use codec::Decodable;
pub use codec::Encodable;
pub use crypto_aes::AesCipher;
pub use memory::MemoryCache;
pub use queue::run_step;
pub use queue::Job;
pub use queue::Queue;
pub use reply::reply_denotes;
pub use reply::stored;
pub use reply::CacheError;
pub use reply::WireReply;
pub use response::ApiError;
pub use response::ApiResponse;
pub use response::ApiResponseStatus;
pub use response::Error;
pub use response::ErrorCode;
pub use response::RequestError;
pub use validate::validate_email;
pub use validate::validate_passowrd;

verus! {

} // verus!
