//! Base64 with the standard alphabet and padding, and random token
//! generation on top of it.

use vstd::prelude::*;

verus! {

/// The standard-alphabet, padded base64 rendering of a byte string: a
/// pure function of the bytes.
pub uninterp spec fn b64_encode(bytes: Seq<u8>) -> Seq<char>;

/// The decoding of a standard-alphabet base64 text: the bytes, or
/// nothing when the text is not well-formed base64.
pub uninterp spec fn b64_decode(text: Seq<char>) -> Option<Seq<u8>>;

/// Encode bytes as base64.
///
/// Relies on base64's `STANDARD` engine: a pure function of the input,
/// producing four characters for every three input bytes, the last
/// group padded.
#[verifier::external_body]
pub fn encode(i: &[u8]) -> (r: String)
    requires
        i@.len() <= usize::MAX / 4,
    ensures
        r@ == b64_encode(i@),
        r@.len() == 4 * ((i@.len() + 2) / 3),
{
    ::base64::Engine::encode(&::base64::engine::general_purpose::STANDARD, i)
}

/// Decode base64 text back into bytes.
///
/// Relies on base64's `STANDARD` engine: decoding is a pure function
/// of the input and fails exactly on text that is not well-formed
/// base64.
#[verifier::external_body]
pub fn decode(i: &str) -> (r: Result<Vec<u8>, ::base64::DecodeError>)
    ensures
        match r {
            Ok(b) => b64_decode(i@) == Some(b@),
            Err(_) => b64_decode(i@) is None,
        },
{
    ::base64::Engine::decode(&::base64::engine::general_purpose::STANDARD, i)
}

/// The error type of the base64 backend.
#[verifier::external_type_specification]
#[verifier::external_body]
pub struct ExDecodeError(::base64::DecodeError);

/// Relies on rand's thread-local generator to fill a buffer with
/// random bytes; only the length of the result is known, and no two
/// calls need agree.
#[verifier::external_body]
fn random_bytes(length: usize) -> (r: Vec<u8>)
    ensures
        r@.len() == length,
{
    let mut buf = vec![0u8; length];
    rand::RngCore::fill_bytes(&mut rand::thread_rng(), &mut buf);
    buf
}

/// A base64 rendering of `length` random bytes.
pub fn random(length: usize) -> (r: String)
    requires
        length <= usize::MAX / 4,
    ensures
        r@.len() == 4 * ((length + 2) / 3),
{
    let bytes = random_bytes(length);
    encode(bytes.as_slice())
}

} // verus!
