//! Symmetric encryption, built on AES-256 in CBC mode with PKCS#7
//! padding.  The cipher configuration is an explicit value holding the
//! key and initialisation vector as plain bytes, handed to every call.

use aes::cipher::block_padding::Pkcs7;
use aes::cipher::BlockDecryptMut;
use aes::cipher::BlockEncryptMut;
use aes::cipher::KeyIvInit;
use vstd::prelude::*;

verus! {

/// What the AES-256-CBC encryption of `text` under `key` and `iv`
/// looks like: a pure function of the three byte strings.
pub uninterp spec fn aes_encrypt(key: Seq<u8>, iv: Seq<u8>, text: Seq<u8>) -> Seq<u8>;

/// What the AES-256-CBC decryption of `buf` under `key` and `iv`
/// yields: the plaintext, or nothing when the ciphertext is malformed
/// (not a whole number of blocks, or bad padding).
pub uninterp spec fn aes_decrypt(key: Seq<u8>, iv: Seq<u8>, buf: Seq<u8>) -> Option<Seq<u8>>;

/// Relies on `cbc::Encryptor<aes::Aes256>` with PKCS#7 padding: a pure
/// function of key, initialisation vector and plaintext.
#[verifier::external_body]
fn aes_encrypt_raw(key: &Vec<u8>, iv: &Vec<u8>, text: &[u8]) -> (r: Vec<u8>)
    requires
        key@.len() == 32,
        iv@.len() == 16,
    ensures
        r@ == aes_encrypt(key@, iv@, text@),
{
    let enc = cbc::Encryptor::<aes::Aes256>::new_from_slices(key, iv).unwrap();
    enc.encrypt_padded_vec_mut::<Pkcs7>(text)
}

/// Relies on `cbc::Decryptor<aes::Aes256>` with PKCS#7 padding: a pure
/// function of key, initialisation vector and ciphertext, which fails
/// exactly on malformed input.
#[verifier::external_body]
fn aes_decrypt_raw(key: &Vec<u8>, iv: &Vec<u8>, buf: &[u8]) -> (r: Option<Vec<u8>>)
    requires
        key@.len() == 32,
        iv@.len() == 16,
    ensures
        match r {
            Some(p) => aes_decrypt(key@, iv@, buf@) == Some(p@),
            None => aes_decrypt(key@, iv@, buf@) is None,
        },
{
    let dec = cbc::Decryptor::<aes::Aes256>::new_from_slices(key, iv).unwrap();
    dec.decrypt_padded_vec_mut::<Pkcs7>(buf).ok()
}

/// An AES-256-CBC cipher configuration: a 32-byte key and a 16-byte
/// initialisation vector.
pub struct AesCipher {
    key: Vec<u8>,
    iv: Vec<u8>,
}

impl AesCipher {
    /// A well-formed configuration holds a whole key and a whole
    /// initialisation vector.
    pub closed spec fn wf(&self) -> bool {
        self.key@.len() == 32 && self.iv@.len() == 16
    }

    /// The key bytes.
    pub closed spec fn spec_key(&self) -> Seq<u8> {
        self.key@
    }

    /// The initialisation vector bytes.
    pub closed spec fn spec_iv(&self) -> Seq<u8> {
        self.iv@
    }

    /// Build a configuration from a 32-byte key and a 16-byte
    /// initialisation vector.
    pub fn new(key: Vec<u8>, iv: Vec<u8>) -> (r: AesCipher)
        requires
            key@.len() == 32,
            iv@.len() == 16,
        ensures
            r.wf(),
            r.spec_key() == key@,
            r.spec_iv() == iv@,
    {
        AesCipher { key, iv }
    }
}

/// Encrypt `text` under the cipher configuration.
pub fn encode(cipher: &AesCipher, text: &[u8]) -> (r: Vec<u8>)
    requires
        cipher.wf(),
    ensures
        r@ == aes_encrypt(cipher.spec_key(), cipher.spec_iv(), text@),
{
    aes_encrypt_raw(&cipher.key, &cipher.iv, text)
}

/// Decrypt `buf` under the cipher configuration; malformed ciphertext
/// yields the empty plaintext rather than a panic.
pub fn decode(cipher: &AesCipher, buf: &[u8]) -> (r: Vec<u8>)
    requires
        cipher.wf(),
    ensures
        match aes_decrypt(cipher.spec_key(), cipher.spec_iv(), buf@) {
            Some(p) => r@ == p,
            None => r@ == Seq::<u8>::empty(),
        },
{
    match aes_decrypt_raw(&cipher.key, &cipher.iv, buf) {
        Some(p) => p,
        None => Vec::new(),
    }
}

} // verus!
