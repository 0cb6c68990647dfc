//! The cryptographic primitives of outside crates, as functions on bytes.

use aes::cipher::generic_array::GenericArray;
use aes::cipher::{BlockEncrypt, KeyInit};
use hmac::Mac;
use vstd::prelude::*;

verus! {

/// What PBKDF2 with HMAC-SHA1 derives: `len` bytes from a password and a salt.
pub uninterp spec fn pbkdf2_sha1(password: Seq<u8>, salt: Seq<u8>, rounds: nat, len: nat) -> Seq<
    u8,
>;

/// The HMAC-SHA256 tag of a message under a key.
pub uninterp spec fn hmac_sha256(key: Seq<u8>, message: Seq<u8>) -> Seq<u8>;

/// One 16-byte block encrypted with AES-256.
pub uninterp spec fn aes256_block(key: Seq<u8>, block: Seq<u8>) -> Seq<u8>;

/// Calls `pbkdf2::pbkdf2` with `Hmac<Sha1>`, which fills a buffer of 32 bytes
/// from nothing but the password, the salt and the number of rounds. The
/// call cannot fail: HMAC takes keys of any length.
#[verifier::external_body]
pub(crate) fn pbkdf2_sha1_32(password: &[u8], salt: &[u8], rounds: u32) -> (key: Vec<u8>)
    ensures
        key@ == pbkdf2_sha1(password@, salt@, rounds as nat, 32),
        key@.len() == 32,
{
    let mut key = vec![0u8; 32];
    let _ = pbkdf2::pbkdf2::<hmac::Hmac<sha1::Sha1>>(password, salt, rounds, &mut key);
    key
}

/// Calls `hmac::Hmac::<sha2::Sha256>` on one message: a tag of 32 bytes that
/// depends on the key and the message alone. Keys of any length are taken.
#[verifier::external_body]
pub(crate) fn hmac_sha256_tag(key: &[u8], message: &[u8]) -> (tag: Vec<u8>)
    ensures
        tag@ == hmac_sha256(key@, message@),
        tag@.len() == 32,
{
    let mut mac = <hmac::Hmac<sha2::Sha256> as Mac>::new_from_slice(key).unwrap();
    mac.update(message);
    mac.finalize().into_bytes().to_vec()
}

/// Calls `aes::Aes256::encrypt_block`: 16 bytes in, 16 bytes out, fixed by the
/// key and the block.
#[verifier::external_body]
pub(crate) fn aes256_encrypt(key: &[u8], block: &[u8]) -> (out: Vec<u8>)
    requires
        key@.len() == 32,
        block@.len() == 16,
    ensures
        out@ == aes256_block(key@, block@),
        out@.len() == 16,
{
    let cipher = aes::Aes256::new_from_slice(key).unwrap();
    let mut data = GenericArray::clone_from_slice(block);
    cipher.encrypt_block(&mut data);
    data.to_vec()
}

} // verus!
