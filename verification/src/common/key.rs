//! The session key.

use crate::crypto::pbkdf2_sha1_32;
use vstd::prelude::*;
use vstd::string::StringSliceAdditionalSpecFns;

verus! {

/// Rounds of PBKDF2 for the session key.
pub const KEY_ROUNDS: u32 = 4096;

/// The session key of a password.
pub open spec fn session_key(password: Seq<u8>) -> Seq<u8> {
    crate::crypto::pbkdf2_sha1(password, "kcp-go".spec_bytes(), KEY_ROUNDS as nat, 32)
}

/// Derives the 32-byte key of a password.
pub fn derive_key(password: &str) -> (key: [u8; 32])
    ensures
        key@ == session_key(password.spec_bytes()),
{
    let derived: Vec<u8> = pbkdf2_sha1_32(password.as_bytes(), "kcp-go".as_bytes(), KEY_ROUNDS);
    let mut key: [u8; 32] = [0u8; 32];
    let mut i: usize = 0;
    while i < 32
        invariant
            i <= 32,
            derived@.len() == 32,
            forall|j: int| 0 <= j < i ==> key@[j] == derived@[j],
        decreases 32 - i,
    {
        key[i] = derived[i];
        i = i + 1;
    }
    assert(key@ =~= derived@);
    key
}

} // verus!
