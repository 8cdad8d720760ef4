//! The shared identifier hash.
//!
//! A node's id is the first 8 bytes of the SHA-1 digest of its network
//! address, read big-endian as an unsigned 64-bit integer; key ids use the
//! same hash over the key string. The digest itself is computed by an outside
//! implementation and is a fixed function of the input characters alone, so
//! its value is only named here, never stated.

use vstd::prelude::*;
use sha1::{Digest, Sha1};

verus! {

/// The identifier that the shared hash assigns to a string: a fixed function
/// of the characters alone, the same in every process and on every machine.
pub uninterp spec fn hash_of(s: Seq<char>) -> u64;

/// Relies on the `sha1` crate's `Sha1`: the digest of the UTF-8 bytes of
/// `addr`, of which the first 8 bytes are read big-endian. The digest is a
/// pure function of its input.
#[verifier::external_body]
pub fn hash_addr(addr: &str) -> (r: u64)
    ensures
        r == hash_of(addr@),
{
    let mut hasher = Sha1::new();
    hasher.update(addr.as_bytes());
    let result = hasher.finalize();
    let mut bytes = [0u8; 8];
    bytes.copy_from_slice(&result[0..8]);
    u64::from_be_bytes(bytes)
}

} // verus!
