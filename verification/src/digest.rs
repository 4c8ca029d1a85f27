//! Content hashes: SHA-256, written as lower-case hexadecimal.

use sha2::{Digest, Sha256};
use vstd::prelude::*;

verus! {

/// The SHA-256 digest of the bytes, as 64 lower-case hexadecimal digits.
pub uninterp spec fn sha256_hex(data: Seq<u8>) -> Seq<char>;

/// `Sha256::digest` on the bytes, formatted with `{:x}`: two digits for
/// each of the 32 bytes of the digest.
#[verifier::external_body]
pub(crate) fn sha256_hex_of(data: &[u8]) -> (hex: String)
    ensures
        hex@ == sha256_hex(data@),
        hex@.len() == 64,
{
    format!("{:x}", Sha256::digest(data))
}

} // verus!
