//! SHA-256 digests in lowercase hexadecimal, computed by the `crypto` crate.

use crypto::digest::Digest;
use crypto::sha2::Sha256;
use vstd::prelude::*;

verus! {

/// The SHA-256 digest of `message`, as the hexadecimal text that
/// `crypto::sha2::Sha256` gives for it.
pub uninterp spec fn sha256_hex(message: Seq<u8>) -> Seq<char>;

/// The length from which `Digest::input` refuses a message: its count of
/// bits must fit in 64 bits.
pub const MESSAGE_LIMIT: u64 = 0x2000_0000_0000_0000;

/// Hashes `message` with a fresh `crypto::sha2::Sha256`: `Sha256::new`, one
/// `Digest::input` of the whole message, then `Digest::result_str`.
///
/// Trusted, not proved: the text returned depends on the bytes of `message`
/// alone, and is what the contracts of this library call `sha256_hex`.
/// `Digest::input` panics on a message of `MESSAGE_LIMIT` bytes or more, so
/// such a message is not accepted.
#[verifier::external_body]
pub(crate) fn hex_digest(message: &Vec<u8>) -> (text: String)
    requires
        message@.len() < MESSAGE_LIMIT,
    ensures
        text@ == sha256_hex(message@),
{
    let mut hasher = Sha256::new();
    hasher.input(message.as_slice());
    hasher.result_str()
}

} // verus!
