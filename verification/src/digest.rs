//! The two computations that the opening handshake takes from other
//! crates: the SHA-1 digest of a message and the base64 text of a digest.
//! Their results are named here, not defined: what is proved of the
//! handshake holds for the values these crates compute.

use vstd::prelude::*;
use crypto::digest::Digest;
use crypto::sha1::Sha1;
use rustc_serialize::base64::{ToBase64, STANDARD};

verus! {

/// The 20 bytes of the SHA-1 digest of `data`.
pub uninterp spec fn sha1_digest(data: Seq<u8>) -> Seq<u8>;

/// The base64 text of `data`: standard alphabet, padded with `=`, without
/// line breaks.
pub uninterp spec fn base64_standard(data: Seq<u8>) -> Seq<char>;

/// The length from which on a message is too long for SHA-1, which counts
/// the message's bits in 64 bits: 2 to the power 61 bytes.
pub const SHA1_INPUT_LIMIT: u64 = 0x2000_0000_0000_0000;

/// `Sha1` of the crate `crypto`, fed once with `data` and asked for its
/// result: the SHA-1 digest of `data`. The hasher panics on a message of
/// 2 to the power 61 bytes or more, so such a message is not accepted.
#[verifier::external_body]
pub(crate) fn sha1(data: &[u8]) -> (digest: [u8; 20])
    requires
        data@.len() < SHA1_INPUT_LIMIT,
    ensures
        digest@ == sha1_digest(data@),
{
    let mut hasher = Sha1::new();
    hasher.input(data);
    let mut digest = [0u8; 20];
    hasher.result(&mut digest);
    digest
}

/// `to_base64` of the crate `rustc_serialize`, with its `STANDARD`
/// configuration: the base64 text of the 20 bytes of a digest.
#[verifier::external_body]
pub(crate) fn base64(digest: &[u8; 20]) -> (text: String)
    ensures
        text@ == base64_standard(digest@),
{
    digest[..].to_base64(STANDARD)
}

} // verus!
