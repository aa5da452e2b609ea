//! FNV-1a hashing of datagram bodies and the eight-byte little-endian reply
//! that carries the hash back to the sender.

use std::hash::Hasher;
use vstd::prelude::*;
use vstd::bytes::{spec_u64_from_le_bytes, spec_u64_to_le_bytes, lemma_auto_spec_u64_to_from_le_bytes};

verus! {

/// The FNV-1a 64-bit offset basis: the state of a fresh hasher.
pub const FNV_OFFSET_BASIS: u64 = 0xcbf29ce484222325;

/// The FNV 64-bit prime.
pub const FNV_PRIME: u64 = 0x100000001b3;

/// One FNV-1a round: xor the byte into the state, then multiply by the prime
/// modulo 2^64.
pub open spec fn fnv1a_round(state: u64, byte: u8) -> u64 {
    ((state ^ (byte as u64)) * FNV_PRIME) as u64
}

/// The FNV-1a state reached from `state` after feeding `bytes` in order.
pub open spec fn fnv1a_from(state: u64, bytes: Seq<u8>) -> u64 {
    bytes.fold_left(state, |h: u64, b: u8| fnv1a_round(h, b))
}

/// The 64-bit FNV-1a hash of `bytes`.
pub open spec fn fnv1a(bytes: Seq<u8>) -> u64 {
    fnv1a_from(FNV_OFFSET_BASIS, bytes)
}

/// Hashes a body with `fnv::FnvHasher`: a default hasher, one `write` of the
/// whole body, then `finish`. The fnv crate starts from the offset basis and,
/// for each byte, xors it in and multiplies by the FNV prime with wrapping;
/// `finish` returns the state. This contract claims exactly that result.
#[verifier::external_body]
pub(crate) fn hash_incoming(body: &[u8]) -> (h: u64)
    ensures
        h == fnv1a(body@),
{
    let mut hasher = fnv::FnvHasher::default();
    hasher.write(body);
    hasher.finish()
}

/// The reply a forwarder sends for a datagram: the FNV-1a hash of its body,
/// as eight little-endian bytes.
pub open spec fn reply_bytes(body: Seq<u8>) -> Seq<u8> {
    spec_u64_to_le_bytes(fnv1a(body))
}

/// Computes the reply to a datagram whose payload is `body`.
pub fn hash_reply(body: &[u8]) -> (reply: Vec<u8>)
    ensures
        reply@ == reply_bytes(body@),
        reply@.len() == 8,
{
    let h = hash_incoming(body);
    vstd::bytes::u64_to_le_bytes(h)
}

/// A reply always has eight bytes, and reading them back as a little-endian
/// integer gives the FNV-1a hash of the body that was sent.
pub proof fn lemma_reply_carries_hash(body: Seq<u8>)
    ensures
        reply_bytes(body).len() == 8,
        spec_u64_from_le_bytes(reply_bytes(body)) == fnv1a(body),
{
    lemma_auto_spec_u64_to_from_le_bytes();
}

} // verus!
