//! Seeds for the draw, derived from a timestamp.
//!
//! The host reads its clock and hands the timestamp over; the seed is the
//! first eight bytes, read little-endian, of the SHA-256 digest of the
//! timestamp's eight big-endian bytes. Whoever can steer the timestamp can
//! steer the seed: the draw takes any `u64`, so a host with a better
//! source of randomness passes its own.

use vstd::prelude::*;

verus! {

/// The SHA-256 digest of a byte string.
pub uninterp spec fn sha256(data: Seq<u8>) -> Seq<u8>;

/// Hashes `data` with `anchor_lang::solana_program::hash::hash` and returns
/// the digest's bytes (`Hash::to_bytes`). Trusted: the result is taken to
/// be the SHA-256 digest of `data`, which is what that function computes,
/// and depends on `data` alone.
#[verifier::external_body]
fn sha256_digest(data: &[u8]) -> (digest: [u8; 32])
    ensures
        digest@ == sha256(data@),
{
    anchor_lang::solana_program::hash::hash(data).to_bytes()
}

/// A signed 64-bit number as the unsigned number with the same bits.
pub open spec fn twos_complement(t: i64) -> nat {
    if t >= 0 {
        t as nat
    } else {
        (t + 0x1_0000_0000_0000_0000) as nat
    }
}

/// The eight bytes of `t` in two's complement, most significant first.
pub open spec fn be_bytes(t: i64) -> Seq<u8> {
    let u = twos_complement(t);
    seq![
        (u / 0x100_0000_0000_0000 % 256) as u8,
        (u / 0x1_0000_0000_0000 % 256) as u8,
        (u / 0x100_0000_0000 % 256) as u8,
        (u / 0x1_0000_0000 % 256) as u8,
        (u / 0x100_0000 % 256) as u8,
        (u / 0x1_0000 % 256) as u8,
        (u / 0x100 % 256) as u8,
        (u % 256) as u8,
    ]
}

/// The number that the first eight bytes of `bytes` spell, least
/// significant first.
pub open spec fn le_u64(bytes: Seq<u8>) -> nat {
    (bytes[0] + bytes[1] * 0x100 + bytes[2] * 0x1_0000 + bytes[3] * 0x100_0000 + bytes[4]
        * 0x1_0000_0000 + bytes[5] * 0x100_0000_0000 + bytes[6] * 0x1_0000_0000_0000 + bytes[7]
        * 0x100_0000_0000_0000) as nat
}

/// The seed that a timestamp gives.
pub open spec fn timestamp_seed(unix_timestamp: i64) -> nat {
    le_u64(sha256(be_bytes(unix_timestamp)))
}

/// The eight big-endian bytes of a timestamp.
pub fn timestamp_bytes(unix_timestamp: i64) -> (bytes: [u8; 8])
    ensures
        bytes@ == be_bytes(unix_timestamp),
{
    let u: u64 = if unix_timestamp >= 0 {
        unix_timestamp as u64
    } else {
        ((unix_timestamp + i64::MAX) + 1) as u64 + 0x8000_0000_0000_0000
    };
    assert(u == twos_complement(unix_timestamp));
    let bytes: [u8; 8] = [
        (u / 0x100_0000_0000_0000 % 256) as u8,
        (u / 0x1_0000_0000_0000 % 256) as u8,
        (u / 0x100_0000_0000 % 256) as u8,
        (u / 0x1_0000_0000 % 256) as u8,
        (u / 0x100_0000 % 256) as u8,
        (u / 0x1_0000 % 256) as u8,
        (u / 0x100 % 256) as u8,
        (u % 256) as u8,
    ];
    assert(bytes@ =~= be_bytes(unix_timestamp));
    bytes
}

/// Reads a seed off a digest: its first eight bytes, least significant
/// first.
pub fn seed_from_digest(digest: &[u8; 32]) -> (seed: u64)
    ensures
        seed == le_u64(digest@),
{
    let b0: u64 = digest[0] as u64;
    let b1: u64 = digest[1] as u64;
    let b2: u64 = digest[2] as u64;
    let b3: u64 = digest[3] as u64;
    let b4: u64 = digest[4] as u64;
    let b5: u64 = digest[5] as u64;
    let b6: u64 = digest[6] as u64;
    let b7: u64 = digest[7] as u64;
    b0 + b1 * 0x100 + b2 * 0x1_0000 + b3 * 0x100_0000 + b4 * 0x1_0000_0000 + b5 * 0x100_0000_0000
        + b6 * 0x1_0000_0000_0000 + b7 * 0x100_0000_0000_0000
}

/// Derives the seed of a draw from the host's timestamp.
pub fn seed_from_timestamp(unix_timestamp: i64) -> (seed: u64)
    ensures
        seed == timestamp_seed(unix_timestamp),
{
    let bytes = timestamp_bytes(unix_timestamp);
    let digest = sha256_digest(bytes.as_slice());
    seed_from_digest(&digest)
}

} // verus!
