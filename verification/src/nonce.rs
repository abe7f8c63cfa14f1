//! Per-frame nonce construction: a fixed per-epoch salt combined with the
//! frame's sequence number.

use vstd::prelude::*;
use crate::frame::{be_bytes_u64, lemma_be_u64_round_trip};

verus! {

/// Nonce width in bytes (96 bits).
pub const NONCE_LEN: usize = 12;

/// The nonce for sequence number `sn` under a 12-byte salt: the salt with
/// the eight big-endian bytes of `sn` folded into its low-order bytes by
/// exclusive or.
pub open spec fn spec_nonce(salt: Seq<u8>, sn: u64) -> Seq<u8> {
    Seq::new(
        12,
        |i: int|
            if i < 4 {
                salt[i]
            } else {
                salt[i] ^ be_bytes_u64(sn)[i - 4]
            },
    )
}

/// Builds the 96-bit nonce for `sn`: salt XOR the sequence number placed
/// big-endian in the low-order eight bytes, zero-extended elsewhere.
pub fn nonce(salt: &Vec<u8>, sn: u64) -> (r: Vec<u8>)
    requires
        salt@.len() == NONCE_LEN,
    ensures
        r@ == spec_nonce(salt@, sn),
        r@.len() == NONCE_LEN,
{
    let sn_bytes = sn_be_bytes(sn);
    let mut r: Vec<u8> = Vec::new();
    let mut i: usize = 0;
    while i < 4
        invariant
            i <= 4,
            salt@.len() == 12,
            r@.len() == i,
            forall|j: int| 0 <= j < i ==> r@[j] == spec_nonce(salt@, sn)[j],
        decreases 4 - i,
    {
        r.push(salt[i]);
        i = i + 1;
    }
    let mut k: usize = 0;
    while k < 8
        invariant
            k <= 8,
            salt@.len() == 12,
            sn_bytes@ == be_bytes_u64(sn),
            r@.len() == 4 + k,
            forall|j: int| 0 <= j < 4 + k ==> r@[j] == spec_nonce(salt@, sn)[j],
        decreases 8 - k,
    {
        r.push(salt[4 + k] ^ sn_bytes[k]);
        k = k + 1;
    }
    proof {
        assert(r@ =~= spec_nonce(salt@, sn));
    }
    r
}

/// The eight big-endian bytes of `sn` as a vector.
pub fn sn_be_bytes(sn: u64) -> (r: Vec<u8>)
    ensures
        r@ == be_bytes_u64(sn),
{
    let mut r: Vec<u8> = Vec::new();
    crate::frame::push_be_u64(&mut r, sn);
    r
}

/// Under one salt, distinct sequence numbers give distinct nonces: together
/// with a strictly increasing `sn` this is what keeps any (key, nonce) pair
/// from repeating.
pub proof fn lemma_nonce_injective(salt: Seq<u8>, sn1: u64, sn2: u64)
    requires
        salt.len() == NONCE_LEN,
        spec_nonce(salt, sn1) == spec_nonce(salt, sn2),
    ensures
        sn1 == sn2,
{
    let n1 = spec_nonce(salt, sn1);
    let n2 = spec_nonce(salt, sn2);
    assert forall|j: int| 0 <= j < 8 implies be_bytes_u64(sn1)[j] == be_bytes_u64(sn2)[j] by {
        assert(n1[j + 4] == n2[j + 4]);
        let s = salt[j + 4];
        let a = be_bytes_u64(sn1)[j];
        let b = be_bytes_u64(sn2)[j];
        assert(s ^ a == s ^ b ==> a == b) by (bit_vector);
    }
    lemma_be_u64_round_trip(sn1);
    lemma_be_u64_round_trip(sn2);
}

} // verus!
