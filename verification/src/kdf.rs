//! Key derivation: independent per-direction traffic keys and a per-epoch
//! nonce salt, all expanded from the shared master secret.

use vstd::prelude::*;
use crate::frame::{be_bytes_u32, push_be_u32};

verus! {

/// Info label selecting the forward traffic key (the one a paired
/// transmit/receive session pair shares).
pub const LABEL_KEY_FORWARD: u8 = 0;

/// Info label selecting the reverse traffic key, for the opposite
/// direction's session pair, so the two directions get independent keys.
pub const LABEL_KEY_REVERSE: u8 = 1;

/// Info label selecting the per-epoch nonce salt.
pub const LABEL_SALT: u8 = 2;

/// Key width in bytes (256 bits).
pub const KEY_LEN: usize = 32;

/// What HKDF-SHA-256 expands `ikm` to under `info`, truncated or grown to
/// `n` bytes. A pure function of its arguments: both peers derive the same
/// keys from the same inputs without exchanging them.
pub uninterp spec fn hkdf_of(ikm: Seq<u8>, info: Seq<u8>, n: nat) -> Seq<u8>;

/// Relies on hkdf's `Hkdf::<Sha256>::new` and `expand`: deterministic
/// HKDF-SHA-256 output of `n` bytes; `expand` only fails for requests over
/// 255 hash lengths (8160 bytes), which the precondition rules out.
#[verifier::external_body]
fn hkdf_expand(ikm: &Vec<u8>, info: &Vec<u8>, n: usize) -> (r: Vec<u8>)
    requires
        n <= 8160,
    ensures
        r@ == hkdf_of(ikm@, info@, n as nat),
        r@.len() == n,
{
    let hk = hkdf::Hkdf::<sha2::Sha256>::new(None, ikm.as_slice());
    let mut okm = vec![0u8; n];
    hk.expand(info.as_slice(), &mut okm).unwrap();
    okm
}

/// The HKDF info bytes for one (spi, epoch, label) triple: distinct labels
/// give distinct info, so derived keys are independent.
pub open spec fn spec_info(spi: u32, epoch: u32, label: u8) -> Seq<u8> {
    be_bytes_u32(spi) + be_bytes_u32(epoch) + seq![label]
}

/// The derived key material for one (master, spi, epoch, label) choice.
pub open spec fn spec_derived(master: Seq<u8>, spi: u32, epoch: u32, label: u8, n: nat) -> Seq<
    u8,
> {
    hkdf_of(master, spec_info(spi, epoch, label), n)
}

/// Builds the info bytes for `label`.
fn info_bytes(spi: u32, epoch: u32, label: u8) -> (r: Vec<u8>)
    ensures
        r@ == spec_info(spi, epoch, label),
{
    let mut r: Vec<u8> = Vec::new();
    push_be_u32(&mut r, spi);
    push_be_u32(&mut r, epoch);
    r.push(label);
    proof {
        assert(r@ =~= spec_info(spi, epoch, label));
    }
    r
}

/// Derives the two independent direction keys and the nonce salt for one
/// epoch of an association. Deterministic in all arguments, so both peers
/// compute identical keys.
pub fn derive_keys(master_secret: &Vec<u8>, spi: u32, epoch: u32) -> (r: (Vec<u8>, Vec<u8>, Vec<
    u8,
>))
    ensures
        r.0@ == spec_derived(master_secret@, spi, epoch, LABEL_KEY_FORWARD, KEY_LEN as nat),
        r.1@ == spec_derived(master_secret@, spi, epoch, LABEL_KEY_REVERSE, KEY_LEN as nat),
        r.2@ == spec_derived(
            master_secret@,
            spi,
            epoch,
            LABEL_SALT,
            crate::nonce::NONCE_LEN as nat,
        ),
        r.0@.len() == KEY_LEN,
        r.1@.len() == KEY_LEN,
        r.2@.len() == crate::nonce::NONCE_LEN,
{
    let tx_key = hkdf_expand(master_secret, &info_bytes(spi, epoch, LABEL_KEY_FORWARD), KEY_LEN);
    let rx_key = hkdf_expand(master_secret, &info_bytes(spi, epoch, LABEL_KEY_REVERSE), KEY_LEN);
    let salt = hkdf_expand(
        master_secret,
        &info_bytes(spi, epoch, LABEL_SALT),
        crate::nonce::NONCE_LEN,
    );
    (tx_key, rx_key, salt)
}

} // verus!
