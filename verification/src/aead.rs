//! AEAD engine: seals and opens a plaintext / associated-data pair under a
//! 256-bit key and 96-bit nonce, with a 16-byte authentication tag.

use vstd::prelude::*;
use chacha20poly1305::aead::{Aead, KeyInit, Payload};
use chacha20poly1305::ChaCha20Poly1305;
use crate::error::LadlsError;
use crate::kdf::KEY_LEN;
use crate::nonce::NONCE_LEN;

verus! {

/// Authentication tag width in bytes.
pub const TAG_LEN: usize = 16;

/// Largest plaintext this library seals in one frame; comfortably below the
/// cipher's own limit, so sealing a plaintext this size or smaller cannot
/// fail.
pub const SEAL_MAX: usize = 0xFFFF_FFFF;

/// The byte ChaCha20-Poly1305 puts at position `i` of its output for one
/// (key, nonce, plaintext, associated data) choice. A pure function of its
/// arguments; stated only through this name.
pub uninterp spec fn sealed_byte_of(
    key: Seq<u8>,
    nonce: Seq<u8>,
    plaintext: Seq<u8>,
    ad: Seq<u8>,
    i: int,
) -> u8;

/// What ChaCha20-Poly1305 produces for one (key, nonce, plaintext,
/// associated data) choice: ciphertext followed by the 16-byte tag, one
/// output byte per plaintext byte plus the tag.
pub open spec fn seal_of(key: Seq<u8>, nonce: Seq<u8>, plaintext: Seq<u8>, ad: Seq<u8>) -> Seq<
    u8,
> {
    Seq::new((plaintext.len() + TAG_LEN) as nat, |i: int| sealed_byte_of(key, nonce, plaintext, ad, i))
}

/// Relies on chacha20poly1305's `encrypt` (via the `aead::Aead` trait):
/// deterministic authenticated encryption whose output is the ciphertext
/// with a postfix 16-byte tag, one output byte per plaintext byte plus the
/// tag; it only refuses plaintexts far larger than `SEAL_MAX`.
#[verifier::external_body]
fn aead_seal_raw(key: &Vec<u8>, nonce12: &Vec<u8>, plaintext: &Vec<u8>, ad: &Vec<u8>) -> (r: Option<
    Vec<u8>,
>)
    requires
        key@.len() == KEY_LEN,
        nonce12@.len() == NONCE_LEN,
    ensures
        plaintext@.len() <= SEAL_MAX ==> r is Some,
        r is Some ==> r->0@ == seal_of(key@, nonce12@, plaintext@, ad@) && r->0@.len()
            == plaintext@.len() + TAG_LEN,
        r is Some ==> forall|i: int|
            0 <= i < r->0@.len() ==> r->0@[i] == sealed_byte_of(key@, nonce12@, plaintext@, ad@, i),
{
    let k = chacha20poly1305::Key::try_from(key.as_slice()).ok()?;
    let n = chacha20poly1305::Nonce::try_from(nonce12.as_slice()).ok()?;
    let cipher = ChaCha20Poly1305::new(&k);
    cipher.encrypt(&n, Payload { msg: plaintext.as_slice(), aad: ad.as_slice() }).ok()
}

/// Relies on chacha20poly1305's `decrypt` (via the `aead::Aead` trait):
/// deterministic authenticated decryption. It succeeds exactly on the
/// outputs of `encrypt` under the same key, nonce and associated data, and
/// then returns the plaintext that was sealed; on success the input was the
/// plaintext plus the 16-byte postfix tag. The cipher itself accepts far
/// longer messages than this library ever seals, so the caller keeps
/// ciphertexts beyond a `SEAL_MAX` plaintext away from this wrapper and its
/// success bound.
#[verifier::external_body]
fn aead_open_raw(key: &Vec<u8>, nonce12: &Vec<u8>, ciphertext: &Vec<u8>, ad: &Vec<u8>) -> (r:
    Option<Vec<u8>>)
    requires
        key@.len() == KEY_LEN,
        nonce12@.len() == NONCE_LEN,
        ciphertext@.len() <= SEAL_MAX + TAG_LEN,
    ensures
        forall|p: Seq<u8>|
            p.len() <= SEAL_MAX && ciphertext@ == seal_of(key@, nonce12@, p, ad@) ==> r is Some
                && r->0@ == p,
        r is Some ==> ciphertext@ == seal_of(key@, nonce12@, r->0@, ad@) && r->0@.len() + TAG_LEN
            == ciphertext@.len() && r->0@.len() <= SEAL_MAX,
{
    let k = chacha20poly1305::Key::try_from(key.as_slice()).ok()?;
    let n = chacha20poly1305::Nonce::try_from(nonce12.as_slice()).ok()?;
    let cipher = ChaCha20Poly1305::new(&k);
    cipher.decrypt(&n, Payload { msg: ciphertext.as_slice(), aad: ad.as_slice() }).ok()
}

/// Seals `plaintext` with `ad` bound into the tag. Succeeds exactly when the
/// key and nonce are well-sized and the plaintext is at most `SEAL_MAX`
/// bytes; the output is the ciphertext-and-tag named by `seal_of`.
pub fn seal(key: &Vec<u8>, nonce: &Vec<u8>, plaintext: &Vec<u8>, ad: &Vec<u8>) -> (r: Result<
    Vec<u8>,
    LadlsError,
>)
    ensures
        r is Ok <==> (key@.len() == KEY_LEN && nonce@.len() == NONCE_LEN && plaintext@.len()
            <= SEAL_MAX),
        r is Ok ==> r->Ok_0@ == seal_of(key@, nonce@, plaintext@, ad@) && r->Ok_0@.len()
            == plaintext@.len() + TAG_LEN,
        r is Err ==> r == Err::<Vec<u8>, LadlsError>(LadlsError::Parse),
{
    if key.len() != KEY_LEN || nonce.len() != NONCE_LEN || plaintext.len() > SEAL_MAX {
        return Err(LadlsError::Parse);
    }
    match aead_seal_raw(key, nonce, plaintext, ad) {
        Some(c) => Ok(c),
        None => {
            proof {
                assert(false);
            }
            Err(LadlsError::Parse)
        },
    }
}

/// Opens a ciphertext-and-tag. Succeeds exactly when the key and nonce are
/// well-sized and the input is the seal of some plaintext under them with
/// this associated data; every failure is the one opaque
/// `AuthenticationFailed`, so the error never becomes a verification
/// oracle.
pub fn open(key: &Vec<u8>, nonce: &Vec<u8>, ciphertext: &Vec<u8>, ad: &Vec<u8>) -> (r: Result<
    Vec<u8>,
    LadlsError,
>)
    ensures
        r is Ok <==> (key@.len() == KEY_LEN && nonce@.len() == NONCE_LEN && (exists|p: Seq<u8>|
            p.len() <= SEAL_MAX && ciphertext@ == seal_of(key@, nonce@, p, ad@))),
        r is Ok ==> ciphertext@ == seal_of(key@, nonce@, r->Ok_0@, ad@) && r->Ok_0@.len() + TAG_LEN
            == ciphertext@.len() && r->Ok_0@.len() <= SEAL_MAX,
        r is Ok ==> (forall|p: Seq<u8>|
            p.len() <= SEAL_MAX && ciphertext@ == seal_of(key@, nonce@, p, ad@) ==> r->Ok_0@ == p),
        r is Err ==> r == Err::<Vec<u8>, LadlsError>(LadlsError::AuthenticationFailed),
{
    if key.len() != KEY_LEN || nonce.len() != NONCE_LEN {
        return Err(LadlsError::AuthenticationFailed);
    }
    if ciphertext.len() as u64 > SEAL_MAX as u64 + TAG_LEN as u64 {
        proof {
            assert forall|p: Seq<u8>|
                !(p.len() <= SEAL_MAX && ciphertext@ == seal_of(key@, nonce@, p, ad@)) by {
                if p.len() <= SEAL_MAX {
                    assert(seal_of(key@, nonce@, p, ad@).len() == p.len() + TAG_LEN);
                }
            }
        }
        return Err(LadlsError::AuthenticationFailed);
    }
    match aead_open_raw(key, nonce, ciphertext, ad) {
        Some(p) => Ok(p),
        None => Err(LadlsError::AuthenticationFailed),
    }
}

} // verus!
