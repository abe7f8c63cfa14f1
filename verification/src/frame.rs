//! Fixed-size binary frame header codec.
//!
//! The header is exactly 17 bytes, all multi-byte fields big-endian:
//! `version(1) | msg_type(1) | spi(4) | sn(8) | flags(1) | ad_len(2)`.

use vstd::prelude::*;
use crate::error::LadlsError;

verus! {

/// Protocol version written into every header built by [`LAdlsHeader::new`].
pub const PROTOCOL_VERSION: u8 = 1;

/// Encoded size of a frame header in bytes.
pub const HEADER_LEN: usize = 17;

/// The fixed frame header carried in clear at the front of every frame.
#[derive(Debug, Clone, Copy, PartialEq, Eq, Structural)]
pub struct LAdlsHeader {
    /// Protocol version; receivers reject versions they do not know.
    pub version: u8,
    /// 0 is a data frame; values at or above 128 are reserved for control.
    pub msg_type: u8,
    /// Security Association identifier.
    pub spi: u32,
    /// Per-direction monotonically increasing sequence number.
    pub sn: u64,
    /// Bit 0 advises that a rekey is imminent; other bits round-trip unchanged.
    pub flags: u8,
    /// Length of the associated data between header and ciphertext.
    pub ad_len: u16,
}

/// The two big-endian bytes of a `u16`, most significant first.
pub open spec fn be_bytes_u16(x: u16) -> Seq<u8> {
    seq![(x >> 8) as u8, x as u8]
}

/// The four big-endian bytes of a `u32`, most significant first.
pub open spec fn be_bytes_u32(x: u32) -> Seq<u8> {
    seq![(x >> 24) as u8, (x >> 16) as u8, (x >> 8) as u8, x as u8]
}

/// The eight big-endian bytes of a `u64`, most significant first.
pub open spec fn be_bytes_u64(x: u64) -> Seq<u8> {
    seq![
        (x >> 56) as u8,
        (x >> 48) as u8,
        (x >> 40) as u8,
        (x >> 32) as u8,
        (x >> 24) as u8,
        (x >> 16) as u8,
        (x >> 8) as u8,
        x as u8,
    ]
}

impl LAdlsHeader {
    /// The 17 encoded bytes of this header.
    pub open spec fn spec_encode(self) -> Seq<u8> {
        seq![self.version, self.msg_type] + be_bytes_u32(self.spi) + be_bytes_u64(self.sn)
            + seq![self.flags] + be_bytes_u16(self.ad_len)
    }

    /// Builds a header for the current protocol version.
    pub fn new(msg_type: u8, spi: u32, sn: u64, flags: u8, ad_len: u16) -> (h: Self)
        ensures
            h == (LAdlsHeader {
                version: PROTOCOL_VERSION,
                msg_type,
                spi,
                sn,
                flags,
                ad_len,
            }),
    {
        LAdlsHeader { version: PROTOCOL_VERSION, msg_type, spi, sn, flags, ad_len }
    }

    /// Encodes this header into its fixed 17-byte wire form. Deterministic,
    /// pure, and without a failure mode.
    pub fn encode(&self) -> (r: Vec<u8>)
        ensures
            r@ == self.spec_encode(),
            r@.len() == HEADER_LEN,
    {
        let mut buf: Vec<u8> = Vec::new();
        buf.push(self.version);
        buf.push(self.msg_type);
        push_be_u32(&mut buf, self.spi);
        push_be_u64(&mut buf, self.sn);
        buf.push(self.flags);
        push_be_u16(&mut buf, self.ad_len);
        proof {
            assert(buf@ =~= self.spec_encode());
        }
        buf
    }

    /// Reads the header back out of the first 17 bytes of a frame. Fails with
    /// `LadlsError::Parse` exactly when fewer than 17 bytes are given. Field
    /// semantics (version, spi) are not judged here; that is the session's job.
    pub fn decode(bytes: &[u8]) -> (r: Result<Self, LadlsError>)
        ensures
            bytes@.len() >= HEADER_LEN ==> r == Ok::<Self, LadlsError>(spec_decode_header(
                bytes@,
            )),
            bytes@.len() < HEADER_LEN ==> r == Err::<Self, LadlsError>(LadlsError::Parse),
    {
        if bytes.len() < HEADER_LEN {
            return Err(LadlsError::Parse);
        }
        let spi = read_be_u32(bytes, 2);
        let sn = read_be_u64(bytes, 6);
        let ad_len = read_be_u16(bytes, 15);
        let h = LAdlsHeader {
            version: bytes[0],
            msg_type: bytes[1],
            spi,
            sn,
            flags: bytes[14],
            ad_len,
        };
        proof {
            assert(h == spec_decode_header(bytes@));
        }
        Ok(h)
    }
}

/// The header whose encoding stands at the front of `bytes`; meaningful only
/// when `bytes` holds at least 17 bytes.
pub open spec fn spec_decode_header(bytes: Seq<u8>) -> LAdlsHeader {
    LAdlsHeader {
        version: bytes[0],
        msg_type: bytes[1],
        spi: be_u32_of(bytes[2], bytes[3], bytes[4], bytes[5]),
        sn: be_u64_of(
            bytes[6],
            bytes[7],
            bytes[8],
            bytes[9],
            bytes[10],
            bytes[11],
            bytes[12],
            bytes[13],
        ),
        flags: bytes[14],
        ad_len: be_u16_of(bytes[15], bytes[16]),
    }
}

/// The `u16` whose big-endian bytes are `b0 b1`.
pub open spec fn be_u16_of(b0: u8, b1: u8) -> u16 {
    ((b0 as u16) << 8) | (b1 as u16)
}

/// The `u32` whose big-endian bytes are `b0 b1 b2 b3`.
pub open spec fn be_u32_of(b0: u8, b1: u8, b2: u8, b3: u8) -> u32 {
    ((b0 as u32) << 24) | ((b1 as u32) << 16) | ((b2 as u32) << 8) | (b3 as u32)
}

/// The `u64` whose big-endian bytes are `b0 .. b7`.
pub open spec fn be_u64_of(b0: u8, b1: u8, b2: u8, b3: u8, b4: u8, b5: u8, b6: u8, b7: u8) -> u64 {
    ((b0 as u64) << 56) | ((b1 as u64) << 48) | ((b2 as u64) << 40) | ((b3 as u64) << 32) | (
    (b4 as u64) << 24) | ((b5 as u64) << 16) | ((b6 as u64) << 8) | (b7 as u64)
}

/// Appends the two big-endian bytes of `x`.
pub fn push_be_u16(buf: &mut Vec<u8>, x: u16)
    ensures
        final(buf)@ == old(buf)@ + be_bytes_u16(x),
{
    assert((x >> 8) < 256 && (x & 0xff) < 256) by (bit_vector);
    assert(x as u8 == (x & 0xff) as u8) by (bit_vector);
    buf.push((x >> 8) as u8);
    buf.push((x & 0xff) as u8);
    proof {
        assert(final(buf)@ =~= old(buf)@ + be_bytes_u16(x));
    }
}

/// Appends the four big-endian bytes of `x`.
pub fn push_be_u32(buf: &mut Vec<u8>, x: u32)
    ensures
        final(buf)@ == old(buf)@ + be_bytes_u32(x),
{
    assert((x >> 24) < 256 && ((x >> 16) & 0xff) < 256 && ((x >> 8) & 0xff) < 256 && (x & 0xff)
        < 256) by (bit_vector);
    assert(((x >> 16) & 0xff) as u8 == (x >> 16) as u8 && ((x >> 8) & 0xff) as u8 == (x >> 8) as u8
        && (x & 0xff) as u8 == x as u8) by (bit_vector);
    buf.push((x >> 24) as u8);
    buf.push(((x >> 16) & 0xff) as u8);
    buf.push(((x >> 8) & 0xff) as u8);
    buf.push((x & 0xff) as u8);
    proof {
        assert(final(buf)@ =~= old(buf)@ + be_bytes_u32(x));
    }
}

/// Appends the eight big-endian bytes of `x`.
pub fn push_be_u64(buf: &mut Vec<u8>, x: u64)
    ensures
        final(buf)@ == old(buf)@ + be_bytes_u64(x),
{
    assert((x >> 56) < 256 && ((x >> 48) & 0xff) < 256 && ((x >> 40) & 0xff) < 256 && ((x >> 32)
        & 0xff) < 256 && ((x >> 24) & 0xff) < 256 && ((x >> 16) & 0xff) < 256 && ((x >> 8) & 0xff)
        < 256 && (x & 0xff) < 256) by (bit_vector);
    assert(((x >> 48) & 0xff) as u8 == (x >> 48) as u8 && ((x >> 40) & 0xff) as u8 == (x >> 40) as u8
        && ((x >> 32) & 0xff) as u8 == (x >> 32) as u8 && ((x >> 24) & 0xff) as u8 == (x
        >> 24) as u8 && ((x >> 16) & 0xff) as u8 == (x >> 16) as u8 && ((x >> 8) & 0xff) as u8 == (x
        >> 8) as u8 && (x & 0xff) as u8 == x as u8) by (bit_vector);
    buf.push((x >> 56) as u8);
    buf.push(((x >> 48) & 0xff) as u8);
    buf.push(((x >> 40) & 0xff) as u8);
    buf.push(((x >> 32) & 0xff) as u8);
    buf.push(((x >> 24) & 0xff) as u8);
    buf.push(((x >> 16) & 0xff) as u8);
    buf.push(((x >> 8) & 0xff) as u8);
    buf.push((x & 0xff) as u8);
    proof {
        assert(final(buf)@ =~= old(buf)@ + be_bytes_u64(x));
    }
}

/// Reads the big-endian `u16` at `at`.
pub fn read_be_u16(bytes: &[u8], at: usize) -> (r: u16)
    requires
        at + 2 <= bytes@.len(),
    ensures
        r == be_u16_of(bytes@[at as int], bytes@[at + 1]),
{
    ((bytes[at] as u16) << 8) | (bytes[at + 1] as u16)
}

/// Reads the big-endian `u32` at `at`.
pub fn read_be_u32(bytes: &[u8], at: usize) -> (r: u32)
    requires
        at + 4 <= bytes@.len(),
    ensures
        r == be_u32_of(bytes@[at as int], bytes@[at + 1], bytes@[at + 2], bytes@[at + 3]),
{
    ((bytes[at] as u32) << 24) | ((bytes[at + 1] as u32) << 16) | ((bytes[at + 2] as u32) << 8) | (
    bytes[at + 3] as u32)
}

/// Reads the big-endian `u64` at `at`.
pub fn read_be_u64(bytes: &[u8], at: usize) -> (r: u64)
    requires
        at + 8 <= bytes@.len(),
    ensures
        r == be_u64_of(
            bytes@[at as int],
            bytes@[at + 1],
            bytes@[at + 2],
            bytes@[at + 3],
            bytes@[at + 4],
            bytes@[at + 5],
            bytes@[at + 6],
            bytes@[at + 7],
        ),
{
    ((bytes[at] as u64) << 56) | ((bytes[at + 1] as u64) << 48) | ((bytes[at + 2] as u64) << 40) | (
    (bytes[at + 3] as u64) << 32) | ((bytes[at + 4] as u64) << 24) | ((bytes[at + 5] as u64) << 16)
        | ((bytes[at + 6] as u64) << 8) | (bytes[at + 7] as u64)
}

/// Reading a header back out of its own encoding gives the header back:
/// the codec is the identity round trip for every field value.
pub proof fn lemma_header_round_trip(h: LAdlsHeader)
    ensures
        spec_decode_header(h.spec_encode()) == h,
{
    let e = h.spec_encode();
    assert(e[2] == (h.spi >> 24) as u8 && e[3] == (h.spi >> 16) as u8 && e[4] == (h.spi >> 8) as u8
        && e[5] == h.spi as u8);
    lemma_be_u32_round_trip(h.spi);
    lemma_be_u64_round_trip(h.sn);
    lemma_be_u16_round_trip(h.ad_len);
}

/// Recombining the two big-endian bytes of a `u16` gives it back.
pub proof fn lemma_be_u16_round_trip(x: u16)
    ensures
        be_u16_of((x >> 8) as u8, x as u8) == x,
{
    assert((((x >> 8) as u8 as u16) << 8) | (x as u8 as u16) == x) by (bit_vector);
}

/// Recombining the four big-endian bytes of a `u32` gives it back.
pub proof fn lemma_be_u32_round_trip(x: u32)
    ensures
        be_u32_of((x >> 24) as u8, (x >> 16) as u8, (x >> 8) as u8, x as u8) == x,
{
    assert((((x >> 24) as u8 as u32) << 24) | (((x >> 16) as u8 as u32) << 16) | (((x
        >> 8) as u8 as u32) << 8) | (x as u8 as u32) == x) by (bit_vector);
}

/// Recombining the eight big-endian bytes of a `u64` gives it back.
pub proof fn lemma_be_u64_round_trip(x: u64)
    ensures
        be_u64_of(
            (x >> 56) as u8,
            (x >> 48) as u8,
            (x >> 40) as u8,
            (x >> 32) as u8,
            (x >> 24) as u8,
            (x >> 16) as u8,
            (x >> 8) as u8,
            x as u8,
        ) == x,
{
    assert((((x >> 56) as u8 as u64) << 56) | (((x >> 48) as u8 as u64) << 48) | (((x
        >> 40) as u8 as u64) << 40) | (((x >> 32) as u8 as u64) << 32) | (((x
        >> 24) as u8 as u64) << 24) | (((x >> 16) as u8 as u64) << 16) | (((x
        >> 8) as u8 as u64) << 8) | (x as u8 as u64) == x) by (bit_vector);
}

} // verus!
