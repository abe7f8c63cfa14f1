//! One direction of traffic for one Security Association: `seal` on the
//! transmit side, `open` with anti-replay protection on the receive side.

use vstd::prelude::*;
use vstd::slice::{slice_subrange, slice_to_vec};
use crate::aead;
use crate::aead::{seal_of, SEAL_MAX, TAG_LEN};
use crate::error::LadlsError;
use crate::frame::{spec_decode_header, LAdlsHeader, HEADER_LEN, PROTOCOL_VERSION};
use crate::kdf;
use crate::kdf::{spec_derived, KEY_LEN, LABEL_KEY_FORWARD, LABEL_KEY_REVERSE, LABEL_SALT};
use crate::nonce::{nonce, spec_nonce, NONCE_LEN};
use crate::sa::SecurityAssociation;
use crate::window::ReplayWindow;

verus! {

/// Largest associated-data length a frame can carry (its header field is
/// 16 bits wide).
pub const AD_MAX: usize = 0xFFFF;

/// `sn + 1`, wrapping to 0 at the top of the range.
pub open spec fn wrap_inc(sn: u64) -> u64 {
    if sn == u64::MAX {
        0
    } else {
        (sn + 1) as u64
    }
}

/// The header encoded at the front of `frame`; meaningful when `frame`
/// holds at least 17 bytes.
pub open spec fn frame_header(frame: Seq<u8>) -> LAdlsHeader {
    spec_decode_header(frame)
}

/// The associated data carried between header and ciphertext.
pub open spec fn frame_ad(frame: Seq<u8>) -> Seq<u8> {
    frame.subrange(HEADER_LEN as int, HEADER_LEN + frame_header(frame).ad_len)
}

/// The bytes the tag authenticates: the header and the associated data.
pub open spec fn frame_aad(frame: Seq<u8>) -> Seq<u8> {
    frame.subrange(0, HEADER_LEN + frame_header(frame).ad_len)
}

/// The ciphertext-and-tag at the back of the frame.
pub open spec fn frame_ct(frame: Seq<u8>) -> Seq<u8> {
    frame.subrange(HEADER_LEN + frame_header(frame).ad_len, frame.len() as int)
}

/// A frame parses when it holds a full header of the version this library
/// speaks and is long enough for its declared associated data and a tag.
pub open spec fn frame_parse_ok(frame: Seq<u8>) -> bool {
    &&& frame.len() >= HEADER_LEN
    &&& frame_header(frame).version == PROTOCOL_VERSION
    &&& frame.len() >= HEADER_LEN + frame_header(frame).ad_len + TAG_LEN
}

/// One direction of a tunnel. A transmit session only seals; a receive
/// session only opens, tracking replay state in its window. Callers
/// serialize access per session; the two directions of one association are
/// independent.
#[derive(Debug)]
pub struct Session {
    /// The association this session belongs to.
    pub sa: SecurityAssociation,
    /// Transmit sequence counter: used then incremented by each `seal`.
    pub sn: u64,
    /// Derived direction key (the forward key of the pair).
    pub key: Vec<u8>,
    /// Derived per-epoch nonce salt.
    pub salt: Vec<u8>,
    /// Anti-replay state, meaningful on the receive side.
    pub window: ReplayWindow,
    /// Whether this session was created as the transmit side.
    pub is_tx: bool,
    /// Whether this session carries the reverse direction of the
    /// association, keyed independently of the forward direction.
    pub reverse: bool,
    /// Advisory flag set by [`Session::request_rekey`].
    pub rekey_requested: bool,
}

impl Session {
    /// The info label of this session's direction key.
    pub open spec fn spec_key_label(self) -> u8 {
        if self.reverse {
            LABEL_KEY_REVERSE
        } else {
            LABEL_KEY_FORWARD
        }
    }

    /// Key material is exactly what the KDF derives for this association
    /// and direction.
    pub open spec fn wf(self) -> bool {
        &&& self.key@ == spec_derived(
            self.sa.master_secret@,
            self.sa.spi,
            self.sa.epoch,
            self.spec_key_label(),
            KEY_LEN as nat,
        )
        &&& self.salt@ == spec_derived(
            self.sa.master_secret@,
            self.sa.spi,
            self.sa.epoch,
            LABEL_SALT,
            NONCE_LEN as nat,
        )
        &&& self.key@.len() == KEY_LEN
        &&& self.salt@.len() == NONCE_LEN
    }

    /// Both sessions hold the same association state and carry the same
    /// direction, so they derive the same keys.
    pub open spec fn paired_with(self, other: Session) -> bool {
        &&& self.sa.master_secret@ == other.sa.master_secret@
        &&& self.sa.spi == other.sa.spi
        &&& self.sa.epoch == other.sa.epoch
        &&& self.reverse == other.reverse
    }

    /// The header `seal` writes for the current state.
    pub open spec fn spec_header(self, msg_type: u8, ad_len: u16) -> LAdlsHeader {
        LAdlsHeader {
            version: PROTOCOL_VERSION,
            msg_type,
            spi: self.sa.spi,
            sn: self.sn,
            flags: 0,
            ad_len,
        }
    }

    /// The whole frame `seal` produces from the current state:
    /// `header | associated data | ciphertext-and-tag`, the tag bound to
    /// header and associated data both.
    pub open spec fn spec_sealed_frame(self, msg_type: u8, ad: Seq<u8>, pt: Seq<u8>) -> Seq<u8> {
        let hb = self.spec_header(msg_type, ad.len() as u16).spec_encode();
        hb + ad + seal_of(self.key@, spec_nonce(self.salt@, self.sn), pt, hb + ad)
    }

    /// The state after one `seal`: the sequence number is consumed whether
    /// or not the seal succeeded.
    pub open spec fn spec_next(self) -> Session {
        Session { sn: wrap_inc(self.sn), ..self }
    }

    /// The ciphertext authenticates under this session's key and the
    /// frame's own sequence number.
    pub open spec fn spec_auth_ok(self, frame: Seq<u8>) -> bool {
        exists|p: Seq<u8>|
            p.len() <= SEAL_MAX && frame_ct(frame) == seal_of(
                self.key@,
                spec_nonce(self.salt@, frame_header(frame).sn),
                p,
                frame_aad(frame),
            )
    }

    /// Exactly when `open` accepts `frame`: it parses, its sequence number
    /// passes the window, and its tag verifies.
    pub open spec fn spec_open_ok(self, frame: Seq<u8>) -> bool {
        &&& frame_parse_ok(frame)
        &&& self.window.spec_accepts(frame_header(frame).sn)
        &&& self.spec_auth_ok(frame)
    }

    /// What an accepted `open` hands back: the frame's own header and
    /// associated data, and the one plaintext whose seal the ciphertext is.
    pub open spec fn spec_open_result(
        self,
        frame: Seq<u8>,
        h: LAdlsHeader,
        ad: Seq<u8>,
        pt: Seq<u8>,
    ) -> bool {
        &&& h == frame_header(frame)
        &&& ad == frame_ad(frame)
        &&& pt.len() <= SEAL_MAX
        &&& frame_ct(frame) == seal_of(self.key@, spec_nonce(self.salt@, h.sn), pt, frame_aad(frame))
        &&& forall|p: Seq<u8>|
            p.len() <= SEAL_MAX && frame_ct(frame) == seal_of(
                self.key@,
                spec_nonce(self.salt@, h.sn),
                p,
                frame_aad(frame),
            ) ==> pt == p
    }

    /// A transmit session for the forward direction of `sa`, with the
    /// sequence counter at 0.
    pub fn new_tx(sa: SecurityAssociation) -> (s: Session)
        ensures
            s.wf(),
            s.sa == sa,
            s.sn == 0,
            s.window == (ReplayWindow { highest_seen: 0, window_bitmap: 0 }),
            s.is_tx,
            !s.reverse,
            !s.rekey_requested,
    {
        let (key, _rx_key, salt) = kdf::derive_keys(&sa.master_secret, sa.spi, sa.epoch);
        Session {
            sa,
            sn: 0,
            key,
            salt,
            window: ReplayWindow::new(),
            is_tx: true,
            reverse: false,
            rekey_requested: false,
        }
    }

    /// A receive session for the forward direction of `sa`, paired with
    /// [`Session::new_tx`] on the same association: it opens what that
    /// session seals.
    pub fn new_rx(sa: SecurityAssociation) -> (s: Session)
        ensures
            s.wf(),
            s.sa == sa,
            s.sn == 0,
            s.window == (ReplayWindow { highest_seen: 0, window_bitmap: 0 }),
            !s.is_tx,
            !s.reverse,
            !s.rekey_requested,
    {
        let (key, _rx_key, salt) = kdf::derive_keys(&sa.master_secret, sa.spi, sa.epoch);
        Session {
            sa,
            sn: 0,
            key,
            salt,
            window: ReplayWindow::new(),
            is_tx: false,
            reverse: false,
            rekey_requested: false,
        }
    }

    /// A transmit session for the reverse direction of `sa`, keyed
    /// independently of the forward direction so full-duplex traffic on
    /// one association never reuses a (key, nonce) pair. One peer builds
    /// `new_tx` and `new_rx_reverse`; its counterpart builds
    /// `new_tx_reverse` and `new_rx`.
    pub fn new_tx_reverse(sa: SecurityAssociation) -> (s: Session)
        ensures
            s.wf(),
            s.sa == sa,
            s.sn == 0,
            s.window == (ReplayWindow { highest_seen: 0, window_bitmap: 0 }),
            s.is_tx,
            s.reverse,
            !s.rekey_requested,
    {
        let (_tx_key, key, salt) = kdf::derive_keys(&sa.master_secret, sa.spi, sa.epoch);
        Session {
            sa,
            sn: 0,
            key,
            salt,
            window: ReplayWindow::new(),
            is_tx: true,
            reverse: true,
            rekey_requested: false,
        }
    }

    /// A receive session for the reverse direction of `sa`, paired with
    /// [`Session::new_tx_reverse`] on the same association.
    pub fn new_rx_reverse(sa: SecurityAssociation) -> (s: Session)
        ensures
            s.wf(),
            s.sa == sa,
            s.sn == 0,
            s.window == (ReplayWindow { highest_seen: 0, window_bitmap: 0 }),
            !s.is_tx,
            s.reverse,
            !s.rekey_requested,
    {
        let (_tx_key, key, salt) = kdf::derive_keys(&sa.master_secret, sa.spi, sa.epoch);
        Session {
            sa,
            sn: 0,
            key,
            salt,
            window: ReplayWindow::new(),
            is_tx: false,
            reverse: true,
            rekey_requested: false,
        }
    }

    /// Seals one payload into a frame, consuming exactly one sequence
    /// number even when the inputs are rejected (fail closed: a sequence
    /// number is never reused). Succeeds exactly when the associated data
    /// fits the header's 16-bit length field and the plaintext is at most
    /// `SEAL_MAX` bytes.
    pub fn seal(&mut self, msg_type: u8, ad: &[u8], plaintext: &[u8]) -> (r: Result<
        Vec<u8>,
        LadlsError,
    >)
        requires
            old(self).wf(),
        ensures
            *final(self) == old(self).spec_next(),
            final(self).wf(),
            r is Ok <==> (ad@.len() <= AD_MAX && plaintext@.len() <= SEAL_MAX),
            r is Ok ==> r->Ok_0@ == old(self).spec_sealed_frame(msg_type, ad@, plaintext@),
            r is Err ==> r == Err::<Vec<u8>, LadlsError>(LadlsError::Parse),
    {
        let ghost s0 = *self;
        let sn = self.sn;
        if ad.len() > AD_MAX || plaintext.len() > SEAL_MAX {
            self.sn = if sn == u64::MAX {
                0
            } else {
                sn + 1
            };
            return Err(LadlsError::Parse);
        }
        let h = LAdlsHeader::new(msg_type, self.sa.spi, sn, 0, ad.len() as u16);
        let hb = h.encode();
        let mut aad: Vec<u8> = slice_to_vec(hb.as_slice());
        append_bytes(&mut aad, ad);
        let n = nonce(&self.salt, sn);
        let pt: Vec<u8> = slice_to_vec(plaintext);
        let ct = match aead::seal(&self.key, &n, &pt, &aad) {
            Ok(ct) => ct,
            Err(_) => {
                proof {
                    assert(false);
                }
                return Err(LadlsError::Parse);
            },
        };
        let mut frame = hb;
        append_bytes(&mut frame, ad);
        append_bytes(&mut frame, ct.as_slice());
        self.sn = if sn == u64::MAX {
            0
        } else {
            sn + 1
        };
        proof {
            assert(aad@ == h.spec_encode() + ad@);
            assert(h == s0.spec_header(msg_type, ad@.len() as u16));
            assert(frame@ =~= s0.spec_sealed_frame(msg_type, ad@, plaintext@));
            assert(*self =~= s0.spec_next());
        }
        Ok(frame)
    }

    /// Opens one frame. Fails `Parse` on a short frame or unknown version,
    /// `ReplayRejected` on a duplicate or too-old sequence number, and
    /// `AuthenticationFailed` when the tag does not verify; only an
    /// accepted frame marks the window, so forged frames cannot black-hole
    /// later legitimate ones.
    pub fn open(&mut self, frame: &[u8]) -> (r: Result<(LAdlsHeader, Vec<u8>, Vec<u8>), LadlsError>)
        requires
            old(self).wf(),
        ensures
            final(self).wf(),
            final(self).sa == old(self).sa,
            final(self).sn == old(self).sn,
            final(self).key == old(self).key,
            final(self).salt == old(self).salt,
            final(self).is_tx == old(self).is_tx,
            final(self).reverse == old(self).reverse,
            final(self).rekey_requested == old(self).rekey_requested,
            r is Ok <==> old(self).spec_open_ok(frame@),
            r matches Ok((h, ad, pt)) ==> old(self).spec_open_result(frame@, h, ad@, pt@),
            r is Ok ==> final(self).window == old(self).window.spec_mark(
                frame_header(frame@).sn,
            ),
            r is Err ==> final(self).window == old(self).window,
            !frame_parse_ok(frame@) ==> r == Err::<(LAdlsHeader, Vec<u8>, Vec<u8>), LadlsError>(
                LadlsError::Parse,
            ),
            frame_parse_ok(frame@) && !old(self).window.spec_accepts(frame_header(frame@).sn)
                ==> r == Err::<(LAdlsHeader, Vec<u8>, Vec<u8>), LadlsError>(
                LadlsError::ReplayRejected,
            ),
            frame_parse_ok(frame@) && old(self).window.spec_accepts(frame_header(frame@).sn)
                && !old(self).spec_auth_ok(frame@) ==> r == Err::<
                (LAdlsHeader, Vec<u8>, Vec<u8>),
                LadlsError,
            >(LadlsError::AuthenticationFailed),
    {
        if frame.len() < HEADER_LEN {
            return Err(LadlsError::Parse);
        }
        let h = match LAdlsHeader::decode(frame) {
            Ok(h) => h,
            Err(_) => {
                proof {
                    assert(false);
                }
                return Err(LadlsError::Parse);
            },
        };
        if h.version != PROTOCOL_VERSION {
            return Err(LadlsError::Parse);
        }
        let ad_len = h.ad_len as usize;
        if frame.len() < HEADER_LEN + ad_len + TAG_LEN {
            return Err(LadlsError::Parse);
        }
        if !self.window.accepts(h.sn) {
            return Err(LadlsError::ReplayRejected);
        }
        let ad: Vec<u8> = slice_to_vec(slice_subrange(frame, HEADER_LEN, HEADER_LEN + ad_len));
        let aad: Vec<u8> = slice_to_vec(slice_subrange(frame, 0, HEADER_LEN + ad_len));
        let ct: Vec<u8> = slice_to_vec(slice_subrange(frame, HEADER_LEN + ad_len, frame.len()));
        let n = nonce(&self.salt, h.sn);
        proof {
            assert(ad@ == frame_ad(frame@));
            assert(aad@ == frame_aad(frame@));
            assert(ct@ == frame_ct(frame@));
        }
        match aead::open(&self.key, &n, &ct, &aad) {
            Ok(pt) => {
                self.window.mark(h.sn);
                Ok((h, ad, pt))
            },
            Err(_) => Err(LadlsError::AuthenticationFailed),
        }
    }

    /// Raises the advisory rekey flag for the owning controller to read;
    /// traffic continues under the current key until the rekey completes.
    pub fn request_rekey(&mut self)
        ensures
            *final(self) == (Session { rekey_requested: true, ..*old(self) }),
    {
        self.rekey_requested = true;
    }

    /// The highest sequence number this session has accepted.
    pub fn highest_seen(&self) -> (r: u64)
        ensures
            r == self.window.highest_seen,
    {
        self.window.highest_seen
    }
}

/// Appends all of `src` to `dst`.
pub fn append_bytes(dst: &mut Vec<u8>, src: &[u8])
    ensures
        final(dst)@ == old(dst)@ + src@,
{
    let mut i: usize = 0;
    while i < src.len()
        invariant
            i <= src@.len(),
            dst@ == old(dst)@ + src@.subrange(0, i as int),
        decreases src@.len() - i,
    {
        dst.push(src[i]);
        i = i + 1;
        proof {
            assert(dst@ =~= old(dst)@ + src@.subrange(0, i as int));
        }
    }
    proof {
        assert(dst@ =~= old(dst)@ + src@);
    }
}


/// How many `seal` calls it takes to get from `s` to the state whose
/// counter the `k`-th frame will carry: the `spec_next` relation iterated.
pub open spec fn spec_iterate(s: Session, k: nat) -> Session
    decreases k,
{
    if k == 0 {
        s
    } else {
        spec_iterate(s, (k - 1) as nat).spec_next()
    }
}

/// Sequence monotonicity: starting from a fresh transmit session, the
/// `i`-th seal finds the counter at exactly `i`, so consecutive seals
/// stamp strictly increasing sequence numbers with no gaps, starting at 0.
pub proof fn lemma_sequence_numbers(s: Session, k: nat)
    requires
        s.sn == 0,
        k <= u64::MAX,
    ensures
        spec_iterate(s, k).sn == k,
        forall|i: nat| i <= k ==> #[trigger] spec_iterate(s, i).sn == i,
    decreases k,
{
    if k > 0 {
        lemma_sequence_numbers(s, (k - 1) as nat);
        assert(spec_iterate(s, k).sn == k);
        assert forall|i: nat| i <= k implies #[trigger] spec_iterate(s, i).sn == i by {
        }
    }
}

/// Round trip: a frame sealed by a transmit session is accepted by a fresh
/// receive session holding the same association, and what `open` hands
/// back is exactly the header that was written, the associated data, and
/// the plaintext.
pub proof fn lemma_seal_open_round_trip(
    tx: Session,
    rx: Session,
    msg_type: u8,
    ad: Seq<u8>,
    p: Seq<u8>,
)
    requires
        tx.wf(),
        rx.wf(),
        tx.paired_with(rx),
        rx.window == (ReplayWindow { highest_seen: 0, window_bitmap: 0 }),
        ad.len() <= AD_MAX,
        p.len() <= SEAL_MAX,
    ensures
        rx.spec_open_ok(tx.spec_sealed_frame(msg_type, ad, p)),
        forall|h2: LAdlsHeader, ad2: Seq<u8>, pt: Seq<u8>|
            rx.spec_open_result(tx.spec_sealed_frame(msg_type, ad, p), h2, ad2, pt) ==> h2
                == tx.spec_header(msg_type, ad.len() as u16) && ad2 == ad && pt == p,
{
    let h = tx.spec_header(msg_type, ad.len() as u16);
    let hb = h.spec_encode();
    let ct = seal_of(tx.key@, spec_nonce(tx.salt@, tx.sn), p, hb + ad);
    let frame = tx.spec_sealed_frame(msg_type, ad, p);
    assert(tx.key@ == rx.key@ && tx.salt@ == rx.salt@);
    assert(frame == hb + ad + ct);
    assert(ct.len() == p.len() + TAG_LEN);
    assert(frame.len() == HEADER_LEN + ad.len() + p.len() + TAG_LEN);
    assert forall|i: int| 0 <= i < HEADER_LEN implies frame[i] == hb[i] by {}
    crate::frame::lemma_header_round_trip(h);
    assert(h.ad_len == ad.len());
    assert(frame_header(frame) == h);
    assert(frame_parse_ok(frame));
    assert(frame_ad(frame) =~= ad);
    assert(frame_aad(frame) =~= hb + ad);
    assert(frame_ct(frame) =~= ct);
    crate::window::lemma_fresh_accepts_all(rx.window);
    assert(rx.window.spec_accepts(h.sn));
    assert(p.len() <= SEAL_MAX && frame_ct(frame) == seal_of(
        rx.key@,
        spec_nonce(rx.salt@, frame_header(frame).sn),
        p,
        frame_aad(frame),
    ));
    assert(rx.spec_auth_ok(frame));
    assert forall|h2: LAdlsHeader, ad2: Seq<u8>, pt: Seq<u8>|
        rx.spec_open_result(frame, h2, ad2, pt) implies h2 == h && ad2 == ad && pt == p by {
        assert(h2 == frame_header(frame));
        assert(ad2 == frame_ad(frame));
    }
}

/// Replay rejection: once a receive session has accepted a frame, opening
/// the very same bytes again must fail the window check, so the second
/// attempt ends in `ReplayRejected`.
pub proof fn lemma_session_replay_rejected(rx: Session, rx2: Session, frame: Seq<u8>)
    requires
        rx.spec_open_ok(frame),
        rx2.window == rx.window.spec_mark(frame_header(frame).sn),
    ensures
        !rx2.window.spec_accepts(frame_header(frame).sn),
{
    crate::window::lemma_replay_rejected(rx.window, frame_header(frame).sn);
}

} // verus!
