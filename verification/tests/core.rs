use ladls::aead;
use ladls::error::LadlsError;
use ladls::frame::LAdlsHeader;
use ladls::kdf;
use ladls::nonce::nonce;
use ladls::rekey::{should_rekey, RekeyPolicy};
use ladls::sa::SecurityAssociation;
use ladls::session::Session;
use ladls::window::ReplayWindow;

fn test_sa(spi: u32) -> SecurityAssociation {
    SecurityAssociation::new(spi, b"a shared master secret".to_vec())
}

#[test]
fn round_trip() {
    let sa = test_sa(1);
    let mut tx = Session::new_tx(sa.clone());
    let frame = tx.seal(0, &[], b"hello").unwrap();
    let mut rx = Session::new_rx(sa);
    let (_header, _ad, _pt) = rx.open(&frame).unwrap();
}

#[test]
fn round_trip_returns_header_ad_and_plaintext() {
    let sa = test_sa(7);
    let mut tx = Session::new_tx(sa.clone());
    let mut rx = Session::new_rx(sa);
    let frame = tx.seal(3, b"meta", b"payload bytes").unwrap();
    let (header, ad, pt) = rx.open(&frame).unwrap();
    assert_eq!(header.version, 1);
    assert_eq!(header.msg_type, 3);
    assert_eq!(header.spi, 7);
    assert_eq!(header.sn, 0);
    assert_eq!(header.flags, 0);
    assert_eq!(header.ad_len, 4);
    assert_eq!(ad, b"meta".to_vec());
    assert_eq!(pt, b"payload bytes".to_vec());
}

#[test]
fn sequence_numbers_increase_without_gaps() {
    let sa = test_sa(2);
    let mut tx = Session::new_tx(sa);
    for expected in 0u64..5 {
        let frame = tx.seal(0, &[], b"x").unwrap();
        let header = LAdlsHeader::decode(&frame).unwrap();
        assert_eq!(header.sn, expected);
    }
}

#[test]
fn replay_of_same_frame_is_rejected() {
    let sa = test_sa(3);
    let mut tx = Session::new_tx(sa.clone());
    let mut rx = Session::new_rx(sa);
    let frame = tx.seal(0, &[], b"once only").unwrap();
    assert!(rx.open(&frame).is_ok());
    assert_eq!(rx.open(&frame).unwrap_err(), LadlsError::ReplayRejected);
}

#[test]
fn window_boundary_old_rejected_next_accepted() {
    let sa = test_sa(4);
    let mut tx = Session::new_tx(sa.clone());
    let mut rx = Session::new_rx(sa);
    let mut frames = Vec::new();
    for _ in 0..70 {
        frames.push(tx.seal(0, &[], b"m").unwrap());
    }
    // Accept sn 69 first: highest_seen becomes 69, so sn 0 is 69 behind,
    // past the 64-wide window.
    assert!(rx.open(&frames[69]).is_ok());
    assert_eq!(rx.highest_seen(), 69);
    assert_eq!(rx.open(&frames[0]).unwrap_err(), LadlsError::ReplayRejected);
    // sn 68 is inside the window and fresh.
    assert!(rx.open(&frames[68]).is_ok());
    // One ahead of the highest is accepted and becomes the new highest.
    let next = tx.seal(0, &[], b"m").unwrap();
    assert!(rx.open(&next).is_ok());
    assert_eq!(rx.highest_seen(), 70);
}

#[test]
fn tampering_any_single_bit_fails_authentication() {
    let sa = test_sa(5);
    let mut tx = Session::new_tx(sa.clone());
    let frame = tx.seal(0, b"ad", b"secret payload").unwrap();
    for byte in 0..frame.len() {
        for bit in 0..8 {
            let mut copy = frame.clone();
            copy[byte] ^= 1 << bit;
            let mut rx = Session::new_rx(sa.clone());
            let r = rx.open(&copy);
            match r {
                Ok(_) => panic!("tampered frame accepted at byte {byte} bit {bit}"),
                Err(LadlsError::AuthenticationFailed) => {}
                Err(LadlsError::Parse) => {
                    // Only a flip that breaks the version byte or the
                    // declared lengths may parse-fail instead.
                    assert!(byte == 0 || (15..17).contains(&byte));
                }
                Err(e) => panic!("unexpected error {e:?} at byte {byte} bit {bit}"),
            }
        }
    }
}

#[test]
fn rekey_trigger_thresholds() {
    assert!(should_rekey(86400, 0));
    assert!(should_rekey(0, 1_000_000));
    assert!(!should_rekey(3600, 10));
    let policy = RekeyPolicy::default();
    assert!(policy.applies(86400, 0));
    assert!(!policy.applies(3600, 10));
    let tight = RekeyPolicy { max_age_secs: 10, max_frames: 5 };
    assert!(tight.applies(10, 0));
    assert!(tight.applies(0, 5));
    assert!(!tight.applies(9, 4));
}

#[test]
fn header_codec_round_trip() {
    let h = LAdlsHeader::new(129, 0xDEADBEEF, 0x0123456789ABCDEF, 0xA5, 513);
    let bytes = h.encode();
    assert_eq!(bytes.len(), 17);
    let h2 = LAdlsHeader::decode(&bytes).unwrap();
    assert_eq!(h2, h);
    assert_eq!(h2.version, 1);
    assert_eq!(h2.msg_type, 129);
    assert_eq!(h2.spi, 0xDEADBEEF);
    assert_eq!(h2.sn, 0x0123456789ABCDEF);
    assert_eq!(h2.flags, 0xA5);
    assert_eq!(h2.ad_len, 513);
}

#[test]
fn header_encoding_is_big_endian() {
    let h = LAdlsHeader::new(2, 0x01020304, 0x1112131415161718, 1, 0x0203);
    let bytes = h.encode();
    assert_eq!(
        bytes,
        vec![1, 2, 1, 2, 3, 4, 0x11, 0x12, 0x13, 0x14, 0x15, 0x16, 0x17, 0x18, 1, 2, 3]
    );
}

#[test]
fn decode_short_input_is_parse_error() {
    assert_eq!(LAdlsHeader::decode(&[0u8; 16]).unwrap_err(), LadlsError::Parse);
}

#[test]
fn open_rejects_short_frames_and_bad_version() {
    let sa = test_sa(6);
    let mut rx = Session::new_rx(sa.clone());
    assert_eq!(rx.open(&[0u8; 10]).unwrap_err(), LadlsError::Parse);
    let mut tx = Session::new_tx(sa);
    let mut frame = tx.seal(0, &[], b"v").unwrap();
    frame[0] = 9;
    assert_eq!(rx.open(&frame).unwrap_err(), LadlsError::Parse);
    // A frame shorter than header + declared ad + tag is rejected too.
    let h = LAdlsHeader::new(0, 6, 0, 0, 0);
    assert_eq!(rx.open(&h.encode()).unwrap_err(), LadlsError::Parse);
}

#[test]
fn aead_round_trip_and_tamper() {
    let key = vec![7u8; 32];
    let nonce12 = vec![9u8; 12];
    let sealed = aead::seal(&key, &nonce12, &b"data".to_vec(), &b"aad".to_vec()).unwrap();
    assert_eq!(sealed.len(), 4 + 16);
    let opened = aead::open(&key, &nonce12, &sealed, &b"aad".to_vec()).unwrap();
    assert_eq!(opened, b"data".to_vec());
    let mut bad = sealed.clone();
    bad[0] ^= 1;
    assert_eq!(
        aead::open(&key, &nonce12, &bad, &b"aad".to_vec()).unwrap_err(),
        LadlsError::AuthenticationFailed
    );
    assert_eq!(
        aead::open(&key, &nonce12, &sealed, &b"other".to_vec()).unwrap_err(),
        LadlsError::AuthenticationFailed
    );
    assert_eq!(
        aead::seal(&vec![0u8; 16], &nonce12, &b"d".to_vec(), &b"".to_vec()).unwrap_err(),
        LadlsError::Parse
    );
}

#[test]
fn kdf_is_deterministic_and_direction_separated() {
    let master = b"master".to_vec();
    let (tx1, rx1, salt1) = kdf::derive_keys(&master, 5, 0);
    let (tx2, rx2, salt2) = kdf::derive_keys(&master, 5, 0);
    assert_eq!(tx1, tx2);
    assert_eq!(rx1, rx2);
    assert_eq!(salt1, salt2);
    assert_ne!(tx1, rx1);
    let (tx3, _, _) = kdf::derive_keys(&master, 5, 1);
    assert_ne!(tx1, tx3);
    assert_eq!(tx1.len(), 32);
    assert_eq!(salt1.len(), 12);
}

#[test]
fn nonce_folds_sequence_number_into_salt() {
    let salt = vec![0u8; 12];
    let n = nonce(&salt, 0x0102030405060708);
    assert_eq!(n, vec![0, 0, 0, 0, 1, 2, 3, 4, 5, 6, 7, 8]);
    let n2 = nonce(&salt, 1);
    assert_ne!(n, n2);
}

#[test]
fn seal_rejects_oversized_associated_data() {
    let sa = test_sa(8);
    let mut tx = Session::new_tx(sa);
    let big = vec![0u8; 0x10000];
    assert_eq!(tx.seal(0, &big, b"p").unwrap_err(), LadlsError::Parse);
    // The failed seal still consumed a sequence number (fail closed).
    let frame = tx.seal(0, &[], b"p").unwrap();
    let h = LAdlsHeader::decode(&frame).unwrap();
    assert_eq!(h.sn, 1);
}

#[test]
fn request_rekey_is_advisory() {
    let sa = test_sa(9);
    let mut tx = Session::new_tx(sa);
    assert!(!tx.rekey_requested);
    tx.request_rekey();
    assert!(tx.rekey_requested);
    // Sealing still works under the current key.
    assert!(tx.seal(0, &[], b"still fine").is_ok());
}

#[test]
fn fresh_replay_window_accepts_anything_once() {
    let w = ReplayWindow::new();
    assert_eq!(w.highest_seen, 0);
    assert_eq!(w.window_bitmap, 0);
    assert!(w.accepts(0));
    assert!(w.accepts(1));
    assert!(w.accepts(u64::MAX));
    let mut w2 = w;
    w2.mark(5);
    assert!(!w2.accepts(5));
    assert!(w2.accepts(4));
    assert!(w2.accepts(6));
}

#[test]
fn error_descriptions_are_stable() {
    assert_eq!(LadlsError::Parse.describe(), "parse error");
    assert_eq!(LadlsError::AuthenticationFailed.describe(), "authentication failed");
    assert_eq!(LadlsError::ReplayRejected.describe(), "replay rejected");
    assert_eq!(LadlsError::RekeyRequired.describe(), "rekey required");
}

#[test]
fn next_epoch_keeps_identity_and_bumps_epoch() {
    let sa = test_sa(10);
    let sa2 = sa.next_epoch();
    assert_eq!(sa2.spi, 10);
    assert_eq!(sa2.epoch, 1);
    assert_eq!(sa2.master_secret, sa.master_secret);
    // A new epoch derives fresh keys: the old receive session no longer
    // opens the new epoch's frames.
    let mut tx = Session::new_tx(sa2);
    let mut rx_old = Session::new_rx(sa);
    let frame = tx.seal(0, &[], b"fresh keys").unwrap();
    assert_eq!(rx_old.open(&frame).unwrap_err(), LadlsError::AuthenticationFailed);
}

#[test]
fn reverse_direction_sessions_pair_independently() {
    let sa = test_sa(11);
    // The reverse pair round-trips with each other.
    let mut tx_rev = Session::new_tx_reverse(sa.clone());
    let mut rx_rev = Session::new_rx_reverse(sa.clone());
    let frame = tx_rev.seal(0, b"ad", b"backward traffic").unwrap();
    let (_h, ad, pt) = rx_rev.open(&frame).unwrap();
    assert_eq!(ad, b"ad".to_vec());
    assert_eq!(pt, b"backward traffic".to_vec());
    // The forward receive session holds an independent key, so it rejects
    // the reverse direction's frames: full duplex on one association never
    // shares a key.
    let mut rx_fwd = Session::new_rx(sa.clone());
    let frame2 = Session::new_tx_reverse(sa.clone()).seal(0, &[], b"x").unwrap();
    assert_eq!(rx_fwd.open(&frame2).unwrap_err(), LadlsError::AuthenticationFailed);
    // And the reverse receive session rejects forward frames.
    let mut rx_rev2 = Session::new_rx_reverse(sa.clone());
    let frame3 = Session::new_tx(sa).seal(0, &[], b"y").unwrap();
    assert_eq!(rx_rev2.open(&frame3).unwrap_err(), LadlsError::AuthenticationFailed);
}
