//! Anti-replay window: tracks the highest accepted sequence number and a
//! 64-bit bitmap of recently accepted numbers below it.

use vstd::prelude::*;

verus! {

/// Width of the sliding window, fixed by the 64-bit bitmap.
pub const WINDOW_SIZE: u64 = 64;

/// Per receiving session replay state. Bit `k` of `window_bitmap` set means
/// `highest_seen - k` was already accepted.
#[derive(Debug, Clone, Copy, PartialEq, Eq, Structural)]
pub struct ReplayWindow {
    /// Highest sequence number accepted so far.
    pub highest_seen: u64,
    /// Bitmap over `highest_seen - 63 ..= highest_seen`.
    pub window_bitmap: u64,
}

impl ReplayWindow {
    /// True when `sn` is recorded as already accepted.
    pub open spec fn spec_marked(self, sn: u64) -> bool {
        sn <= self.highest_seen && self.highest_seen - sn < WINDOW_SIZE && (self.window_bitmap >> (
        (self.highest_seen - sn) as u64)) & 1 == 1
    }

    /// True when a frame with sequence number `sn` may be accepted: it is
    /// ahead of everything seen, or inside the window and not yet marked.
    pub open spec fn spec_accepts(self, sn: u64) -> bool {
        sn > self.highest_seen || (self.highest_seen - sn < WINDOW_SIZE && !self.spec_marked(sn))
    }

    /// The window after recording `sn`: ahead of the window the bitmap
    /// shifts and `highest_seen` advances; inside it one bit is set.
    pub open spec fn spec_mark(self, sn: u64) -> ReplayWindow {
        if sn > self.highest_seen {
            let d = sn - self.highest_seen;
            ReplayWindow {
                highest_seen: sn,
                window_bitmap: if d >= WINDOW_SIZE {
                    1u64
                } else {
                    (self.window_bitmap << (d as u64)) | 1u64
                },
            }
        } else {
            ReplayWindow {
                highest_seen: self.highest_seen,
                window_bitmap: self.window_bitmap | (1u64 << ((self.highest_seen - sn) as u64)),
            }
        }
    }

    /// A fresh window: nothing accepted yet, so everything is acceptable.
    pub fn new() -> (w: Self)
        ensures
            w == (ReplayWindow { highest_seen: 0, window_bitmap: 0 }),
            forall|s: u64| w.spec_accepts(s),
    {
        let w = ReplayWindow { highest_seen: 0, window_bitmap: 0 };
        proof {
            lemma_fresh_accepts_all(w);
        }
        w
    }

    /// Decides whether `sn` may be accepted: rejected when it falls at or
    /// behind the far edge of the window (`highest_seen - sn >= 64`) or when
    /// it was already accepted; accepted otherwise.
    pub fn accepts(&self, sn: u64) -> (r: bool)
        ensures
            r == self.spec_accepts(sn),
    {
        if sn > self.highest_seen {
            true
        } else {
            let diff = self.highest_seen - sn;
            if diff >= WINDOW_SIZE {
                false
            } else {
                let r = (self.window_bitmap >> diff) & 1 == 0;
                proof {
                    let b = self.window_bitmap;
                    assert((b >> diff) & 1 == 0 || (b >> diff) & 1 == 1) by (bit_vector);
                }
                r
            }
        }
    }

    /// Records `sn` as accepted. Exactly `sn` is added to the marked set;
    /// marks that fall off the far edge of the window are forgotten.
    pub fn mark(&mut self, sn: u64)
        requires
            old(self).spec_accepts(sn),
        ensures
            *final(self) == old(self).spec_mark(sn),
    {
        if sn > self.highest_seen {
            let shift = sn - self.highest_seen;
            if shift >= WINDOW_SIZE {
                self.window_bitmap = 1;
            } else {
                self.window_bitmap = (self.window_bitmap << shift) | 1;
            }
            self.highest_seen = sn;
        } else {
            let diff = self.highest_seen - sn;
            self.window_bitmap = self.window_bitmap | (1u64 << diff);
        }
    }
}

/// A fresh window accepts every sequence number.
pub proof fn lemma_fresh_accepts_all(w: ReplayWindow)
    requires
        w == (ReplayWindow { highest_seen: 0, window_bitmap: 0 }),
    ensures
        forall|s: u64| w.spec_accepts(s),
{
    assert forall|s: u64| w.spec_accepts(s) by {
        if s == 0 {
            assert((0u64 >> 0u64) & 1 == 0) by (bit_vector);
        }
    }
}

/// Marking changes the marked set in exactly one way: `sn` joins it, and
/// whatever slid off the far edge of the window leaves it.
pub proof fn lemma_spec_mark_marks(w: ReplayWindow, sn: u64)
    requires
        w.spec_accepts(sn),
    ensures
        w.spec_mark(sn).highest_seen == if sn > w.highest_seen {
            sn
        } else {
            w.highest_seen
        },
        forall|s: u64|
            #![trigger w.spec_mark(sn).spec_marked(s)]
            w.spec_mark(sn).spec_marked(s) <==> ((w.spec_marked(s) && w.spec_mark(sn).highest_seen
                - s < WINDOW_SIZE) || s == sn),
{
    let w2 = w.spec_mark(sn);
    if sn > w.highest_seen {
        let shift = (sn - w.highest_seen) as u64;
        assert forall|s: u64|
            w2.spec_marked(s) <==> ((w.spec_marked(s) && w2.highest_seen - s < WINDOW_SIZE) || s
                == sn) by {
            if s <= sn && sn - s < WINDOW_SIZE {
                let k = (sn - s) as u64;
                if shift >= WINDOW_SIZE {
                    assert((1u64 >> k) & 1 == 1 <==> k == 0) by (bit_vector)
                        requires
                            k < 64u64,
                    ;
                } else {
                    let b = w.window_bitmap;
                    if k == 0 {
                        assert((((b << shift) | 1) >> 0u64) & 1 == 1) by (bit_vector);
                    } else if k < shift {
                        assert((((b << shift) | 1) >> k) & 1 == 0) by (bit_vector)
                            requires
                                0u64 < k && k < shift && shift < 64u64,
                        ;
                    } else {
                        let j = (k - shift) as u64;
                        assert((((b << shift) | 1) >> ((shift + j) as u64)) & 1 == (b >> j)
                            & 1) by (bit_vector)
                            requires
                                0u64 < shift + j && shift + j < 64u64 && shift > 0u64,
                        ;
                    }
                }
            }
        }
    } else {
        let diff = (w.highest_seen - sn) as u64;
        let b = w.window_bitmap;
        assert forall|s: u64|
            w2.spec_marked(s) <==> ((w.spec_marked(s) && w2.highest_seen - s < WINDOW_SIZE) || s
                == sn) by {
            if s <= w.highest_seen && w.highest_seen - s < WINDOW_SIZE {
                let k = (w.highest_seen - s) as u64;
                assert(((b | (1u64 << diff)) >> k) & 1 == 1 <==> ((b >> k) & 1 == 1 || k
                    == diff)) by (bit_vector)
                    requires
                        k < 64u64 && diff < 64u64,
                ;
            }
        }
    }
}

/// Replay rejection: once `sn` is recorded, the same `sn` is never
/// acceptable again.
pub proof fn lemma_replay_rejected(w: ReplayWindow, sn: u64)
    requires
        w.spec_accepts(sn),
    ensures
        !w.spec_mark(sn).spec_accepts(sn),
{
    lemma_spec_mark_marks(w, sn);
    assert(w.spec_mark(sn).spec_marked(sn));
}

/// Window boundary: a sequence number a full window or more behind the
/// highest is rejected as too old, while the next number ahead is accepted
/// and, once recorded, becomes the new highest.
pub proof fn lemma_window_boundary(w: ReplayWindow, old_sn: u64, next_sn: u64)
    requires
        old_sn + WINDOW_SIZE <= w.highest_seen,
        w.highest_seen < u64::MAX,
        next_sn == w.highest_seen + 1,
    ensures
        !w.spec_accepts(old_sn),
        w.spec_accepts(next_sn),
        w.spec_mark(next_sn).highest_seen == next_sn,
{
}

} // verus!
