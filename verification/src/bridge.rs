//! Bridge configuration parsing and logging helpers: exact decimal parsing
//! for ports, durations and sizes, and a bounded hex preview of packet
//! payloads.

use vstd::prelude::*;
use vstd::string::{StrSliceExecFns, StringExecFns};

verus! {

/// Whether `c` is a decimal digit.
pub open spec fn spec_is_digit(c: char) -> bool {
    '0' <= c && c <= '9'
}

/// The numeric value of a digit string, most significant first.
pub open spec fn spec_dec_value(s: Seq<char>) -> nat
    decreases s.len(),
{
    if s.len() == 0 {
        0
    } else {
        (spec_dec_value(s.drop_last()) * 10 + (s.last() as int - ('0' as int))) as nat
    }
}

/// The digits of a decimal literal: everything after an optional leading
/// plus sign.
pub open spec fn spec_digits_of(s: Seq<char>) -> Seq<char> {
    if s.len() > 0 && s[0] == '+' {
        s.drop_first()
    } else {
        s
    }
}

/// A well-formed unsigned decimal literal: an optional plus sign, then one
/// or more digits.
pub open spec fn spec_dec_ok(s: Seq<char>) -> bool {
    &&& spec_digits_of(s).len() > 0
    &&& forall|i: int| 0 <= i < spec_digits_of(s).len() ==> spec_is_digit(spec_digits_of(s)[i])
}

/// A digit string's value only grows as digits are appended.
proof fn lemma_dec_prefix_le(s: Seq<char>, i: int)
    requires
        0 <= i <= s.len(),
        forall|j: int| 0 <= j < s.len() ==> spec_is_digit(s[j]),
    ensures
        spec_dec_value(s.take(i)) <= spec_dec_value(s),
    decreases s.len() - i,
{
    if i < s.len() {
        lemma_dec_prefix_le(s, i + 1);
        let a = spec_dec_value(s.take(i));
        assert(s.take(i + 1).drop_last() =~= s.take(i));
        assert(spec_dec_value(s.take(i + 1)) == a * 10 + (s.take(i + 1).last() as int - (
        '0' as int)));
        assert(a * 10 >= a) by (nonlinear_arith)
            requires
                a >= 0,
        ;
    } else {
        assert(s.take(i) =~= s);
    }
}

/// Parses an unsigned decimal number as `str::parse::<u64>` reads it: an
/// optional leading plus sign and then digits. Succeeds exactly when the
/// text is such a literal and its value fits in 64 bits, and then returns
/// that value.
#[verifier::loop_isolation(false)]
pub fn parse_u64_dec(s: &str) -> (r: Option<u64>)
    ensures
        r is Some <==> (spec_dec_ok(s@) && spec_dec_value(spec_digits_of(s@)) <= u64::MAX),
        r is Some ==> r->0 == spec_dec_value(spec_digits_of(s@)),
{
    let n = s.unicode_len();
    let start: usize = if n > 0 && s.get_char(0) == '+' {
        1
    } else {
        0
    };
    let ghost digits = spec_digits_of(s@);
    proof {
        assert(digits =~= s@.skip(start as int));
    }
    if n == start {
        return None;
    }
    let mut v: u64 = 0;
    let mut i: usize = start;
    while i < n
        invariant
            start <= i <= n,
            n == s@.len(),
            digits == s@.skip(start as int),
            forall|j: int| 0 <= j < i - start ==> spec_is_digit(digits[j]),
            v == spec_dec_value(digits.take(i - start)),
        decreases n - i,
    {
        let c = s.get_char(i);
        if c < '0' || c > '9' {
            return None;
        }
        let d: u64 = (c as u32 as u64) - 48;
        proof {
            assert(digits[i - start] == c);
            assert(d == c as int - ('0' as int));
            assert(d <= 9);
        }
        if v > (u64::MAX - d) / 10 {
            proof {
                let t = digits.take(i - start + 1);
                assert(t.drop_last() =~= digits.take(i - start));
                assert(t.last() == c);
                assert(spec_dec_value(t) == v * 10 + d);
                assert(v * 10 + d > u64::MAX) by (nonlinear_arith)
                    requires
                        v > (u64::MAX - d) / 10 && d <= 9,
                ;
                if spec_dec_ok(s@) {
                    lemma_dec_prefix_le(digits, i - start + 1);
                }
            }
            return None;
        }
        proof {
            assert(v * 10 + d <= u64::MAX) by (nonlinear_arith)
                requires
                    v <= (u64::MAX - d) / 10 && d <= 9,
            ;
            let t = digits.take(i - start + 1);
            assert(t.drop_last() =~= digits.take(i - start));
            assert(t.last() == c);
        }
        v = v * 10 + d;
        i = i + 1;
    }
    proof {
        assert(digits.take(n - start) =~= digits);
    }
    Some(v)
}

/// Parses a TCP/UDP port: a decimal number that fits in 16 bits.
pub fn parse_port(s: &str) -> (r: Option<u16>)
    ensures
        r is Some <==> (spec_dec_ok(s@) && spec_dec_value(spec_digits_of(s@)) <= u16::MAX),
        r is Some ==> r->0 == spec_dec_value(spec_digits_of(s@)),
{
    match parse_u64_dec(s) {
        Some(v) => if v <= 0xFFFF {
            Some(v as u16)
        } else {
            None
        },
        None => None,
    }
}

/// Parses a duration in whole seconds, holding it at 1 or above.
pub fn parse_duration_secs(s: &str) -> (r: Option<u64>)
    ensures
        r is Some <==> (spec_dec_ok(s@) && spec_dec_value(spec_digits_of(s@)) <= u64::MAX),
        r is Some ==> r->0 == (if spec_dec_value(spec_digits_of(s@)) > 1 {
            spec_dec_value(spec_digits_of(s@))
        } else {
            1
        }),
{
    match parse_u64_dec(s) {
        Some(v) => Some(if v > 1 {
            v
        } else {
            1
        }),
        None => None,
    }
}

/// Parses a byte count, holding it at 1 or above and within the platform's
/// address range.
pub fn parse_usize_clamped(s: &str) -> (r: Option<usize>)
    ensures
        r is Some <==> (spec_dec_ok(s@) && spec_dec_value(spec_digits_of(s@)) <= usize::MAX),
        r is Some ==> r->0 == (if spec_dec_value(spec_digits_of(s@)) > 1 {
            spec_dec_value(spec_digits_of(s@))
        } else {
            1
        }),
{
    match parse_u64_dec(s) {
        Some(v) => if v <= usize::MAX as u64 {
            Some(if v > 1 {
                v as usize
            } else {
                1
            })
        } else {
            None
        },
        None => None,
    }
}

/// The lower-case hex digit for a value below 16.
pub open spec fn spec_hex_char(d: u8) -> char {
    if d < 10 {
        (('0' as u8) + d) as char
    } else {
        (('a' as u8) + (d - 10)) as char
    }
}

/// The hex spelling of `bytes`: two digits per byte, high nibble first.
pub open spec fn spec_hex_seq(bytes: Seq<u8>) -> Seq<char> {
    Seq::new(
        bytes.len() * 2,
        |i: int|
            if i % 2 == 0 {
                spec_hex_char(bytes[i / 2] >> 4)
            } else {
                spec_hex_char(bytes[i / 2] & 0x0f)
            },
    )
}

/// What the preview shows: a placeholder for nothing, else the first
/// `limit` bytes in hex with an ellipsis when the payload is longer.
pub open spec fn spec_hex_preview(bytes: Seq<u8>, limit: nat) -> Seq<char> {
    if bytes.len() == 0 || limit == 0 {
        "<empty>"@
    } else {
        let shown = if limit > bytes.len() {
            bytes.len()
        } else {
            limit
        };
        spec_hex_seq(bytes.take(shown as int)) + (if bytes.len() > shown {
            "\u{2026}"@
        } else {
            Seq::<char>::empty()
        })
    }
}

/// The one-character string for a hex digit.
fn hex_char_str(d: u8) -> (r: &'static str)
    requires
        d < 16,
    ensures
        r@.len() == 1,
        r@[0] == spec_hex_char(d),
{
    proof {
        reveal_strlit("0");
        reveal_strlit("1");
        reveal_strlit("2");
        reveal_strlit("3");
        reveal_strlit("4");
        reveal_strlit("5");
        reveal_strlit("6");
        reveal_strlit("7");
        reveal_strlit("8");
        reveal_strlit("9");
        reveal_strlit("a");
        reveal_strlit("b");
        reveal_strlit("c");
        reveal_strlit("d");
        reveal_strlit("e");
        reveal_strlit("f");
    }
    match d {
        0 => "0",
        1 => "1",
        2 => "2",
        3 => "3",
        4 => "4",
        5 => "5",
        6 => "6",
        7 => "7",
        8 => "8",
        9 => "9",
        10 => "a",
        11 => "b",
        12 => "c",
        13 => "d",
        14 => "e",
        _ => "f",
    }
}

/// Renders the first `preview_bytes` bytes of a payload as lower-case hex,
/// with a placeholder for an empty preview and an ellipsis when the
/// payload goes on beyond the preview.
#[verifier::loop_isolation(false)]
pub fn hex_preview(payload: &[u8], preview_bytes: usize) -> (r: String)
    ensures
        r@ == spec_hex_preview(payload@, preview_bytes as nat),
{
    if payload.len() == 0 || preview_bytes == 0 {
        return "<empty>".to_owned();
    }
    let limit: usize = if preview_bytes > payload.len() {
        payload.len()
    } else {
        preview_bytes
    };
    let ghost shown = payload@.take(limit as int);
    let mut out: String = String::new();
    let mut i: usize = 0;
    while i < limit
        invariant
            i <= limit,
            limit <= payload@.len(),
            shown == payload@.take(limit as int),
            out@ == spec_hex_seq(shown.take(i as int)),
        decreases limit - i,
    {
        let b = payload[i];
        let hi = b >> 4;
        let lo = b & 0x0f;
        proof {
            assert(b >> 4 < 16 && b & 0x0f < 16) by (bit_vector);
        }
        out.append(hex_char_str(hi));
        out.append(hex_char_str(lo));
        i = i + 1;
        proof {
            assert(out@ =~= spec_hex_seq(shown.take(i as int)));
        }
    }
    proof {
        assert(shown.take(limit as int) =~= shown);
    }
    if payload.len() > limit {
        out.append("\u{2026}");
        proof {
            assert(out@ =~= spec_hex_preview(payload@, preview_bytes as nat));
        }
        out
    } else {
        proof {
            assert(out@ =~= spec_hex_preview(payload@, preview_bytes as nat));
        }
        out
    }
}

} // verus!
