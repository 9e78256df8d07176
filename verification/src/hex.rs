//! Hex numbers as the bytecode wants them: read as `from_str_radix` with
//! radix sixteen reads them, into a byte or a word.
use vstd::prelude::*;

use crate::lexer::is_hex_digit;

verus! {

/// The value of a hex digit.
pub open spec fn digit_value(b: u8) -> int {
    if 48 <= b <= 57 {
        b - 48
    } else if 97 <= b <= 102 {
        b - 87
    } else {
        b - 55
    }
}

/// The value of a string of hex digits, most significant first.
pub open spec fn hex_value(s: Seq<u8>) -> int
    decreases s.len(),
{
    if s.len() == 0 {
        0
    } else {
        hex_value(s.drop_last()) * 16 + digit_value(s.last())
    }
}

/// Whether every byte is a hex digit.
pub open spec fn all_hex(s: Seq<u8>) -> bool {
    forall|i: int| 0 <= i < s.len() ==> is_hex_digit(#[trigger] s[i])
}

/// The digits of a number: the string without one leading `+`.
pub open spec fn digits(s: Seq<u8>) -> Seq<u8> {
    if s.len() > 0 && s[0] == 43 {
        s.drop_first()
    } else {
        s
    }
}

/// The number that `s` spells in hex, where it spells one not above `max`:
/// at least one digit, after an optional `+`, and nothing else.
pub open spec fn hex_number(s: Seq<u8>, max: int) -> Option<int> {
    let d = digits(s);
    if d.len() > 0 && all_hex(d) && hex_value(d) <= max {
        Some(hex_value(d))
    } else {
        None
    }
}

/// A prefix of a string of hex digits is worth no more than the whole.
pub proof fn lemma_hex_prefix(s: Seq<u8>, k: int)
    requires
        0 <= k <= s.len(),
        all_hex(s),
    ensures
        0 <= hex_value(s.subrange(0, k)) <= hex_value(s),
    decreases s.len(),
{
    if s.len() > 0 {
        let t = s.drop_last();
        assert(all_hex(t)) by {
            assert forall|i: int| 0 <= i < t.len() implies is_hex_digit(#[trigger] t[i]) by {
                assert(t[i] == s[i]);
            }
        }
        if k == s.len() {
            assert(s.subrange(0, k) =~= s);
            lemma_hex_prefix(t, t.len() as int);
            assert(t.subrange(0, t.len() as int) =~= t);
        } else {
            lemma_hex_prefix(t, k);
            assert(t.subrange(0, k) =~= s.subrange(0, k));
            lemma_hex_prefix(t, t.len() as int);
            assert(t.subrange(0, t.len() as int) =~= t);
        }
    } else {
        assert(s.subrange(0, k) =~= s);
    }
}

/// The value of a hex digit byte.
fn digit(b: u8) -> (v: u32)
    requires
        is_hex_digit(b),
    ensures
        v == digit_value(b),
        v < 16,
{
    if 48 <= b && b <= 57 {
        (b - 48) as u32
    } else if 97 <= b && b <= 102 {
        (b - 87) as u32
    } else {
        (b - 55) as u32
    }
}

/// Reads a hex number not above `max` (see `hex_number`).
fn parse_hex(s: &[u8], max: u32) -> (r: Option<u32>)
    requires
        max <= 0xFFFF,
    ensures
        match hex_number(s@, max as int) {
            Some(v) => r == Some(v as u32) && 0 <= v <= max,
            None => r is None,
        },
{
    let mut i: usize = 0;
    if s.len() > 0 && s[0] == 43 {
        i = 1;
    }
    let ghost d = digits(s@);
    let ghost start = i as int;
    assert(d =~= s@.subrange(start, s@.len() as int));
    if i >= s.len() {
        return None;
    }
    let mut acc: u32 = 0;
    assert(d.subrange(0, 0) =~= Seq::<u8>::empty());
    while i < s.len()
        invariant
            0 <= start <= i <= s@.len(),
            start == 0 || (start == 1 && s@[0] == 43),
            d == s@.subrange(start, s@.len() as int),
            d == digits(s@),
            d.len() == s@.len() - start,
            all_hex(d.subrange(0, i - start)),
            acc as int == hex_value(d.subrange(0, i - start)),
            acc <= max,
            max <= 0xFFFF,
        decreases s@.len() - i,
    {
        let b = s[i];
        let ghost k: int = i - start;
        assert(s@[i as int] == b);
        assert(0 <= k < d.len());
        assert(d[k] == b);
        if !((48 <= b && b <= 57) || (97 <= b && b <= 102) || (65 <= b && b <= 70)) {
            assert(!all_hex(d));
            return None;
        }
        let ghost prefix = d.subrange(0, k);
        let ghost next = d.subrange(0, k + 1);
        assert(next.drop_last() =~= prefix);
        assert(all_hex(next)) by {
            assert forall|j: int| 0 <= j < next.len() implies is_hex_digit(#[trigger] next[j]) by {
                if j < prefix.len() {
                    assert(next[j] == prefix[j]);
                }
            }
        }
        let v = acc * 16 + digit(b);
        if v > max {
            proof {
                if all_hex(d) {
                    lemma_hex_prefix(d, k + 1);
                }
            }
            return None;
        }
        acc = v;
        i = i + 1;
    }
    assert(d.subrange(0, i - start) =~= d);
    Some(acc)
}

/// The word that `s` spells in hex, as `u16::from_str_radix(s, 16)` reads it.
pub fn parse_hex_u16(s: &[u8]) -> (r: Option<u16>)
    ensures
        match hex_number(s@, 0xFFFF) {
            Some(v) => r == Some(v as u16),
            None => r is None,
        },
{
    match parse_hex(s, 0xFFFF) {
        Some(v) => Some(v as u16),
        None => None,
    }
}

/// The byte that `s` spells in hex, as `u8::from_str_radix(s, 16)` reads it.
pub fn parse_hex_u8(s: &[u8]) -> (r: Option<u8>)
    ensures
        match hex_number(s@, 0xFF) {
            Some(v) => r == Some(v as u8),
            None => r is None,
        },
{
    match parse_hex(s, 0xFF) {
        Some(v) => Some(v as u8),
        None => None,
    }
}

} // verus!
