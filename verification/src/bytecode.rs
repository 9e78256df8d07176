//! Bytecode written out as text: hex bytes separated by white space.
use vstd::prelude::*;
use vstd::string::StringSliceAdditionalSpecFns;

use crate::hex::{hex_number, parse_hex_u8};
use crate::lexer::{whitespace_len, ws_len};

verus! {

/// The words of `s` from position `i` on, the current one begun at `start`:
/// the runs of bytes between white space (see `ws_len`).
pub open spec fn words_from(s: Seq<u8>, i: int, start: int) -> Seq<Seq<u8>>
    decreases s.len() - i,
{
    if i >= s.len() || i < 0 {
        if 0 <= start < i { seq![s.subrange(start, i)] } else { Seq::empty() }
    } else if ws_len(s, i as nat) > 0 {
        let next = i + ws_len(s, i as nat);
        (if 0 <= start < i { seq![s.subrange(start, i)] } else { Seq::empty() }) + words_from(s, next, next)
    } else {
        words_from(s, i + 1, start)
    }
}

/// The words of `s`, as `split_whitespace` finds them.
pub open spec fn words(s: Seq<u8>) -> Seq<Seq<u8>> {
    words_from(s, 0, 0)
}

/// Whether every word reads as a hex byte.
pub open spec fn all_bytes(ws: Seq<Seq<u8>>) -> bool {
    forall|k: int| 0 <= k < ws.len() ==> #[trigger] hex_number(ws[k], 0xFF) is Some
}

/// The byte each word spells.
pub open spec fn byte_values(ws: Seq<Seq<u8>>) -> Seq<u8> {
    ws.map_values(|w: Seq<u8>| hex_number(w, 0xFF)->Some_0 as u8)
}

/// Reads bytecode written as text.
pub struct Loader {}

impl Loader {
    /// The bytes that the words of `source` spell, each a hex byte, in order;
    /// lines and the white space between words do not count.
    pub fn load(source: &str) -> (bytes: Vec<u8>)
        requires
            all_bytes(words(source.spec_bytes())),
        ensures
            bytes@ == byte_values(words(source.spec_bytes())),
    {
        let s = source.as_bytes();
        let ghost all = words(s@);
        let mut out: Vec<u8> = Vec::new();
        let mut start: usize = 0;
        let mut i: usize = 0;
        while i < s.len()
            invariant
                start <= i <= s@.len(),
                all == words(s@),
                all_bytes(all),
                byte_values(all) == out@ + byte_values(words_from(s@, i as int, start as int)),
                all_bytes(words_from(s@, i as int, start as int)),
            decreases s@.len() - i,
        {
            let w = whitespace_len(s, i);
            if w > 0 {
                let ghost rest = words_from(s@, i + w, i + w);
                if start < i {
                    let ghost word = s@.subrange(start as int, i as int);
                    assert(words_from(s@, i as int, start as int) == seq![word] + rest);
                    assert(hex_number(word, 0xFF) is Some) by {
                        assert((seq![word] + rest)[0] == word);
                    }
                    let v = match parse_hex_u8(&s[start..i]) {
                        Some(v) => v,
                        None => unreached(),
                    };
                    proof {
                        assert(byte_values(seq![word] + rest) =~= seq![v] + byte_values(rest));
                        assert forall|k: int| 0 <= k < rest.len() implies #[trigger] hex_number(rest[k], 0xFF) is Some by {
                            assert((seq![word] + rest)[k + 1] == rest[k]);
                        }
                    }
                    out.push(v);
                } else {
                    assert(words_from(s@, i as int, start as int) =~= rest);
                }
                i = i + w;
                start = i;
            } else {
                i = i + 1;
            }
        }
        if start < i {
            let ghost word = s@.subrange(start as int, i as int);
            assert(words_from(s@, i as int, start as int) == seq![word]);
            assert(hex_number(word, 0xFF) is Some) by {
                assert(seq![word][0] == word);
            }
            let v = match parse_hex_u8(&s[start..i]) {
                Some(v) => v,
                None => unreached(),
            };
            proof {
                assert(byte_values(seq![word]) =~= seq![v]);
            }
            out.push(v);
        } else {
            assert(byte_values(words_from(s@, i as int, start as int)) =~= Seq::<u8>::empty());
        }
        assert(out@ =~= byte_values(all));
        out
    }
}

} // verus!
