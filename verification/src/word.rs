//! Words: a letter followed by a code number, such as `G1`, `g01` or `G59.1`.
use crate::text::{char_no_case, char_no_case_at, digits_val, digits_value, lower, skip_ws, ws_end};
use crate::text::agree_from;
use crate::value::{lemma_number_frame, parse_number, sp_number, DecimalModel};
use vstd::prelude::*;

verus! {

broadcast use vstd::seq::group_seq_axioms;

/// Ten times the value of a parsed number, when it has at most one digit after the point.
pub open spec fn tenths(d: DecimalModel) -> Option<nat> {
    if d.fraction.len() == 0 {
        Some(digits_val(d.integer) * 10)
    } else if d.fraction.len() == 1 {
        Some(digits_val(d.integer) * 10 + (d.fraction[0] - 0x30) as nat)
    } else {
        None
    }
}

/// A code word at `p`: `letter` in any case, then an unsigned number with at most one
/// digit after the point. The result is ten times that number (`G28.1` gives 281), and
/// the end of the word.
pub open spec fn sp_code(s: Seq<u8>, p: int, letter: u8) -> Option<(nat, int)> {
    sp_word_code(s, p, letter, false, false)
}

/// Like [`sp_code`]; when `signed`, the number may carry a sign, and a `-` is accepted only
/// on zero; when `spaced`, whitespace (spaces, tabs, line breaks) may stand between the
/// letter and the number.
pub open spec fn sp_word_code(s: Seq<u8>, p: int, letter: u8, signed: bool, spaced: bool) -> Option<
    (nat, int),
> {
    if char_no_case_at(s, p, letter) {
        let q = if spaced {
            ws_end(s, p + 1)
        } else {
            p + 1
        };
        match sp_number(s, q, signed) {
            Some((d, e)) => if d.negative {
                None
            } else {
                match tenths(d) {
                    Some(c) => Some((c, e)),
                    None => None,
                }
            },
            None => None,
        }
    } else {
        None
    }
}

/// Codes above this bound are reported as this bound.
pub open spec fn code_cap() -> nat {
    1_000_000_000
}

/// Parses a code word at `p` (see [`sp_code`]); a code at or above [`code_cap`] comes
/// back as [`code_cap`].
pub fn parse_code(s: &[u8], p: usize, letter: u8) -> (r: Option<(u64, usize)>)
    requires
        p <= s.len(),
    ensures
        match sp_code(s@, p as int, letter) {
            Some((c, e)) => r matches Some((c2, e2)) && e2 == e && c2 == (if c < code_cap() {
                c
            } else {
                code_cap()
            }),
            None => r is None,
        },
        r matches Some((_, e)) ==> p < e <= s.len() && s@[e - 1] < 0x80,
{
    parse_word_code(s, p, letter, false, false)
}

/// Parses a code word at `p` (see [`sp_word_code`]); a code at or above [`code_cap`]
/// comes back as [`code_cap`].
pub fn parse_word_code(s: &[u8], p: usize, letter: u8, signed: bool, spaced: bool) -> (r: Option<
    (u64, usize),
>)
    requires
        p <= s.len(),
    ensures
        match sp_word_code(s@, p as int, letter, signed, spaced) {
            Some((c, e)) => r matches Some((c2, e2)) && e2 == e && c2 == (if c < code_cap() {
                c
            } else {
                code_cap()
            }),
            None => r is None,
        },
        r matches Some((_, e)) ==> p < e <= s.len() && s@[e - 1] < 0x80,
{
    if !char_no_case(s, p, letter) {
        return None;
    }
    let q = if spaced {
        skip_ws(s, p + 1)
    } else {
        p + 1
    };
    match parse_number(s, q, signed) {
        Some((d, e)) => {
            if d.negative {
                return None;
            }
            let flen = d.fraction.len();
            if flen > 1 {
                return None;
            }
            let ilen = d.integer.len();
            let iv = digits_value(d.integer.as_slice(), 0, ilen, 100_000_000);
            proof {
                assert(d.integer@.subrange(0, ilen as int) =~= d.integer@);
            }
            if iv >= 100_000_000 {
                return Some((1_000_000_000, e));
            }
            let frac: u64 = if flen == 1 {
                (d.fraction[0] - 0x30) as u64
            } else {
                0
            };
            Some((iv * 10 + frac, e))
        },
        None => None,
    }
}

/// A code word reads the same whatever the case of its letter: `g1` is `G1`.
pub proof fn lemma_code_case_insensitive(s: Seq<u8>, p: int, letter: u8, c: u8)
    requires
        0 <= p < s.len(),
        lower(c) == lower(s[p]),
    ensures
        sp_code(s, p, letter) == sp_code(s.update(p, c), p, letter),
{
    let t = s.update(p, c);
    assert(agree_from(s, t, p + 1));
    lemma_number_frame(s, t, p + 1, false);
}

} // verus!
