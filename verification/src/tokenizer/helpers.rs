//! Helpers of the word tables: integer code words and letters taken from a set.
use crate::text::{
    char_no_case, char_no_case_at, find, find_byte, lower, lower_byte, parsed_as, skip_space,
    space0_end, tag_no_case, tag_no_case_at, ParseError,
};
use crate::value::{parse_u32, parse_value, sp_u32, sp_value, Value, ValueModel};
use vstd::prelude::*;
use vstd::string::StringSliceAdditionalSpecFns;

verus! {

/// `letter` in any case immediately followed by an integer that fits a `u32` (no sign, no
/// point): the integer and the end of the word.
pub open spec fn sp_int_code(s: Seq<u8>, p: int, letter: u8) -> Option<(u32, int)> {
    if char_no_case_at(s, p, letter) {
        sp_u32(s, p + 1)
    } else {
        None
    }
}

pub fn parse_int_code(s: &[u8], p: usize, letter: u8) -> (r: Option<(u32, usize)>)
    requires
        p <= s.len(),
    ensures
        match sp_int_code(s@, p as int, letter) {
            Some((n, e)) => r matches Some((m, f)) && m == n && f == e,
            None => r is None,
        },
        r matches Some((_, e)) ==> p < e <= s.len() && s@[e - 1] < 0x80,
{
    if char_no_case(s, p, letter) {
        parse_u32(s, p + 1)
    } else {
        None
    }
}

/// `c` is one of the bytes of `set`, compared without regard to ASCII case.
pub open spec fn in_set_no_case(c: u8, set: Seq<u8>) -> bool {
    exists|k: int| 0 <= k < set.len() && lower(#[trigger] set[k]) == lower(c)
}

/// One character at `p` that is one of the characters of `set` in any case; the character
/// as it is written.
pub open spec fn sp_one_of_no_case(s: Seq<u8>, p: int, set: Seq<u8>) -> Option<(char, int)> {
    if 0 <= p < s.len() && in_set_no_case(s[p], set) {
        Some((s[p] as char, p + 1))
    } else {
        None
    }
}

fn in_set(c: u8, set: &[u8]) -> (r: bool)
    ensures
        r == in_set_no_case(c, set@),
{
    let lc = lower_byte(c);
    let mut k: usize = 0;
    while k < set.len()
        invariant
            k <= set.len(),
            lc == lower(c),
            forall|j: int| 0 <= j < k ==> lower(#[trigger] set@[j]) != lower(c),
        decreases set.len() - k,
    {
        if lower_byte(set[k]) == lc {
            assert(lower(set@[k as int]) == lower(c));
            return true;
        }
        k = k + 1;
    }
    false
}

pub fn parse_one_of_no_case(s: &[u8], p: usize, set: &[u8]) -> (r: Option<(char, usize)>)
    requires
        p <= s.len(),
        forall|j: int| 0 <= j < set@.len() ==> #[trigger] set@[j] < 0x80,
    ensures
        parsed_as(r, sp_one_of_no_case(s@, p as int, set@)),
        r matches Some((_, e)) ==> e == p + 1 && e <= s.len() && s@[p as int] < 0x80,
{
    if p < s.len() && in_set(s[p], set) {
        let c = s[p];
        proof {
            let k = choose|k: int| 0 <= k < set@.len() && lower(#[trigger] set@[k]) == lower(c);
            assert(set@[k] < 0x80);
        }
        Some((c as char, p + 1))
    } else {
        None
    }
}

/// Parse one byte that is one of the characters of `chars`, without regard to ASCII case;
/// the byte comes back as the `char` of the same number
pub fn one_of_no_case<'a>(i: &'a [u8], chars: &str) -> (r: Result<(&'a [u8], char), ParseError>)
    ensures
        match sp_one_of_no_case(i@, 0, chars.spec_bytes()) {
            Some((c, e)) => r matches Ok((rest, d)) && d == c && rest@ == i@.subrange(e, i@.len() as int),
            None => r is Err,
        },
{
    if i.len() > 0 && in_set(i[0], chars.as_bytes()) {
        let (_, rest) = i.split_at(1);
        Ok((rest, i[0] as char))
    } else {
        Err(ParseError)
    }
}

/// ASCII upper case; every other byte is left as it is.
pub open spec fn upper(c: u8) -> u8 {
    if 0x61 <= c <= 0x7a {
        (c - 32) as u8
    } else {
        c
    }
}

/// A letter of `set` in any case, optional spaces and a value that may carry a sign: the
/// letter in upper case, the value and where the value ends.
pub open spec fn sp_one_of_value(s: Seq<u8>, p: int, set: Seq<u8>) -> Option<(u8, ValueModel, int)> {
    match sp_one_of_no_case(s, p, set) {
        Some((_, e)) => match sp_value(s, space0_end(s, e), true) {
            Some((v, e2)) => Some((upper(s[p]), v, e2)),
            None => None,
        },
        None => None,
    }
}

pub fn parse_one_of_value(i: &str, p: usize, set: &[u8]) -> (r: Option<(u8, Value, usize)>)
    requires
        p <= i.spec_bytes().len(),
        forall|j: int| 0 <= j < set@.len() ==> #[trigger] set@[j] < 0x80,
    ensures
        match sp_one_of_value(i.spec_bytes(), p as int, set@) {
            Some((l, v, e)) => r matches Some((l2, v2, e2)) && l2 == l && v2@ == v && e2 == e,
            None => r is None,
        },
        r matches Some((_, _, e)) ==> p < e <= i.spec_bytes().len() && i.spec_bytes()[e - 1] < 0x80,
{
    let s = i.as_bytes();
    match parse_one_of_no_case(s, p, set) {
        Some((_, e)) => match parse_value(i, skip_space(s, e), true) {
            Some((v, e2)) => {
                let c = s[p];
                let l = if 0x61 <= c && c <= 0x7a {
                    c - 32
                } else {
                    c
                };
                Some((l, v, e2))
            },
            None => None,
        },
        None => None,
    }
}

/// `prefix` in any case immediately followed by a `u32` literal (digits only, no sign): the
/// number and where it ends.
pub open spec fn sp_preceded_u32(s: Seq<u8>, p: int, prefix: Seq<u8>) -> Option<(u32, int)> {
    if tag_no_case_at(s, p, prefix) {
        sp_u32(s, p + prefix.len())
    } else {
        None
    }
}

/// Parse `preceding` (in any case) and then an unsigned integer that fits a `u32`
pub fn preceded_u32<'a>(i: &'a [u8], preceding: &str) -> (r: Result<(&'a [u8], u32), ParseError>)
    ensures
        match sp_preceded_u32(i@, 0, preceding.spec_bytes()) {
            Some((n, e)) => r matches Ok((rest, m)) && m == n && rest@ == i@.subrange(e, i@.len() as int),
            None => r is Err,
        },
{
    let t = preceding.as_bytes();
    if !tag_no_case(i, 0, t) {
        return Err(ParseError);
    }
    match parse_u32(i, t.len()) {
        Some((n, e)) => {
            let (_, rest) = i.split_at(e);
            Ok((rest, n))
        },
        None => Err(ParseError),
    }
}

/// The first `\r\n` at or after `p`.
pub open spec fn find_crlf(s: Seq<u8>, p: int) -> Option<int>
    decreases s.len() - p,
{
    if p < 0 || p + 1 >= s.len() {
        None
    } else if s[p] == 0x0d && s[p + 1] == 0x0a {
        Some(p)
    } else {
        find_crlf(s, p + 1)
    }
}

/// Where the text of a line ends: before the first `\r\n` when there is one anywhere, else
/// before the first `\n`.
pub open spec fn line_text_end(s: Seq<u8>) -> Option<int> {
    match find_crlf(s, 0) {
        Some(k) => Some(k),
        None => find_byte(s, 0, 0x0a),
    }
}

pub(crate) fn find_crlf_from(s: &[u8], p: usize) -> (r: Option<usize>)
    requires
        p <= s.len(),
    ensures
        match find_crlf(s@, p as int) {
            Some(k) => r matches Some(j) && j == k,
            None => r is None,
        },
        r matches Some(j) ==> j < s.len(),
{
    if s.len() == 0 {
        return None;
    }
    let mut k = p;
    while k < s.len() - 1
        invariant
            0 < s.len(),
            p <= k <= s.len(),
            find_crlf(s@, p as int) == find_crlf(s@, k as int),
        decreases s.len() - k,
    {
        if s[k] == 0x0d && s[k + 1] == 0x0a {
            return Some(k);
        }
        k = k + 1;
    }
    None
}

/// Take the bytes up to a line ending: up to the first `\r\n` if the input holds one, else
/// up to the first `\n`; the line ending stays in the rest
pub fn take_until_line_ending(i: &[u8]) -> (r: Result<(&[u8], &[u8]), ParseError>)
    ensures
        match line_text_end(i@) {
            Some(k) => r matches Ok((rest, taken)) && taken@ == i@.subrange(0, k) && rest@
                == i@.subrange(k, i@.len() as int),
            None => r is Err,
        },
{
    proof {
        crate::text::lemma_find_byte(i@, 0, 0x0a);
    }
    let end = match find_crlf_from(i, 0) {
        Some(k) => k,
        None => match find(i, 0, 0x0a) {
            Some(k) => k,
            None => {
                return Err(ParseError);
            },
        },
    };
    let (taken, rest) = i.split_at(end);
    Ok((rest, taken))
}

} // verus!
