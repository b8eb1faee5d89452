use crate::text::{
    digits_val, finish, is_digit, lemma_tag_bytes, lower, parsed_as, result_matches, tag_no_case,
    tag_no_case_at, ParseResult,
};
use vstd::prelude::*;
use vstd::string::StringSliceAdditionalSpecFns;

verus! {

/// An M-code
#[derive(Debug, PartialEq, Eq, Clone, Copy)]
pub enum MCode {
    /// Turn the spindle clockwise
    SpindleForward,
    /// Turn the spindle counter-clockwise
    SpindleReverse,
    /// Stop the spindle
    SpindleStop,
    /// Change tool
    ToolChange,
    /// End program
    EndProgram,
    /// Swap pallets and end program (M30)
    EndProgramSwapPallets,
    /// Optional pause (M1)
    OptionalPause,
}

impl View for MCode {
    type V = MCode;

    open spec fn view(&self) -> MCode {
        *self
    }
}

/// The word `t` at `p` (any case), not followed by another digit.
pub open spec fn tag_word(s: Seq<u8>, p: int, t: Seq<u8>) -> bool {
    &&& tag_no_case_at(s, p, t)
    &&& !(p + t.len() < s.len() && is_digit(s[p + t.len()]))
}

/// An M-code at `p`: the words `M1`, `M2`, `M02`, `M30`, `M3`, `M4`, `M5` and `M6` (in any
/// case), tried in this order, each standing alone: a word followed by another digit, such
/// as `M10` or `M61`, is none of them.
pub open spec fn sp_mcode(s: Seq<u8>, p: int) -> Option<(MCode, int)> {
    if tag_word(s, p, seq![0x4d, 0x31]) {
        Some((MCode::OptionalPause, p + 2))
    } else if tag_word(s, p, seq![0x4d, 0x32]) {
        Some((MCode::EndProgram, p + 2))
    } else if tag_word(s, p, seq![0x4d, 0x30, 0x32]) {
        Some((MCode::EndProgram, p + 3))
    } else if tag_word(s, p, seq![0x4d, 0x33, 0x30]) {
        Some((MCode::EndProgramSwapPallets, p + 3))
    } else if tag_word(s, p, seq![0x4d, 0x33]) {
        Some((MCode::SpindleForward, p + 2))
    } else if tag_word(s, p, seq![0x4d, 0x34]) {
        Some((MCode::SpindleReverse, p + 2))
    } else if tag_word(s, p, seq![0x4d, 0x35]) {
        Some((MCode::SpindleStop, p + 2))
    } else if tag_word(s, p, seq![0x4d, 0x36]) {
        Some((MCode::ToolChange, p + 2))
    } else {
        None
    }
}

/// The number of an M-code: `M1` is 1, `M30` is 30.
pub open spec fn mcode_number(m: MCode) -> nat {
    match m {
        MCode::OptionalPause => 1,
        MCode::EndProgram => 2,
        MCode::EndProgramSwapPallets => 30,
        MCode::SpindleForward => 3,
        MCode::SpindleReverse => 4,
        MCode::SpindleStop => 5,
        MCode::ToolChange => 6,
    }
}

/// The shortest word of an M-code: `M` and its number.
pub open spec fn mcode_word(m: MCode) -> Seq<u8> {
    match m {
        MCode::OptionalPause => seq![0x4du8, 0x31],
        MCode::EndProgram => seq![0x4du8, 0x32],
        MCode::EndProgramSwapPallets => seq![0x4du8, 0x33, 0x30],
        MCode::SpindleForward => seq![0x4du8, 0x33],
        MCode::SpindleReverse => seq![0x4du8, 0x34],
        MCode::SpindleStop => seq![0x4du8, 0x35],
        MCode::ToolChange => seq![0x4du8, 0x36],
    }
}

/// An M-code is the code whose number is written: it is read from an `M` (in any case)
/// and all the digits that follow it, and their value is the number of the code.
pub proof fn lemma_mcode_number(s: Seq<u8>, p: int)
    ensures
        sp_mcode(s, p) matches Some((m, e)) ==> {
            &&& 0 <= p
            &&& p + 1 < e <= s.len()
            &&& lower(s[p]) == lower(0x4d)
            &&& forall|i: int| p < i < e ==> is_digit(#[trigger] s[i])
            &&& !(e < s.len() && is_digit(s[e]))
            &&& digits_val(s.subrange(p + 1, e)) == mcode_number(m)
        },
{
    lemma_tag_bytes(s, p, seq![0x4d, 0x31]);
    lemma_tag_bytes(s, p, seq![0x4d, 0x32]);
    lemma_tag_bytes(s, p, seq![0x4d, 0x30, 0x32]);
    lemma_tag_bytes(s, p, seq![0x4d, 0x33, 0x30]);
    lemma_tag_bytes(s, p, seq![0x4d, 0x33]);
    lemma_tag_bytes(s, p, seq![0x4d, 0x34]);
    lemma_tag_bytes(s, p, seq![0x4d, 0x35]);
    lemma_tag_bytes(s, p, seq![0x4d, 0x36]);
    if let Some((m, e)) = sp_mcode(s, p) {
        let d = s.subrange(p + 1, e);
        assert(is_digit(s[p + 1]));
        if e == p + 2 {
            assert(d.drop_last() =~= Seq::<u8>::empty());
            assert(digits_val(Seq::<u8>::empty()) == 0);
            assert(d.last() == s[p + 1]);
        } else {
            assert(is_digit(s[p + 2]));
            assert(d.drop_last() =~= s.subrange(p + 1, p + 2));
            assert(d.drop_last().drop_last() =~= Seq::<u8>::empty());
            assert(digits_val(Seq::<u8>::empty()) == 0);
            assert(d.drop_last().last() == s[p + 1]);
            assert(d.last() == s[p + 2]);
        }
        assert(digits_val(d) == mcode_number(m));
    }
}

/// Wherever the word of an M-code stands on its own (in any case), that code is read.
pub proof fn lemma_mcode_word(s: Seq<u8>, p: int, m: MCode)
    ensures
        tag_word(s, p, mcode_word(m)) ==> sp_mcode(s, p) == Some(
            (m, p + mcode_word(m).len()),
        ),
{
    lemma_tag_bytes(s, p, seq![0x4d, 0x31]);
    lemma_tag_bytes(s, p, seq![0x4d, 0x32]);
    lemma_tag_bytes(s, p, seq![0x4d, 0x30, 0x32]);
    lemma_tag_bytes(s, p, seq![0x4d, 0x33, 0x30]);
    lemma_tag_bytes(s, p, seq![0x4d, 0x33]);
    lemma_tag_bytes(s, p, seq![0x4d, 0x34]);
    lemma_tag_bytes(s, p, seq![0x4d, 0x35]);
    lemma_tag_bytes(s, p, seq![0x4d, 0x36]);
}

/// Whether the word `t` stands at `p` (see [`tag_word`]).
fn word_at(s: &[u8], p: usize, t: &[u8]) -> (r: bool)
    requires
        1 <= t.len() <= 3,
        forall|k: int| 0 <= k < t@.len() ==> #[trigger] t@[k] < 0x80,
    ensures
        r == tag_word(s@, p as int, t@),
        r ==> p + t.len() <= s.len() && s@[p + t.len() - 1] < 0x80,
{
    if !tag_no_case(s, p, t) {
        return false;
    }
    let e = p + t.len();
    assert(t@[t.len() - 1] < 0x80);
    assert(s@[p + (t.len() - 1)] < 0x80);
    !(e < s.len() && 0x30 <= s[e] && s[e] <= 0x39)
}

pub fn parse_mcode(s: &[u8], p: usize) -> (r: Option<(MCode, usize)>)
    requires
        p <= s.len(),
    ensures
        parsed_as(r, sp_mcode(s@, p as int)),
        r matches Some((_, e)) ==> p < e <= s.len() && s@[e - 1] < 0x80,
{
    let m1: &[u8] = &[0x4d, 0x31];
    let m2: &[u8] = &[0x4d, 0x32];
    let m02: &[u8] = &[0x4d, 0x30, 0x32];
    let m30: &[u8] = &[0x4d, 0x33, 0x30];
    let m3: &[u8] = &[0x4d, 0x33];
    let m4: &[u8] = &[0x4d, 0x34];
    let m5: &[u8] = &[0x4d, 0x35];
    let m6: &[u8] = &[0x4d, 0x36];
    assert(m1@ =~= seq![0x4du8, 0x31]);
    assert(m2@ =~= seq![0x4du8, 0x32]);
    assert(m02@ =~= seq![0x4du8, 0x30, 0x32]);
    assert(m30@ =~= seq![0x4du8, 0x33, 0x30]);
    assert(m3@ =~= seq![0x4du8, 0x33]);
    assert(m4@ =~= seq![0x4du8, 0x34]);
    assert(m5@ =~= seq![0x4du8, 0x35]);
    assert(m6@ =~= seq![0x4du8, 0x36]);
    if word_at(s, p, m1) {
        Some((MCode::OptionalPause, p + 2))
    } else if word_at(s, p, m2) {
        Some((MCode::EndProgram, p + 2))
    } else if word_at(s, p, m02) {
        Some((MCode::EndProgram, p + 3))
    } else if word_at(s, p, m30) {
        Some((MCode::EndProgramSwapPallets, p + 3))
    } else if word_at(s, p, m3) {
        Some((MCode::SpindleForward, p + 2))
    } else if word_at(s, p, m4) {
        Some((MCode::SpindleReverse, p + 2))
    } else if word_at(s, p, m5) {
        Some((MCode::SpindleStop, p + 2))
    } else if word_at(s, p, m6) {
        Some((MCode::ToolChange, p + 2))
    } else {
        None
    }
}

/// Parse an M-code
pub fn mcode(i: &str) -> (r: ParseResult<MCode>)
    ensures
        result_matches(i, r, sp_mcode(i.spec_bytes(), 0)),
{
    finish(i, parse_mcode(i.as_bytes(), 0))
}

proof fn lemma_tag_word_case(s: Seq<u8>, p: int, c: u8, t: Seq<u8>)
    requires
        0 <= p < s.len(),
        lower(c) == lower(s[p]),
        t.len() >= 1,
    ensures
        tag_word(s, p, t) == tag_word(s.update(p, c), p, t),
{
    let s2 = s.update(p, c);
    assert forall|k: int| 0 <= k < t.len() && p + k < s.len() implies lower(#[trigger] s2[p + k])
        == lower(s[p + k]) by {
        if k > 0 {
            assert(s2[p + k] == s[p + k]);
        }
    }
    if tag_no_case_at(s, p, t) {
        assert forall|k: int| 0 <= k < t.len() implies lower(#[trigger] s2[p + k]) == lower(t[k]) by {
            assert(lower(s2[p + k]) == lower(s[p + k]));
        }
    }
    if tag_no_case_at(s2, p, t) {
        assert forall|k: int| 0 <= k < t.len() implies lower(#[trigger] s[p + k]) == lower(t[k]) by {
            assert(lower(s2[p + k]) == lower(s[p + k]));
        }
    }
    if p + t.len() < s.len() {
        assert(s2[p + t.len()] == s[p + t.len()]);
    }
}

/// An M-code reads the same whatever the case of its `M`: `m3` is `M3`.
pub proof fn lemma_mcode_case_insensitive(s: Seq<u8>, p: int, c: u8)
    requires
        0 <= p < s.len(),
        lower(c) == lower(s[p]),
    ensures
        sp_mcode(s, p) == sp_mcode(s.update(p, c), p),
{
    lemma_tag_word_case(s, p, c, seq![0x4d, 0x31]);
    lemma_tag_word_case(s, p, c, seq![0x4d, 0x32]);
    lemma_tag_word_case(s, p, c, seq![0x4d, 0x30, 0x32]);
    lemma_tag_word_case(s, p, c, seq![0x4d, 0x33, 0x30]);
    lemma_tag_word_case(s, p, c, seq![0x4d, 0x33]);
    lemma_tag_word_case(s, p, c, seq![0x4d, 0x34]);
    lemma_tag_word_case(s, p, c, seq![0x4d, 0x35]);
    lemma_tag_word_case(s, p, c, seq![0x4d, 0x36]);
}

} // verus!
