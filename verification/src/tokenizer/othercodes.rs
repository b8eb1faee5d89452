//! The words of the token set that are neither G- nor M-codes: tool number, spindle speed
//! and feed rate.
use super::helpers::{parse_int_code, sp_int_code};
use crate::text::{
    char_no_case, char_no_case_at, digits_end, digits_val, digits_value, finish,
    lemma_digits_end, parsed_as, result_matches, skip_digits, skip_ws, ws_end, ParseResult,
};
use crate::value::{parse_number, sp_number, Decimal, DecimalModel};
use vstd::prelude::*;
use vstd::string::StringSliceAdditionalSpecFns;

verus! {

/// A tool number, spindle speed or feed rate
#[derive(Debug, PartialEq)]
pub enum OtherCode {
    /// Select a tool (`T`)
    ToolSelect(u32),
    /// Set the spindle speed (`S`)
    SpindleSpeed(i32),
    /// Set the feed rate (`F`)
    FeedRate(Decimal),
}

pub enum OtherCodeModel {
    ToolSelect(u32),
    SpindleSpeed(i32),
    FeedRate(DecimalModel),
}

impl View for OtherCode {
    type V = OtherCodeModel;

    open spec fn view(&self) -> OtherCodeModel {
        match self {
            OtherCode::ToolSelect(n) => OtherCodeModel::ToolSelect(*n),
            OtherCode::SpindleSpeed(n) => OtherCodeModel::SpindleSpeed(*n),
            OtherCode::FeedRate(d) => OtherCodeModel::FeedRate(d@),
        }
    }
}

/// `T` in any case and a `u32` literal.
pub open spec fn sp_tool_number(s: Seq<u8>, p: int) -> Option<(OtherCodeModel, int)> {
    match sp_int_code(s, p, 0x54) {
        Some((n, e)) => Some((OtherCodeModel::ToolSelect(n), e)),
        None => None,
    }
}

pub fn parse_tool_number(i: &str, p: usize) -> (r: Option<(OtherCode, usize)>)
    requires
        p <= i.spec_bytes().len(),
    ensures
        parsed_as(r, sp_tool_number(i.spec_bytes(), p as int)),
        r matches Some((_, e)) ==> p < e <= i.spec_bytes().len() && i.spec_bytes()[e - 1] < 0x80,
{
    match parse_int_code(i.as_bytes(), p, 0x54) {
        Some((n, e)) => Some((OtherCode::ToolSelect(n), e)),
        None => None,
    }
}

/// Parse a tool number (`T1`)
pub fn tool_number(i: &str) -> (r: ParseResult<OtherCode>)
    ensures
        result_matches(i, r, sp_tool_number(i.spec_bytes(), 0)),
{
    finish(i, parse_tool_number(i, 0))
}

/// An integer at `p` with an optional sign, when it fits an `i32`, and where it ends.
pub open spec fn sp_i32(s: Seq<u8>, p: int) -> Option<(i32, int)> {
    let has_sign = 0 <= p < s.len() && (s[p] == 0x2b || s[p] == 0x2d);
    let q = if has_sign {
        p + 1
    } else {
        p
    };
    let e = digits_end(s, q);
    let v: int = digits_val(s.subrange(q, e)) as int;
    let x: int = if has_sign && s[p] == 0x2d {
        -v
    } else {
        v
    };
    if e > q && i32::MIN <= x <= i32::MAX {
        Some((x as i32, e))
    } else {
        None
    }
}

fn parse_i32(s: &[u8], p: usize) -> (r: Option<(i32, usize)>)
    requires
        p <= s.len(),
    ensures
        match sp_i32(s@, p as int) {
            Some((n, e)) => r matches Some((m, f)) && m == n && f == e,
            None => r is None,
        },
        r matches Some((_, e)) ==> p < e <= s.len() && s@[e - 1] < 0x80,
{
    let has_sign = p < s.len() && (s[p] == 0x2b || s[p] == 0x2d);
    let q = if has_sign {
        p + 1
    } else {
        p
    };
    let e = skip_digits(s, q);
    proof {
        lemma_digits_end(s@, q as int);
    }
    if e == q {
        return None;
    }
    let v = digits_value(s, q, e, 0x8000_0001);
    if has_sign && s[p] == 0x2d {
        if v > 0x8000_0000 {
            None
        } else {
            Some(((0 - (v as i64)) as i32, e))
        }
    } else {
        if v > 0x7fff_ffff {
            None
        } else {
            Some((v as i32, e))
        }
    }
}

/// `S` in any case and an integer that may carry a sign and fits an `i32`.
pub open spec fn sp_spindle_speed(s: Seq<u8>, p: int) -> Option<(OtherCodeModel, int)> {
    if char_no_case_at(s, p, 0x53) {
        match sp_i32(s, p + 1) {
            Some((n, e)) => Some((OtherCodeModel::SpindleSpeed(n), e)),
            None => None,
        }
    } else {
        None
    }
}

pub fn parse_spindle_speed(i: &str, p: usize) -> (r: Option<(OtherCode, usize)>)
    requires
        p <= i.spec_bytes().len(),
    ensures
        parsed_as(r, sp_spindle_speed(i.spec_bytes(), p as int)),
        r matches Some((_, e)) ==> p < e <= i.spec_bytes().len() && i.spec_bytes()[e - 1] < 0x80,
{
    let s = i.as_bytes();
    if !char_no_case(s, p, 0x53) {
        return None;
    }
    match parse_i32(s, p + 1) {
        Some((n, e)) => Some((OtherCode::SpindleSpeed(n), e)),
        None => None,
    }
}

/// Parse a spindle speed (`S1000`)
pub fn spindle_speed(i: &str) -> (r: ParseResult<OtherCode>)
    ensures
        result_matches(i, r, sp_spindle_speed(i.spec_bytes(), 0)),
{
    finish(i, parse_spindle_speed(i, 0))
}

/// `F` in any case and a decimal number that may carry a sign, with whitespace before the
/// `F`, between the `F` and the number, and after the number.
pub open spec fn sp_feedrate(s: Seq<u8>, p: int) -> Option<(OtherCodeModel, int)> {
    let f = ws_end(s, p);
    if char_no_case_at(s, f, 0x46) {
        match sp_number(s, ws_end(s, f + 1), true) {
            Some((d, e)) => Some((OtherCodeModel::FeedRate(d), ws_end(s, e))),
            None => None,
        }
    } else {
        None
    }
}

pub fn parse_feedrate(i: &str, p: usize) -> (r: Option<(OtherCode, usize)>)
    requires
        p <= i.spec_bytes().len(),
    ensures
        parsed_as(r, sp_feedrate(i.spec_bytes(), p as int)),
        r matches Some((_, e)) ==> p < e <= i.spec_bytes().len() && i.spec_bytes()[e - 1] < 0x80,
{
    let s = i.as_bytes();
    let f = skip_ws(s, p);
    if !char_no_case(s, f, 0x46) {
        return None;
    }
    match parse_number(s, skip_ws(s, f + 1), true) {
        Some((d, e)) => Some((OtherCode::FeedRate(d), skip_ws(s, e))),
        None => None,
    }
}

/// Parse a feed rate (`F100`)
pub fn feedrate(i: &str) -> (r: ParseResult<OtherCode>)
    ensures
        result_matches(i, r, sp_feedrate(i.spec_bytes(), 0)),
{
    finish(i, parse_feedrate(i, 0))
}

/// A tool number, else a spindle speed, else a feed rate at `p`.
pub open spec fn sp_othercode(s: Seq<u8>, p: int) -> Option<(OtherCodeModel, int)> {
    match sp_tool_number(s, p) {
        Some(r) => Some(r),
        None => match sp_spindle_speed(s, p) {
            Some(r) => Some(r),
            None => sp_feedrate(s, p),
        },
    }
}

/// The letter of a word: `T` tool, `S` spindle speed, `F` feed rate.
pub open spec fn othercode_letter(m: OtherCodeModel) -> u8 {
    match m {
        OtherCodeModel::ToolSelect(_) => 0x54,
        OtherCodeModel::SpindleSpeed(_) => 0x53,
        OtherCodeModel::FeedRate(_) => 0x46,
    }
}

/// A word is of the kind its letter says (in any case): the letter stands at `p`, or for a
/// feed rate after optional whitespace.
pub proof fn lemma_othercode_letter(s: Seq<u8>, p: int)
    ensures
        sp_othercode(s, p) matches Some((m, _)) ==> char_no_case_at(s, ws_end(s, p), othercode_letter(m)),
{
    if 0 <= p < s.len() && (char_no_case_at(s, p, 0x54) || char_no_case_at(s, p, 0x53)) {
        assert(ws_end(s, p) == p);
    }
}

pub fn parse_othercode(i: &str, p: usize) -> (r: Option<(OtherCode, usize)>)
    requires
        p <= i.spec_bytes().len(),
    ensures
        parsed_as(r, sp_othercode(i.spec_bytes(), p as int)),
        r matches Some((_, e)) ==> p < e <= i.spec_bytes().len() && i.spec_bytes()[e - 1] < 0x80,
{
    if let Some(r) = parse_tool_number(i, p) {
        return Some(r);
    }
    if let Some(r) = parse_spindle_speed(i, p) {
        return Some(r);
    }
    parse_feedrate(i, p)
}

/// Parse a tool number, spindle speed or feed rate
pub fn othercode(i: &str) -> (r: ParseResult<OtherCode>)
    ensures
        result_matches(i, r, sp_othercode(i.spec_bytes(), 0)),
{
    finish(i, parse_othercode(i, 0))
}

} // verus!
