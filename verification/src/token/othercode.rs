use crate::text::{char_no_case, char_no_case_at, finish, parsed_as, result_matches, ParseResult};
use crate::value::{
    parse_preceded_unsigned_value, parse_preceded_value, parse_u32, sp_preceded_unsigned_value,
    sp_preceded_value, sp_u32, UnsignedValue, UnsignedValueModel, Value, ValueModel,
};
use vstd::prelude::*;
use vstd::string::StringSliceAdditionalSpecFns;

verus! {

/// Define a feed rate in machine units per minute
#[derive(Debug, PartialEq)]
pub struct Feedrate {
    /// Feed rate in machine units per minute
    pub feedrate: Value,
}

impl View for Feedrate {
    type V = ValueModel;

    open spec fn view(&self) -> ValueModel {
        self.feedrate@
    }
}

/// Spindle speed value
#[derive(Debug, PartialEq)]
pub struct SpindleSpeed {
    /// Spindle speed value in revolutions per minute (RPM)
    ///
    /// This value cannot be negative. Reverse rotation is achieved by issuing an `M4 Sxxxx` command
    pub rpm: Value,
}

impl View for SpindleSpeed {
    type V = ValueModel;

    open spec fn view(&self) -> ValueModel {
        self.rpm@
    }
}

/// Tool number `Tn`
#[derive(Debug, PartialEq)]
pub struct ToolNumber {
    /// Positive integer tool number
    pub tool_number: UnsignedValue,
}

impl View for ToolNumber {
    type V = UnsignedValueModel;

    open spec fn view(&self) -> UnsignedValueModel {
        self.tool_number@
    }
}

/// Line number `Nn`
#[derive(Debug, PartialEq, Eq, Clone, Copy)]
pub struct LineNumber {
    /// Positive integer line number
    pub line_number: u32,
}

impl View for LineNumber {
    type V = u32;

    open spec fn view(&self) -> u32 {
        self.line_number
    }
}

/// `F` and a value without a sign.
pub open spec fn sp_feedrate(s: Seq<u8>, p: int) -> Option<(ValueModel, int)> {
    sp_preceded_value(s, p, 0x46, false)
}

/// `S` and a value without a sign.
pub open spec fn sp_spindle_speed(s: Seq<u8>, p: int) -> Option<(ValueModel, int)> {
    sp_preceded_value(s, p, 0x53, false)
}

/// `T` and an unsigned value.
pub open spec fn sp_tool_number(s: Seq<u8>, p: int) -> Option<(UnsignedValueModel, int)> {
    sp_preceded_unsigned_value(s, p, 0x54)
}

/// `N` immediately followed by digits that fit a `u32`.
pub open spec fn sp_line_number(s: Seq<u8>, p: int) -> Option<(u32, int)> {
    if char_no_case_at(s, p, 0x4e) {
        sp_u32(s, p + 1)
    } else {
        None
    }
}

pub fn parse_feedrate(i: &str, p: usize) -> (r: Option<(Feedrate, usize)>)
    requires
        p <= i.spec_bytes().len(),
    ensures
        parsed_as(r, sp_feedrate(i.spec_bytes(), p as int)),
        r matches Some((_, e)) ==> p < e <= i.spec_bytes().len() && i.spec_bytes()[e - 1] < 0x80,
{
    match parse_preceded_value(i, p, 0x46, false) {
        Some((feedrate, e)) => Some((Feedrate { feedrate }, e)),
        None => None,
    }
}

pub fn parse_spindle_speed(i: &str, p: usize) -> (r: Option<(SpindleSpeed, usize)>)
    requires
        p <= i.spec_bytes().len(),
    ensures
        parsed_as(r, sp_spindle_speed(i.spec_bytes(), p as int)),
        r matches Some((_, e)) ==> p < e <= i.spec_bytes().len() && i.spec_bytes()[e - 1] < 0x80,
{
    match parse_preceded_value(i, p, 0x53, false) {
        Some((rpm, e)) => Some((SpindleSpeed { rpm }, e)),
        None => None,
    }
}

pub fn parse_tool_number(i: &str, p: usize) -> (r: Option<(ToolNumber, usize)>)
    requires
        p <= i.spec_bytes().len(),
    ensures
        parsed_as(r, sp_tool_number(i.spec_bytes(), p as int)),
        r matches Some((_, e)) ==> p < e <= i.spec_bytes().len() && i.spec_bytes()[e - 1] < 0x80,
{
    match parse_preceded_unsigned_value(i, p, 0x54) {
        Some((tool_number, e)) => Some((ToolNumber { tool_number }, e)),
        None => None,
    }
}

pub fn parse_line_number(s: &[u8], p: usize) -> (r: Option<(LineNumber, usize)>)
    requires
        p <= s.len(),
    ensures
        parsed_as(r, sp_line_number(s@, p as int)),
        r matches Some((_, e)) ==> p < e <= s.len() && s@[e - 1] < 0x80,
{
    if char_no_case(s, p, 0x4e) {
        match parse_u32(s, p + 1) {
            Some((line_number, e)) => Some((LineNumber { line_number }, e)),
            None => None,
        }
    } else {
        None
    }
}

/// Parse a feed rate (`F` and a non-negative value)
pub fn feedrate(i: &str) -> (r: ParseResult<Feedrate>)
    ensures
        result_matches(i, r, sp_feedrate(i.spec_bytes(), 0)),
{
    finish(i, parse_feedrate(i, 0))
}

/// Parse a spindle speed (`S` and a non-negative value)
pub fn spindle_speed(i: &str) -> (r: ParseResult<SpindleSpeed>)
    ensures
        result_matches(i, r, sp_spindle_speed(i.spec_bytes(), 0)),
{
    finish(i, parse_spindle_speed(i, 0))
}

/// Parse a tool number (`T` and an unsigned value)
pub fn tool_number(i: &str) -> (r: ParseResult<ToolNumber>)
    ensures
        result_matches(i, r, sp_tool_number(i.spec_bytes(), 0)),
{
    finish(i, parse_tool_number(i, 0))
}

/// Parse a line number (`N` and digits)
pub fn raw_line_number(i: &str) -> (r: ParseResult<LineNumber>)
    ensures
        result_matches(i, r, sp_line_number(i.spec_bytes(), 0)),
{
    finish(i, parse_line_number(i.as_bytes(), 0))
}

/// A spindle speed or feed rate written as a number is never negative: these words take
/// no sign.
pub proof fn lemma_speed_and_feed_not_negative(s: Seq<u8>, p: int)
    ensures
        sp_spindle_speed(s, p) matches Some((ValueModel::Literal(d), _)) ==> !d.negative,
        sp_feedrate(s, p) matches Some((ValueModel::Literal(d), _)) ==> !d.negative,
{
}

} // verus!
