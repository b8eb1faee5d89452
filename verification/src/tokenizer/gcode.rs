//! The whole G-code table of the token set: every G-code word this token set knows, the
//! words that stand alone in it (moves, arcs, dwell, path blending, resets), and the parser
//! that tries each entry of the table in turn.
use super::gcodes::{
    parse_cutter_compensation, parse_distance_mode, parse_feedrate_mode,
    parse_g_spaced, parse_lathe_measurement_mode, parse_plane_select, parse_predefined_position,
    parse_straight_probe, parse_tool_length_compensation, parse_units, parse_work_offset,
    sp_cutter_compensation, sp_distance_mode, sp_feedrate_mode, sp_g, sp_g_spaced,
    sp_lathe_measurement_mode, sp_plane_select, sp_predefined_position, sp_straight_probe,
    sp_tool_length_compensation, sp_units, sp_work_offset, CutterCompensation,
    CutterCompensationModel, DistanceMode, FeedrateMode, LatheMeasurementMode, Plane,
    PredefinedPositionCommand, StraightProbe, StraightProbeModel, ToolLengthCompensation,
    ToolLengthCompensationModel, Units, WorkOffset, cutter_code, distance_mode_number,
    feedrate_mode_number, lathe_mode_code, plane_code, predefined_position_code,
    tool_length_code, units_number, work_offset_number,
};
use super::helpers::{parse_int_code, sp_int_code};
use crate::text::{finish, parsed_as, result_matches, skip_ws, ws_end, ParseResult};
use crate::token::gcode::cutter_compensation::opt_value_model;
use crate::value::{parse_preceded_value, sp_preceded_value, Value, ValueModel};
use crate::word::parse_word_code;
use vstd::prelude::*;
use vstd::string::StringSliceAdditionalSpecFns;

verus! {

/// Path blending mode
#[derive(Debug, PartialEq)]
pub enum PathBlendingMode {
    /// Blend the path (`G64`), with an optional path tolerance (`P`) and an optional
    /// naive CAM tolerance (`Q`)
    Blended((Option<Value>, Option<Value>)),
    /// Follow the exact path (`G61`)
    ExactPath,
}

pub enum PathBlendingModel {
    Blended(Option<ValueModel>, Option<ValueModel>),
    ExactPath,
}

impl View for PathBlendingMode {
    type V = PathBlendingModel;

    open spec fn view(&self) -> PathBlendingModel {
        match self {
            PathBlendingMode::Blended((p, q)) => PathBlendingModel::Blended(
                opt_value_model(*p),
                opt_value_model(*q),
            ),
            PathBlendingMode::ExactPath => PathBlendingModel::ExactPath,
        }
    }
}

/// Every G-code of the table
#[derive(Debug, PartialEq)]
pub enum GCode {
    /// Rapid move (`G0`)
    RapidMove,
    /// Move at the current feed rate (`G1`)
    LinearMove,
    /// Clockwise arc (`G2`)
    ClockwiseArc,
    /// Counterclockwise arc (`G3`)
    CounterclockwiseArc,
    /// Plane select (`G17` to `G19.1`)
    PlaneSelect(Plane),
    /// Units (`G20`, `G21`)
    Units(Units),
    /// Go to or store a predefined position (`G28`, `G30`, `G28.1`, `G30.1`)
    PredefinedPosition(PredefinedPositionCommand),
    /// Straight probe (`G38.2` to `G38.5`)
    StraightProbe(StraightProbe),
    /// Cutter compensation (`G40`, `G41`, `G42`)
    CutterCompensation(CutterCompensation),
    /// Tool length compensation (`G43`, `G43.1`, `G49`)
    ToolLengthCompensation(ToolLengthCompensation),
    /// Wait for the given number of seconds (`G4 P..`)
    Dwell(Value),
    /// Move in machine coordinates (`G53`)
    GlobalMove,
    /// Work offset (`G54`)
    WorkOffset(WorkOffset),
    /// Path blending mode (`G61`, `G64`)
    PathBlendingMode(PathBlendingMode),
    /// Lathe measurement mode (`G7`, `G8`)
    LatheMeasurementMode(LatheMeasurementMode),
    /// Cancel the canned cycle (`G80`)
    CancelCannedCycle,
    /// Distance mode (`G90`, `G91`)
    DistanceMode(DistanceMode),
    /// Coordinate system offset (`G92`)
    CoordinateSystemOffset,
    /// Reset the coordinate system offset and its parameters (`G92.1`)
    CoordinateSystemOffsetHardReset,
    /// Reset the coordinate system offset, keeping its parameters (`G92.2`)
    CoordinateSystemOffsetSoftReset,
    /// Feed rate mode (`G93`, `G94`, `G95`)
    FeedrateMode(FeedrateMode),
}

pub enum GCodeModel {
    RapidMove,
    LinearMove,
    ClockwiseArc,
    CounterclockwiseArc,
    PlaneSelect(Plane),
    Units(Units),
    PredefinedPosition(PredefinedPositionCommand),
    StraightProbe(StraightProbeModel),
    CutterCompensation(CutterCompensationModel),
    ToolLengthCompensation(ToolLengthCompensationModel),
    Dwell(ValueModel),
    GlobalMove,
    WorkOffset(WorkOffset),
    PathBlendingMode(PathBlendingModel),
    LatheMeasurementMode(LatheMeasurementMode),
    CancelCannedCycle,
    DistanceMode(DistanceMode),
    CoordinateSystemOffset,
    CoordinateSystemOffsetHardReset,
    CoordinateSystemOffsetSoftReset,
    FeedrateMode(FeedrateMode),
}

impl View for GCode {
    type V = GCodeModel;

    open spec fn view(&self) -> GCodeModel {
        match self {
            GCode::RapidMove => GCodeModel::RapidMove,
            GCode::LinearMove => GCodeModel::LinearMove,
            GCode::ClockwiseArc => GCodeModel::ClockwiseArc,
            GCode::CounterclockwiseArc => GCodeModel::CounterclockwiseArc,
            GCode::PlaneSelect(x) => GCodeModel::PlaneSelect(*x),
            GCode::Units(x) => GCodeModel::Units(*x),
            GCode::PredefinedPosition(x) => GCodeModel::PredefinedPosition(*x),
            GCode::StraightProbe(x) => GCodeModel::StraightProbe(x@),
            GCode::CutterCompensation(x) => GCodeModel::CutterCompensation(x@),
            GCode::ToolLengthCompensation(x) => GCodeModel::ToolLengthCompensation(x@),
            GCode::Dwell(x) => GCodeModel::Dwell(x@),
            GCode::GlobalMove => GCodeModel::GlobalMove,
            GCode::WorkOffset(x) => GCodeModel::WorkOffset(*x),
            GCode::PathBlendingMode(x) => GCodeModel::PathBlendingMode(x@),
            GCode::LatheMeasurementMode(x) => GCodeModel::LatheMeasurementMode(*x),
            GCode::CancelCannedCycle => GCodeModel::CancelCannedCycle,
            GCode::DistanceMode(x) => GCodeModel::DistanceMode(*x),
            GCode::CoordinateSystemOffset => GCodeModel::CoordinateSystemOffset,
            GCode::CoordinateSystemOffsetHardReset => GCodeModel::CoordinateSystemOffsetHardReset,
            GCode::CoordinateSystemOffsetSoftReset => GCodeModel::CoordinateSystemOffsetSoftReset,
            GCode::FeedrateMode(x) => GCodeModel::FeedrateMode(*x),
        }
    }
}

/// `G` and exactly the integer `n` (no sign, no point), standing for the table entry `g`.
pub open spec fn sp_int_word(s: Seq<u8>, p: int, n: u32, g: GCodeModel) -> Option<(GCodeModel, int)> {
    match sp_int_code(s, p, 0x47) {
        Some((m, e)) => if m == n {
            Some((g, e))
        } else {
            None
        },
        None => None,
    }
}

/// Where the word `G<n>` (see [`sp_int_word`]) at `p` ends.
fn int_word_end(i: &str, p: usize, n: u32) -> (r: Option<usize>)
    requires
        p <= i.spec_bytes().len(),
    ensures
        match sp_int_code(i.spec_bytes(), p as int, 0x47) {
            Some((m, e)) => if m == n {
                r matches Some(k) && k == e
            } else {
                r is None
            },
            None => r is None,
        },
        r matches Some(e) ==> p < e <= i.spec_bytes().len() && i.spec_bytes()[e - 1] < 0x80,
{
    match parse_int_code(i.as_bytes(), p, 0x47) {
        Some((m, e)) => if m == n {
            Some(e)
        } else {
            None
        },
        None => None,
    }
}

/// `G` and the value `c / 10` (see [`sp_g`]), standing for the table entry `g`.
pub open spec fn sp_value_word(s: Seq<u8>, p: int, c: nat, g: GCodeModel) -> Option<(GCodeModel, int)> {
    match sp_g(s, p) {
        Some((d, e)) => if d == c {
            Some((g, e))
        } else {
            None
        },
        None => None,
    }
}

/// Where the word of [`sp_value_word`] at `p` ends.
fn value_word_end(i: &str, p: usize, c: u64) -> (r: Option<usize>)
    requires
        p <= i.spec_bytes().len(),
        c < 1_000_000_000,
    ensures
        match sp_g(i.spec_bytes(), p as int) {
            Some((d, e)) => if d == c {
                r matches Some(k) && k == e
            } else {
                r is None
            },
            None => r is None,
        },
        r matches Some(e) ==> p < e <= i.spec_bytes().len() && i.spec_bytes()[e - 1] < 0x80,
{
    match parse_word_code(i.as_bytes(), p, 0x47, true, false) {
        Some((d, e)) => if d == c {
            Some(e)
        } else {
            None
        },
        None => None,
    }
}

/// A rapid move, `G0`.
pub open spec fn sp_rapid_move(s: Seq<u8>, p: int) -> Option<(GCodeModel, int)> {
    sp_int_word(s, p, 0, GCodeModel::RapidMove)
}

pub fn parse_rapid_move(i: &str, p: usize) -> (r: Option<(GCode, usize)>)
    requires
        p <= i.spec_bytes().len(),
    ensures
        parsed_as(r, sp_rapid_move(i.spec_bytes(), p as int)),
        r matches Some((_, e)) ==> p < e <= i.spec_bytes().len() && i.spec_bytes()[e - 1] < 0x80,
{
    match int_word_end(i, p, 0) {
        Some(e) => Some((GCode::RapidMove, e)),
        None => None,
    }
}

/// Parse a rapid move (`G0`)
pub fn rapid_move(i: &str) -> (r: ParseResult<GCode>)
    ensures
        result_matches(i, r, sp_rapid_move(i.spec_bytes(), 0)),
{
    finish(i, parse_rapid_move(i, 0))
}

/// A move at the current feed rate, `G1` (the number compared by its value).
pub open spec fn sp_linear_move(s: Seq<u8>, p: int) -> Option<(GCodeModel, int)> {
    sp_value_word(s, p, 10, GCodeModel::LinearMove)
}

pub fn parse_linear_move(i: &str, p: usize) -> (r: Option<(GCode, usize)>)
    requires
        p <= i.spec_bytes().len(),
    ensures
        parsed_as(r, sp_linear_move(i.spec_bytes(), p as int)),
        r matches Some((_, e)) ==> p < e <= i.spec_bytes().len() && i.spec_bytes()[e - 1] < 0x80,
{
    match value_word_end(i, p, 10) {
        Some(e) => Some((GCode::LinearMove, e)),
        None => None,
    }
}

/// Parse a linear move (`G1`)
pub fn linear_move(i: &str) -> (r: ParseResult<GCode>)
    ensures
        result_matches(i, r, sp_linear_move(i.spec_bytes(), 0)),
{
    finish(i, parse_linear_move(i, 0))
}

/// An arc: `G2` clockwise or `G3` counterclockwise, the number read as an integer.
pub open spec fn sp_arc(s: Seq<u8>, p: int) -> Option<(GCodeModel, int)> {
    match sp_int_code(s, p, 0x47) {
        Some((n, e)) => if n == 2 {
            Some((GCodeModel::ClockwiseArc, e))
        } else if n == 3 {
            Some((GCodeModel::CounterclockwiseArc, e))
        } else {
            None
        },
        None => None,
    }
}

pub fn parse_arc(i: &str, p: usize) -> (r: Option<(GCode, usize)>)
    requires
        p <= i.spec_bytes().len(),
    ensures
        parsed_as(r, sp_arc(i.spec_bytes(), p as int)),
        r matches Some((_, e)) ==> p < e <= i.spec_bytes().len() && i.spec_bytes()[e - 1] < 0x80,
{
    match parse_int_code(i.as_bytes(), p, 0x47) {
        Some((n, e)) => if n == 2 {
            Some((GCode::ClockwiseArc, e))
        } else if n == 3 {
            Some((GCode::CounterclockwiseArc, e))
        } else {
            None
        },
        None => None,
    }
}

/// Parse an arc direction word (`G2`, `G3`)
pub fn arc(i: &str) -> (r: ParseResult<GCode>)
    ensures
        result_matches(i, r, sp_arc(i.spec_bytes(), 0)),
{
    finish(i, parse_arc(i, 0))
}

/// A clockwise arc, `G2` (the number compared by its value).
pub open spec fn sp_cw_arc(s: Seq<u8>, p: int) -> Option<(GCodeModel, int)> {
    sp_value_word(s, p, 20, GCodeModel::ClockwiseArc)
}

pub fn parse_cw_arc(i: &str, p: usize) -> (r: Option<(GCode, usize)>)
    requires
        p <= i.spec_bytes().len(),
    ensures
        parsed_as(r, sp_cw_arc(i.spec_bytes(), p as int)),
        r matches Some((_, e)) ==> p < e <= i.spec_bytes().len() && i.spec_bytes()[e - 1] < 0x80,
{
    match value_word_end(i, p, 20) {
        Some(e) => Some((GCode::ClockwiseArc, e)),
        None => None,
    }
}

/// Parse a clockwise arc word (`G2`)
pub fn cw_arc(i: &str) -> (r: ParseResult<GCode>)
    ensures
        result_matches(i, r, sp_cw_arc(i.spec_bytes(), 0)),
{
    finish(i, parse_cw_arc(i, 0))
}

/// A counterclockwise arc, `G3` (the number compared by its value).
pub open spec fn sp_ccw_arc(s: Seq<u8>, p: int) -> Option<(GCodeModel, int)> {
    sp_value_word(s, p, 30, GCodeModel::CounterclockwiseArc)
}

pub fn parse_ccw_arc(i: &str, p: usize) -> (r: Option<(GCode, usize)>)
    requires
        p <= i.spec_bytes().len(),
    ensures
        parsed_as(r, sp_ccw_arc(i.spec_bytes(), p as int)),
        r matches Some((_, e)) ==> p < e <= i.spec_bytes().len() && i.spec_bytes()[e - 1] < 0x80,
{
    match value_word_end(i, p, 30) {
        Some(e) => Some((GCode::CounterclockwiseArc, e)),
        None => None,
    }
}

/// Parse a counterclockwise arc word (`G3`)
pub fn ccw_arc(i: &str) -> (r: ParseResult<GCode>)
    ensures
        result_matches(i, r, sp_ccw_arc(i.spec_bytes(), 0)),
{
    finish(i, parse_ccw_arc(i, 0))
}

/// A move in machine coordinates, `G53`.
pub open spec fn sp_global_move(s: Seq<u8>, p: int) -> Option<(GCodeModel, int)> {
    sp_int_word(s, p, 53, GCodeModel::GlobalMove)
}

pub fn parse_global_move(i: &str, p: usize) -> (r: Option<(GCode, usize)>)
    requires
        p <= i.spec_bytes().len(),
    ensures
        parsed_as(r, sp_global_move(i.spec_bytes(), p as int)),
        r matches Some((_, e)) ==> p < e <= i.spec_bytes().len() && i.spec_bytes()[e - 1] < 0x80,
{
    match int_word_end(i, p, 53) {
        Some(e) => Some((GCode::GlobalMove, e)),
        None => None,
    }
}

/// Parse a global move (`G53`)
pub fn global_move(i: &str) -> (r: ParseResult<GCode>)
    ensures
        result_matches(i, r, sp_global_move(i.spec_bytes(), 0)),
{
    finish(i, parse_global_move(i, 0))
}

/// The end of a canned cycle, `G80`.
pub open spec fn sp_canned_cycle(s: Seq<u8>, p: int) -> Option<(GCodeModel, int)> {
    sp_int_word(s, p, 80, GCodeModel::CancelCannedCycle)
}

pub fn parse_canned_cycle(i: &str, p: usize) -> (r: Option<(GCode, usize)>)
    requires
        p <= i.spec_bytes().len(),
    ensures
        parsed_as(r, sp_canned_cycle(i.spec_bytes(), p as int)),
        r matches Some((_, e)) ==> p < e <= i.spec_bytes().len() && i.spec_bytes()[e - 1] < 0x80,
{
    match int_word_end(i, p, 80) {
        Some(e) => Some((GCode::CancelCannedCycle, e)),
        None => None,
    }
}

/// Parse a canned cycle cancel (`G80`)
pub fn canned_cycle(i: &str) -> (r: ParseResult<GCode>)
    ensures
        result_matches(i, r, sp_canned_cycle(i.spec_bytes(), 0)),
{
    finish(i, parse_canned_cycle(i, 0))
}

/// `G92`, `G92.1` or `G92.2`, with whitespace around the number (see [`sp_g_spaced`]).
pub open spec fn sp_coordinate_system_offset(s: Seq<u8>, p: int) -> Option<(GCodeModel, int)> {
    match sp_g_spaced(s, p) {
        Some((c, e)) => if c == 920 {
            Some((GCodeModel::CoordinateSystemOffset, e))
        } else if c == 921 {
            Some((GCodeModel::CoordinateSystemOffsetHardReset, e))
        } else if c == 922 {
            Some((GCodeModel::CoordinateSystemOffsetSoftReset, e))
        } else {
            None
        },
        None => None,
    }
}

pub fn parse_coordinate_system_offset(i: &str, p: usize) -> (r: Option<(GCode, usize)>)
    requires
        p <= i.spec_bytes().len(),
    ensures
        parsed_as(r, sp_coordinate_system_offset(i.spec_bytes(), p as int)),
        r matches Some((_, e)) ==> p < e <= i.spec_bytes().len() && i.spec_bytes()[e - 1] < 0x80,
{
    match parse_g_spaced(i.as_bytes(), p) {
        Some((c, e)) => if c == 920 {
            Some((GCode::CoordinateSystemOffset, e))
        } else if c == 921 {
            Some((GCode::CoordinateSystemOffsetHardReset, e))
        } else if c == 922 {
            Some((GCode::CoordinateSystemOffsetSoftReset, e))
        } else {
            None
        },
        None => None,
    }
}

/// Parse a coordinate system offset word (`G92`, `G92.1`, `G92.2`)
pub fn coordinate_system_offset(i: &str) -> (r: ParseResult<GCode>)
    ensures
        result_matches(i, r, sp_coordinate_system_offset(i.spec_bytes(), 0)),
{
    finish(i, parse_coordinate_system_offset(i, 0))
}

/// `G4` and a `P` word with the number of seconds (a signed value), with whitespace before
/// the `G4`, between the two words and after the value.
pub open spec fn sp_dwell(s: Seq<u8>, p: int) -> Option<(GCodeModel, int)> {
    match sp_g(s, ws_end(s, p)) {
        Some((c, e)) => if c == 40 {
            match sp_preceded_value(s, ws_end(s, e), 0x50, true) {
                Some((v, e2)) => Some((GCodeModel::Dwell(v), ws_end(s, e2))),
                None => None,
            }
        } else {
            None
        },
        None => None,
    }
}

pub fn parse_dwell(i: &str, p: usize) -> (r: Option<(GCode, usize)>)
    requires
        p <= i.spec_bytes().len(),
    ensures
        parsed_as(r, sp_dwell(i.spec_bytes(), p as int)),
        r matches Some((_, e)) ==> p < e <= i.spec_bytes().len() && i.spec_bytes()[e - 1] < 0x80,
{
    let s = i.as_bytes();
    match value_word_end(i, skip_ws(s, p), 40) {
        Some(e) => {
            let q = skip_ws(s, e);
            match parse_preceded_value(i, q, 0x50, true) {
                Some((v, e2)) => Some((GCode::Dwell(v), skip_ws(s, e2))),
                None => None,
            }
        },
        None => None,
    }
}

/// Parse a dwell (`G4 P<seconds>`)
pub fn dwell(i: &str) -> (r: ParseResult<GCode>)
    ensures
        result_matches(i, r, sp_dwell(i.spec_bytes(), 0)),
{
    finish(i, parse_dwell(i, 0))
}

/// Whitespace and an optional `letter` word with a signed value at `p`, then the
/// whitespace after it; where they end.
pub open spec fn sp_opt_tolerance(s: Seq<u8>, p: int, letter: u8) -> (Option<ValueModel>, int) {
    match sp_preceded_value(s, ws_end(s, p), letter, true) {
        Some((v, e)) => (Some(v), ws_end(s, e)),
        None => (None, ws_end(s, p)),
    }
}

fn parse_opt_tolerance(i: &str, p: usize, letter: u8) -> (r: (Option<Value>, usize))
    requires
        p <= i.spec_bytes().len(),
    ensures
        opt_value_model(r.0) == sp_opt_tolerance(i.spec_bytes(), p as int, letter).0,
        r.1 == sp_opt_tolerance(i.spec_bytes(), p as int, letter).1,
        p <= r.1 <= i.spec_bytes().len(),
        r.1 > p ==> i.spec_bytes()[r.1 - 1] < 0x80,
{
    let s = i.as_bytes();
    let q = skip_ws(s, p);
    match parse_preceded_value(i, q, letter, true) {
        Some((v, e)) => (Some(v), skip_ws(s, e)),
        None => (None, q),
    }
}

/// `G64` with an optional `P` and then an optional `Q` tolerance, with whitespace before
/// the `G64`, between the words and after them; else `G61`.
pub open spec fn sp_path_blending(s: Seq<u8>, p: int) -> Option<(GCodeModel, int)> {
    match sp_g(s, ws_end(s, p)) {
        Some((c, e)) if c == 640 => {
            let (pv, e1) = sp_opt_tolerance(s, e, 0x50);
            let (qv, e2) = sp_opt_tolerance(s, e1, 0x51);
            Some((GCodeModel::PathBlendingMode(PathBlendingModel::Blended(pv, qv)), e2))
        },
        _ => match sp_g(s, p) {
            Some((c, e)) if c == 610 => Some(
                (GCodeModel::PathBlendingMode(PathBlendingModel::ExactPath), e),
            ),
            _ => None,
        },
    }
}

pub fn parse_path_blending(i: &str, p: usize) -> (r: Option<(GCode, usize)>)
    requires
        p <= i.spec_bytes().len(),
    ensures
        parsed_as(r, sp_path_blending(i.spec_bytes(), p as int)),
        r matches Some((_, e)) ==> p < e <= i.spec_bytes().len() && i.spec_bytes()[e - 1] < 0x80,
{
    let s = i.as_bytes();
    if let Some((c, e)) = parse_word_code(s, skip_ws(s, p), 0x47, true, false) {
        if c == 640 {
            let (pv, e1) = parse_opt_tolerance(i, e, 0x50);
            let (qv, e2) = parse_opt_tolerance(i, e1, 0x51);
            return Some((GCode::PathBlendingMode(PathBlendingMode::Blended((pv, qv))), e2));
        }
    }
    match parse_word_code(s, p, 0x47, true, false) {
        Some((c, e)) => if c == 610 {
            Some((GCode::PathBlendingMode(PathBlendingMode::ExactPath), e))
        } else {
            None
        },
        None => None,
    }
}

/// Parse a path blending mode word (`G61`, `G64 P.. Q..`)
pub fn path_blending(i: &str) -> (r: ParseResult<GCode>)
    ensures
        result_matches(i, r, sp_path_blending(i.spec_bytes(), 0)),
{
    finish(i, parse_path_blending(i, 0))
}

/// The first of two outcomes that is a success.
pub open spec fn or_else(a: Option<(GCodeModel, int)>, b: Option<(GCodeModel, int)>) -> Option<
    (GCodeModel, int),
> {
    if a is Some {
        a
    } else {
        b
    }
}

/// A group's outcome as an entry of the table.
pub open spec fn lifted<T>(r: Option<(T, int)>, f: spec_fn(T) -> GCodeModel) -> Option<(GCodeModel, int)> {
    match r {
        Some((x, e)) => Some((f(x), e)),
        None => None,
    }
}

/// The first half of the table: moves, plane, units, predefined positions, arcs, probes
/// and compensation.
pub open spec fn sp_gcode_motion(s: Seq<u8>, p: int) -> Option<(GCodeModel, int)> {
    or_else(
        sp_rapid_move(s, p),
        or_else(
            lifted(sp_plane_select(s, p), |x| GCodeModel::PlaneSelect(x)),
            or_else(
                sp_linear_move(s, p),
                or_else(
                    lifted(sp_units(s, p), |x| GCodeModel::Units(x)),
                    or_else(
                        lifted(sp_predefined_position(s, p), |x| GCodeModel::PredefinedPosition(x)),
                        or_else(
                            sp_arc(s, p),
                            or_else(
                                lifted(sp_straight_probe(s, p), |x| GCodeModel::StraightProbe(x)),
                                or_else(
                                    lifted(sp_cutter_compensation(s, p), |x| GCodeModel::CutterCompensation(x)),
                                    lifted(sp_tool_length_compensation(s, p), |x| GCodeModel::ToolLengthCompensation(x)),
                                ),
                            ),
                        ),
                    ),
                ),
            ),
        ),
    )
}

/// The second half of the table: dwell, global moves, offsets, blending, lathe mode,
/// canned cycles, distance mode, coordinate system offsets and feed rate mode.
pub open spec fn sp_gcode_modes(s: Seq<u8>, p: int) -> Option<(GCodeModel, int)> {
    or_else(
        sp_dwell(s, p),
        or_else(
            sp_global_move(s, p),
            or_else(
                lifted(sp_work_offset(s, p), |x| GCodeModel::WorkOffset(x)),
                or_else(
                    sp_path_blending(s, p),
                    or_else(
                        lifted(sp_lathe_measurement_mode(s, p), |x| GCodeModel::LatheMeasurementMode(x)),
                        or_else(
                            sp_canned_cycle(s, p),
                            or_else(
                                lifted(sp_distance_mode(s, p), |x| GCodeModel::DistanceMode(x)),
                                or_else(
                                    sp_coordinate_system_offset(s, p),
                                    lifted(sp_feedrate_mode(s, p), |x| GCodeModel::FeedrateMode(x)),
                                ),
                            ),
                        ),
                    ),
                ),
            ),
        ),
    )
}

/// Any G-code of the table at `p`: its entries are tried in this order, and the first that
/// reads a word wins: rapid move, plane select, linear move, units, predefined position,
/// arc, straight probe, cutter compensation, tool length compensation, dwell, global move,
/// work offset, path blending, lathe measurement mode, canned cycle, distance mode,
/// coordinate system offset, feed rate mode.
pub open spec fn sp_gcode(s: Seq<u8>, p: int) -> Option<(GCodeModel, int)> {
    or_else(sp_gcode_motion(s, p), sp_gcode_modes(s, p))
}

/// The code of a table entry, ten times the number of its G word: `G0` is 0, `G1` is 10,
/// `G38.2` is 382, `G92.1` is 921.
pub open spec fn gcode_code(g: GCodeModel) -> nat {
    match g {
        GCodeModel::RapidMove => 0,
        GCodeModel::LinearMove => 10,
        GCodeModel::ClockwiseArc => 20,
        GCodeModel::CounterclockwiseArc => 30,
        GCodeModel::PlaneSelect(pl) => plane_code(pl),
        GCodeModel::Units(u) => (10 * units_number(u)) as nat,
        GCodeModel::PredefinedPosition(m) => predefined_position_code(m),
        GCodeModel::StraightProbe(m) => m.code,
        GCodeModel::CutterCompensation(m) => cutter_code(m),
        GCodeModel::ToolLengthCompensation(m) => tool_length_code(m),
        GCodeModel::Dwell(_) => 40,
        GCodeModel::GlobalMove => 530,
        GCodeModel::WorkOffset(w) => (10 * work_offset_number(w)) as nat,
        GCodeModel::PathBlendingMode(PathBlendingModel::Blended(_, _)) => 640,
        GCodeModel::PathBlendingMode(PathBlendingModel::ExactPath) => 610,
        GCodeModel::LatheMeasurementMode(m) => lathe_mode_code(m),
        GCodeModel::CancelCannedCycle => 800,
        GCodeModel::DistanceMode(m) => (10 * distance_mode_number(m)) as nat,
        GCodeModel::CoordinateSystemOffset => 920,
        GCodeModel::CoordinateSystemOffsetHardReset => 921,
        GCodeModel::CoordinateSystemOffsetSoftReset => 922,
        GCodeModel::FeedrateMode(m) => (10 * feedrate_mode_number(m)) as nat,
    }
}

/// Whether the G word at `p` has code `c` (ten times its number), read in one of the ways
/// the table reads a word: at `p`, after whitespace, with whitespace inside, or as an
/// integer.
pub open spec fn g_word_has_code(s: Seq<u8>, p: int, c: nat) -> bool {
    ||| sp_g(s, p) matches Some((d, _)) && d == c
    ||| sp_g(s, ws_end(s, p)) matches Some((d, _)) && d == c
    ||| sp_g_spaced(s, p) matches Some((d, _)) && d == c
    ||| sp_int_code(s, p, 0x47) matches Some((n, _)) && 10 * n == c
}

/// The entry of the table read at `p` is the one whose code is written there: `G0` is a
/// rapid move, `G2` a clockwise arc, `G49` disables tool length compensation, and so on for
/// every entry.
pub proof fn lemma_gcode_code(s: Seq<u8>, p: int)
    ensures
        sp_gcode(s, p) matches Some((g, _)) ==> g_word_has_code(s, p, gcode_code(g)),
{
}

fn parse_gcode_motion(i: &str, p: usize) -> (r: Option<(GCode, usize)>)
    requires
        p <= i.spec_bytes().len(),
    ensures
        parsed_as(r, sp_gcode_motion(i.spec_bytes(), p as int)),
        r matches Some((_, e)) ==> p < e <= i.spec_bytes().len() && i.spec_bytes()[e - 1] < 0x80,
{
    if let Some(r) = parse_rapid_move(i, p) {
        return Some(r);
    }
    if let Some((x, e)) = parse_plane_select(i, p) {
        return Some((GCode::PlaneSelect(x), e));
    }
    if let Some(r) = parse_linear_move(i, p) {
        return Some(r);
    }
    if let Some((x, e)) = parse_units(i, p) {
        return Some((GCode::Units(x), e));
    }
    if let Some((x, e)) = parse_predefined_position(i, p) {
        return Some((GCode::PredefinedPosition(x), e));
    }
    if let Some(r) = parse_arc(i, p) {
        return Some(r);
    }
    if let Some((x, e)) = parse_straight_probe(i, p) {
        return Some((GCode::StraightProbe(x), e));
    }
    if let Some((x, e)) = parse_cutter_compensation(i, p) {
        return Some((GCode::CutterCompensation(x), e));
    }
    if let Some((x, e)) = parse_tool_length_compensation(i, p) {
        return Some((GCode::ToolLengthCompensation(x), e));
    }
    None
}

fn parse_gcode_modes(i: &str, p: usize) -> (r: Option<(GCode, usize)>)
    requires
        p <= i.spec_bytes().len(),
    ensures
        parsed_as(r, sp_gcode_modes(i.spec_bytes(), p as int)),
        r matches Some((_, e)) ==> p < e <= i.spec_bytes().len() && i.spec_bytes()[e - 1] < 0x80,
{
    if let Some(r) = parse_dwell(i, p) {
        return Some(r);
    }
    if let Some(r) = parse_global_move(i, p) {
        return Some(r);
    }
    if let Some((x, e)) = parse_work_offset(i, p) {
        return Some((GCode::WorkOffset(x), e));
    }
    if let Some(r) = parse_path_blending(i, p) {
        return Some(r);
    }
    if let Some((x, e)) = parse_lathe_measurement_mode(i, p) {
        return Some((GCode::LatheMeasurementMode(x), e));
    }
    if let Some(r) = parse_canned_cycle(i, p) {
        return Some(r);
    }
    if let Some((x, e)) = parse_distance_mode(i, p) {
        return Some((GCode::DistanceMode(x), e));
    }
    if let Some(r) = parse_coordinate_system_offset(i, p) {
        return Some(r);
    }
    if let Some((x, e)) = parse_feedrate_mode(i, p) {
        return Some((GCode::FeedrateMode(x), e));
    }
    None
}

pub fn parse_gcode(i: &str, p: usize) -> (r: Option<(GCode, usize)>)
    requires
        p <= i.spec_bytes().len(),
    ensures
        parsed_as(r, sp_gcode(i.spec_bytes(), p as int)),
        r matches Some((_, e)) ==> p < e <= i.spec_bytes().len() && i.spec_bytes()[e - 1] < 0x80,
{
    match parse_gcode_motion(i, p) {
        Some(r) => Some(r),
        None => parse_gcode_modes(i, p),
    }
}

/// Parse any G-code of the table
pub fn gcode(i: &str) -> (r: ParseResult<GCode>)
    ensures
        result_matches(i, r, sp_gcode(i.spec_bytes(), 0)),
{
    finish(i, parse_gcode(i, 0))
}

} // verus!
