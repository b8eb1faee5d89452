//! The modal groups of G-codes, one enum each, and the parser of each group's words.
//!
//! A word is `G` in any case and its number. Some groups compare the number as an integer
//! (`G20`, never `G20.0`); the others compare its value, written with an optional sign and
//! at most one digit after the point (`G38.2`, `G017`). Some words bring their own
//! whitespace (spaces, tabs, line breaks): it may stand before them, inside them, and after
//! them, where it is taken as part of the word; each spec function says which.
use super::helpers::{parse_int_code, sp_int_code};
use crate::text::{finish, is_ws, parsed_as, result_matches, skip_ws, ws_end, ParseResult};
use crate::token::coord::{parse_coord, sp_coord, Coord};

use crate::value::{
    parse_preceded_unsigned_value, sp_preceded_unsigned_value, UnsignedValue,
    UnsignedValueModel,
};
use crate::word::{code_cap, parse_word_code, sp_word_code};
use vstd::prelude::*;
use vstd::string::StringSliceAdditionalSpecFns;

verus! {

/// `G` and a number compared by its value, directly after the letter: ten times the number
/// and the end.
pub open spec fn sp_g(s: Seq<u8>, p: int) -> Option<(nat, int)> {
    sp_word_code(s, p, 0x47, true, false)
}

/// Like [`sp_g`], for a word that brings its own whitespace: whitespace may stand before
/// the `G`, between the `G` and the number, and after the number, where it is taken too.
pub open spec fn sp_g_spaced(s: Seq<u8>, p: int) -> Option<(nat, int)> {
    match sp_word_code(s, ws_end(s, p), 0x47, true, true) {
        Some((c, e)) => Some((c, ws_end(s, e))),
        None => None,
    }
}

/// Parses the word of [`sp_g_spaced`] at `p`; a code at or above [`code_cap`] comes back
/// as [`code_cap`].
pub fn parse_g_spaced(s: &[u8], p: usize) -> (r: Option<(u64, usize)>)
    requires
        p <= s.len(),
    ensures
        match sp_g_spaced(s@, p as int) {
            Some((c, e)) => r matches Some((c2, e2)) && e2 == e && c2 == (if c < code_cap() {
                c
            } else {
                code_cap()
            }),
            None => r is None,
        },
        r matches Some((_, e)) ==> p < e <= s.len() && s@[e - 1] < 0x80,
{
    let q = skip_ws(s, p);
    match parse_word_code(s, q, 0x47, true, true) {
        Some((c, e)) => {
            let e2 = skip_ws(s, e);
            Some((c, e2))
        },
        None => None,
    }
}

/// Units selection
#[derive(Debug, PartialEq, Eq, Clone, Copy)]
pub enum Units {
    /// Use inch units for all distances (`G20`)
    Inch,
    /// Use millimeter units for all distances (`G21`)
    Mm,
}

impl View for Units {
    type V = Units;

    open spec fn view(&self) -> Units {
        *self
    }
}

/// `G20` or `G21`, the number read as an integer.
pub open spec fn sp_units(s: Seq<u8>, p: int) -> Option<(Units, int)> {
    match sp_int_code(s, p, 0x47) {
        Some((n, e)) => if n == 20 {
            Some((Units::Inch, e))
        } else if n == 21 {
            Some((Units::Mm, e))
        } else {
            None
        },
        None => None,
    }
}

/// The number of a units word: `G20` inch, `G21` millimetres.
pub open spec fn units_number(u: Units) -> u32 {
    match u {
        Units::Inch => 20,
        Units::Mm => 21,
    }
}

/// The units read at `p` are exactly those whose number is written there.
pub proof fn lemma_units_number(s: Seq<u8>, p: int, u: Units, e: int)
    ensures
        sp_units(s, p) == Some((u, e)) <==> sp_int_code(s, p, 0x47) == Some((units_number(u), e)),
{
}

pub fn parse_units(i: &str, p: usize) -> (r: Option<(Units, usize)>)
    requires
        p <= i.spec_bytes().len(),
    ensures
        parsed_as(r, sp_units(i.spec_bytes(), p as int)),
        r matches Some((_, e)) ==> p < e <= i.spec_bytes().len() && i.spec_bytes()[e - 1] < 0x80,
{
    match parse_int_code(i.as_bytes(), p, 0x47) {
        Some((n, e)) => if n == 20 {
            Some((Units::Inch, e))
        } else if n == 21 {
            Some((Units::Mm, e))
        } else {
            None
        },
        None => None,
    }
}

/// Parse a units word (`G20`, `G21`)
pub fn units(i: &str) -> (r: ParseResult<Units>)
    ensures
        result_matches(i, r, sp_units(i.spec_bytes(), 0)),
{
    finish(i, parse_units(i, 0))
}

/// Distance mode
#[derive(Debug, PartialEq, Eq, Clone, Copy)]
pub enum DistanceMode {
    /// Positions are absolute (`G90`)
    Absolute,
    /// Positions are relative to the current position (`G91`)
    Incremental,
}

impl View for DistanceMode {
    type V = DistanceMode;

    open spec fn view(&self) -> DistanceMode {
        *self
    }
}

/// `G90` or `G91`, the number read as an integer.
pub open spec fn sp_distance_mode(s: Seq<u8>, p: int) -> Option<(DistanceMode, int)> {
    match sp_int_code(s, p, 0x47) {
        Some((n, e)) => if n == 90 {
            Some((DistanceMode::Absolute, e))
        } else if n == 91 {
            Some((DistanceMode::Incremental, e))
        } else {
            None
        },
        None => None,
    }
}

/// The number of a distance mode word: `G90` absolute, `G91` incremental.
pub open spec fn distance_mode_number(m: DistanceMode) -> u32 {
    match m {
        DistanceMode::Absolute => 90,
        DistanceMode::Incremental => 91,
    }
}

/// The distance mode read at `p` is exactly the one whose number is written there.
pub proof fn lemma_distance_mode_number(s: Seq<u8>, p: int, m: DistanceMode, e: int)
    ensures
        sp_distance_mode(s, p) == Some((m, e)) <==> sp_int_code(s, p, 0x47) == Some(
            (distance_mode_number(m), e),
        ),
{
}

pub fn parse_distance_mode(i: &str, p: usize) -> (r: Option<(DistanceMode, usize)>)
    requires
        p <= i.spec_bytes().len(),
    ensures
        parsed_as(r, sp_distance_mode(i.spec_bytes(), p as int)),
        r matches Some((_, e)) ==> p < e <= i.spec_bytes().len() && i.spec_bytes()[e - 1] < 0x80,
{
    match parse_int_code(i.as_bytes(), p, 0x47) {
        Some((n, e)) => if n == 90 {
            Some((DistanceMode::Absolute, e))
        } else if n == 91 {
            Some((DistanceMode::Incremental, e))
        } else {
            None
        },
        None => None,
    }
}

/// Parse a distance mode word (`G90`, `G91`)
pub fn distance_mode(i: &str) -> (r: ParseResult<DistanceMode>)
    ensures
        result_matches(i, r, sp_distance_mode(i.spec_bytes(), 0)),
{
    finish(i, parse_distance_mode(i, 0))
}

/// Feed rate mode
#[derive(Debug, PartialEq, Eq, Clone, Copy)]
pub enum FeedrateMode {
    /// Inverse time (`G93`)
    InverseTime,
    /// Units per minute (`G94`)
    UnitsPerMinute,
    /// Units per revolution (`G95`)
    UnitsPerRevolution,
}

impl View for FeedrateMode {
    type V = FeedrateMode;

    open spec fn view(&self) -> FeedrateMode {
        *self
    }
}

/// `G93`, `G94` or `G95`, the number read as an integer.
pub open spec fn sp_feedrate_mode(s: Seq<u8>, p: int) -> Option<(FeedrateMode, int)> {
    match sp_int_code(s, p, 0x47) {
        Some((n, e)) => if n == 93 {
            Some((FeedrateMode::InverseTime, e))
        } else if n == 94 {
            Some((FeedrateMode::UnitsPerMinute, e))
        } else if n == 95 {
            Some((FeedrateMode::UnitsPerRevolution, e))
        } else {
            None
        },
        None => None,
    }
}

/// The number of a feed rate mode word: `G93` inverse time, `G94` units per minute, `G95`
/// units per revolution.
pub open spec fn feedrate_mode_number(m: FeedrateMode) -> u32 {
    match m {
        FeedrateMode::InverseTime => 93,
        FeedrateMode::UnitsPerMinute => 94,
        FeedrateMode::UnitsPerRevolution => 95,
    }
}

/// The feed rate mode read at `p` is exactly the one whose number is written there.
pub proof fn lemma_feedrate_mode_number(s: Seq<u8>, p: int, m: FeedrateMode, e: int)
    ensures
        sp_feedrate_mode(s, p) == Some((m, e)) <==> sp_int_code(s, p, 0x47) == Some(
            (feedrate_mode_number(m), e),
        ),
{
}

pub fn parse_feedrate_mode(i: &str, p: usize) -> (r: Option<(FeedrateMode, usize)>)
    requires
        p <= i.spec_bytes().len(),
    ensures
        parsed_as(r, sp_feedrate_mode(i.spec_bytes(), p as int)),
        r matches Some((_, e)) ==> p < e <= i.spec_bytes().len() && i.spec_bytes()[e - 1] < 0x80,
{
    match parse_int_code(i.as_bytes(), p, 0x47) {
        Some((n, e)) => if n == 93 {
            Some((FeedrateMode::InverseTime, e))
        } else if n == 94 {
            Some((FeedrateMode::UnitsPerMinute, e))
        } else if n == 95 {
            Some((FeedrateMode::UnitsPerRevolution, e))
        } else {
            None
        },
        None => None,
    }
}

/// Parse a feed rate mode word (`G93`, `G94`, `G95`)
pub fn feedrate_mode(i: &str) -> (r: ParseResult<FeedrateMode>)
    ensures
        result_matches(i, r, sp_feedrate_mode(i.spec_bytes(), 0)),
{
    finish(i, parse_feedrate_mode(i, 0))
}

/// Work offset
#[derive(Debug, PartialEq, Eq, Clone, Copy)]
pub enum WorkOffset {
    /// `G54`
    G54,
    /// `G55`
    G55,
}

impl View for WorkOffset {
    type V = WorkOffset;

    open spec fn view(&self) -> WorkOffset {
        *self
    }
}

/// `G54` or `G55`, the number read as an integer.
pub open spec fn sp_work_offset(s: Seq<u8>, p: int) -> Option<(WorkOffset, int)> {
    match sp_int_code(s, p, 0x47) {
        Some((n, e)) => if n == 54 {
            Some((WorkOffset::G54, e))
        } else if n == 55 {
            Some((WorkOffset::G55, e))
        } else {
            None
        },
        None => None,
    }
}

/// The number of a work offset word: `G54` or `G55`.
pub open spec fn work_offset_number(w: WorkOffset) -> u32 {
    match w {
        WorkOffset::G54 => 54,
        WorkOffset::G55 => 55,
    }
}

/// The work offset read at `p` is exactly the one whose number is written there.
pub proof fn lemma_work_offset_number(s: Seq<u8>, p: int, w: WorkOffset, e: int)
    ensures
        sp_work_offset(s, p) == Some((w, e)) <==> sp_int_code(s, p, 0x47) == Some(
            (work_offset_number(w), e),
        ),
{
}

pub fn parse_work_offset(i: &str, p: usize) -> (r: Option<(WorkOffset, usize)>)
    requires
        p <= i.spec_bytes().len(),
    ensures
        parsed_as(r, sp_work_offset(i.spec_bytes(), p as int)),
        r matches Some((_, e)) ==> p < e <= i.spec_bytes().len() && i.spec_bytes()[e - 1] < 0x80,
{
    match parse_int_code(i.as_bytes(), p, 0x47) {
        Some((n, e)) => if n == 54 {
            Some((WorkOffset::G54, e))
        } else if n == 55 {
            Some((WorkOffset::G55, e))
        } else {
            None
        },
        None => None,
    }
}

/// Parse a work offset word (`G54`, `G55`)
pub fn work_offset(i: &str) -> (r: ParseResult<WorkOffset>)
    ensures
        result_matches(i, r, sp_work_offset(i.spec_bytes(), 0)),
{
    finish(i, parse_work_offset(i, 0))
}

/// Plane select
#[derive(Debug, PartialEq, Eq, Clone, Copy)]
pub enum Plane {
    /// X-Y plane (`G17`)
    Xy,
    /// Z-X plane (`G18`)
    Zx,
    /// Y-Z plane (`G19`)
    Yz,
    /// U-V plane (`G17.1`)
    Uv,
    /// W-U plane (`G18.1`)
    Wu,
    /// V-W plane (`G19.1`)
    Vw,
}

impl View for Plane {
    type V = Plane;

    open spec fn view(&self) -> Plane {
        *self
    }
}

/// The plane of code `c` (ten times the number after `G`).
pub open spec fn plane_of(c: nat) -> Option<Plane> {
    if c == 171 {
        Some(Plane::Uv)
    } else if c == 181 {
        Some(Plane::Wu)
    } else if c == 191 {
        Some(Plane::Vw)
    } else if c == 170 {
        Some(Plane::Xy)
    } else if c == 180 {
        Some(Plane::Zx)
    } else if c == 190 {
        Some(Plane::Yz)
    } else {
        None
    }
}

/// The code of a plane, ten times its number: `G17` is 170, `G17.1` is 171.
pub open spec fn plane_code(pl: Plane) -> nat {
    match pl {
        Plane::Xy => 170,
        Plane::Zx => 180,
        Plane::Yz => 190,
        Plane::Uv => 171,
        Plane::Wu => 181,
        Plane::Vw => 191,
    }
}

/// The plane read at `p` is exactly the one whose code is written there.
pub proof fn lemma_plane_code(s: Seq<u8>, p: int, pl: Plane, e: int)
    ensures
        plane_of(plane_code(pl)) == Some(pl),
        sp_plane_select(s, p) == Some((pl, e)) <==> sp_g_spaced(s, p) == Some((plane_code(pl), e)),
{
}

fn plane_for(c: u64) -> (r: Option<Plane>)
    ensures
        r == plane_of(c as nat),
{
    if c == 171 {
        Some(Plane::Uv)
    } else if c == 181 {
        Some(Plane::Wu)
    } else if c == 191 {
        Some(Plane::Vw)
    } else if c == 170 {
        Some(Plane::Xy)
    } else if c == 180 {
        Some(Plane::Zx)
    } else if c == 190 {
        Some(Plane::Yz)
    } else {
        None
    }
}

/// `G17`, `G18`, `G19`, `G17.1`, `G18.1` or `G19.1`, with whitespace around the number
/// (see [`sp_g_spaced`]).
pub open spec fn sp_plane_select(s: Seq<u8>, p: int) -> Option<(Plane, int)> {
    match sp_g_spaced(s, p) {
        Some((c, e)) => match plane_of(c) {
            Some(pl) => Some((pl, e)),
            None => None,
        },
        None => None,
    }
}

pub fn parse_plane_select(i: &str, p: usize) -> (r: Option<(Plane, usize)>)
    requires
        p <= i.spec_bytes().len(),
    ensures
        parsed_as(r, sp_plane_select(i.spec_bytes(), p as int)),
        r matches Some((_, e)) ==> p < e <= i.spec_bytes().len() && i.spec_bytes()[e - 1] < 0x80,
{
    match parse_g_spaced(i.as_bytes(), p) {
        Some((c, e)) => match plane_for(c) {
            Some(pl) => Some((pl, e)),
            None => None,
        },
        None => None,
    }
}

/// Parse a plane select word (`G17` to `G19.1`)
pub fn plane_select(i: &str) -> (r: ParseResult<Plane>)
    ensures
        result_matches(i, r, sp_plane_select(i.spec_bytes(), 0)),
{
    finish(i, parse_plane_select(i, 0))
}

/// Lathe measurement mode
#[derive(Debug, PartialEq, Eq, Clone, Copy)]
pub enum LatheMeasurementMode {
    /// Radius mode (`G8`)
    Radius,
    /// Diameter mode (`G7`)
    Diameter,
}

impl View for LatheMeasurementMode {
    type V = LatheMeasurementMode;

    open spec fn view(&self) -> LatheMeasurementMode {
        *self
    }
}

/// `G7` or `G8`.
pub open spec fn sp_lathe_measurement_mode(s: Seq<u8>, p: int) -> Option<(LatheMeasurementMode, int)> {
    match sp_g(s, p) {
        Some((c, e)) => if c == 70 {
            Some((LatheMeasurementMode::Diameter, e))
        } else if c == 80 {
            Some((LatheMeasurementMode::Radius, e))
        } else {
            None
        },
        None => None,
    }
}

/// The code of a lathe measurement mode, ten times its number: `G7` diameter, `G8`
/// radius.
pub open spec fn lathe_mode_code(m: LatheMeasurementMode) -> nat {
    match m {
        LatheMeasurementMode::Diameter => 70,
        LatheMeasurementMode::Radius => 80,
    }
}

/// The lathe measurement mode read at `p` is exactly the one whose code is written there.
pub proof fn lemma_lathe_mode_code(s: Seq<u8>, p: int, m: LatheMeasurementMode, e: int)
    ensures
        sp_lathe_measurement_mode(s, p) == Some((m, e)) <==> sp_g(s, p) == Some(
            (lathe_mode_code(m), e),
        ),
{
}

pub fn parse_lathe_measurement_mode(i: &str, p: usize) -> (r: Option<(LatheMeasurementMode, usize)>)
    requires
        p <= i.spec_bytes().len(),
    ensures
        parsed_as(r, sp_lathe_measurement_mode(i.spec_bytes(), p as int)),
        r matches Some((_, e)) ==> p < e <= i.spec_bytes().len() && i.spec_bytes()[e - 1] < 0x80,
{
    match parse_word_code(i.as_bytes(), p, 0x47, true, false) {
        Some((c, e)) => if c == 70 {
            Some((LatheMeasurementMode::Diameter, e))
        } else if c == 80 {
            Some((LatheMeasurementMode::Radius, e))
        } else {
            None
        },
        None => None,
    }
}

/// Parse a lathe measurement mode word (`G7`, `G8`)
pub fn lathe_measurement_mode(i: &str) -> (r: ParseResult<LatheMeasurementMode>)
    ensures
        result_matches(i, r, sp_lathe_measurement_mode(i.spec_bytes(), 0)),
{
    finish(i, parse_lathe_measurement_mode(i, 0))
}

/// A predefined position
#[derive(Debug, PartialEq, Eq, Clone, Copy)]
pub enum PredefinedPosition {
    /// The position of `G28`
    G28,
    /// The position of `G30`
    G30,
}

/// What to do with a predefined position
#[derive(Debug, PartialEq, Eq, Clone, Copy)]
pub enum PredefinedPositionCommand {
    /// Move to the position (`G28`, `G30`)
    GoTo(PredefinedPosition),
    /// Store the current position (`G28.1`, `G30.1`)
    Store(PredefinedPosition),
}

impl View for PredefinedPositionCommand {
    type V = PredefinedPositionCommand;

    open spec fn view(&self) -> PredefinedPositionCommand {
        *self
    }
}

/// `G28`, `G30`, `G28.1` or `G30.1`.
pub open spec fn sp_predefined_position(s: Seq<u8>, p: int) -> Option<(PredefinedPositionCommand, int)> {
    match sp_g(s, p) {
        Some((c, e)) => if c == 280 {
            Some((PredefinedPositionCommand::GoTo(PredefinedPosition::G28), e))
        } else if c == 300 {
            Some((PredefinedPositionCommand::GoTo(PredefinedPosition::G30), e))
        } else if c == 281 {
            Some((PredefinedPositionCommand::Store(PredefinedPosition::G28), e))
        } else if c == 301 {
            Some((PredefinedPositionCommand::Store(PredefinedPosition::G30), e))
        } else {
            None
        },
        None => None,
    }
}

/// The code of a predefined position command, ten times its number: `G28` and `G30` go to
/// a position, `G28.1` and `G30.1` store it.
pub open spec fn predefined_position_code(m: PredefinedPositionCommand) -> nat {
    let base: nat = match m {
        PredefinedPositionCommand::GoTo(PredefinedPosition::G28) => 280,
        PredefinedPositionCommand::GoTo(PredefinedPosition::G30) => 300,
        PredefinedPositionCommand::Store(PredefinedPosition::G28) => 280,
        PredefinedPositionCommand::Store(PredefinedPosition::G30) => 300,
    };
    if m is Store {
        base + 1
    } else {
        base
    }
}

/// The predefined position command read at `p` is exactly the one whose code is written
/// there.
pub proof fn lemma_predefined_position_code(
    s: Seq<u8>,
    p: int,
    m: PredefinedPositionCommand,
    e: int,
)
    ensures
        sp_predefined_position(s, p) == Some((m, e)) <==> sp_g(s, p) == Some(
            (predefined_position_code(m), e),
        ),
{
}

pub fn parse_predefined_position(i: &str, p: usize) -> (r: Option<(PredefinedPositionCommand, usize)>)
    requires
        p <= i.spec_bytes().len(),
    ensures
        parsed_as(r, sp_predefined_position(i.spec_bytes(), p as int)),
        r matches Some((_, e)) ==> p < e <= i.spec_bytes().len() && i.spec_bytes()[e - 1] < 0x80,
{
    match parse_word_code(i.as_bytes(), p, 0x47, true, false) {
        Some((c, e)) => if c == 280 {
            Some((PredefinedPositionCommand::GoTo(PredefinedPosition::G28), e))
        } else if c == 300 {
            Some((PredefinedPositionCommand::GoTo(PredefinedPosition::G30), e))
        } else if c == 281 {
            Some((PredefinedPositionCommand::Store(PredefinedPosition::G28), e))
        } else if c == 301 {
            Some((PredefinedPositionCommand::Store(PredefinedPosition::G30), e))
        } else {
            None
        },
        None => None,
    }
}

/// Parse a predefined position word (`G28`, `G30`, `G28.1`, `G30.1`)
pub fn predefined_position(i: &str) -> (r: ParseResult<PredefinedPositionCommand>)
    ensures
        result_matches(i, r, sp_predefined_position(i.spec_bytes(), 0)),
{
    finish(i, parse_predefined_position(i, 0))
}

/// A straight probe towards or away from a workpiece
#[derive(Debug, PartialEq)]
pub enum StraightProbe {
    /// Probe towards the workpiece, stop on contact (`G38.2`)
    Towards(Coord),
    /// Probe towards the workpiece, stop on contact, signal an error on failure (`G38.3`)
    TowardsWithError(Coord),
    /// Probe away from the workpiece, stop on loss of contact (`G38.4`)
    Away(Coord),
    /// Probe away from the workpiece, signal an error on failure (`G38.5`)
    AwayWithError(Coord),
}

/// The kind of a straight probe (its code) and its target position.
pub struct StraightProbeModel {
    pub code: nat,
    pub target: Seq<Option<crate::value::ValueModel>>,
}

impl View for StraightProbe {
    type V = StraightProbeModel;

    open spec fn view(&self) -> StraightProbeModel {
        match self {
            StraightProbe::Towards(c) => StraightProbeModel { code: 382, target: c@ },
            StraightProbe::TowardsWithError(c) => StraightProbeModel { code: 383, target: c@ },
            StraightProbe::Away(c) => StraightProbeModel { code: 384, target: c@ },
            StraightProbe::AwayWithError(c) => StraightProbeModel { code: 385, target: c@ },
        }
    }
}

/// `G38.2`, `G38.3`, `G38.4` or `G38.5` followed by a coordinate, with whitespace before
/// the word, between word and coordinate, and after the coordinate.
pub open spec fn sp_straight_probe(s: Seq<u8>, p: int) -> Option<(StraightProbeModel, int)> {
    match sp_g(s, ws_end(s, p)) {
        Some((c, e)) => if 382 <= c <= 385 {
            match sp_coord(s, ws_end(s, e)) {
                Some((t, e2)) => Some((StraightProbeModel { code: c, target: t }, ws_end(s, e2))),
                None => None,
            }
        } else {
            None
        },
        None => None,
    }
}

pub fn parse_straight_probe(i: &str, p: usize) -> (r: Option<(StraightProbe, usize)>)
    requires
        p <= i.spec_bytes().len(),
    ensures
        parsed_as(r, sp_straight_probe(i.spec_bytes(), p as int)),
        r matches Some((_, e)) ==> p < e <= i.spec_bytes().len() && i.spec_bytes()[e - 1] < 0x80,
{
    let s = i.as_bytes();
    match parse_word_code(s, skip_ws(s, p), 0x47, true, false) {
        Some((c, e)) => if 382 <= c && c <= 385 {
            match parse_coord(i, skip_ws(s, e)) {
                Some((t, e2)) => {
                    let probe = if c == 382 {
                        StraightProbe::Towards(t)
                    } else if c == 383 {
                        StraightProbe::TowardsWithError(t)
                    } else if c == 384 {
                        StraightProbe::Away(t)
                    } else {
                        StraightProbe::AwayWithError(t)
                    };
                    Some((probe, skip_ws(s, e2)))
                },
                None => None,
            }
        } else {
            None
        },
        None => None,
    }
}

/// Parse a straight probe (`G38.2 X10`)
pub fn straight_probe(i: &str) -> (r: ParseResult<StraightProbe>)
    ensures
        result_matches(i, r, sp_straight_probe(i.spec_bytes(), 0)),
{
    finish(i, parse_straight_probe(i, 0))
}

/// Tool length compensation
#[derive(Debug, PartialEq)]
pub enum ToolLengthCompensation {
    /// Disable tool length compensation (`G49`)
    Disable,
    /// Offset by the length of the current tool (`G43`)
    ToolNumberOffset,
    /// Offset by the given distances (`G43.1`)
    Dynamic(Coord),
}

pub enum ToolLengthCompensationModel {
    Disable,
    ToolNumberOffset,
    Dynamic(Seq<Option<crate::value::ValueModel>>),
}

impl View for ToolLengthCompensation {
    type V = ToolLengthCompensationModel;

    open spec fn view(&self) -> ToolLengthCompensationModel {
        match self {
            ToolLengthCompensation::Disable => ToolLengthCompensationModel::Disable,
            ToolLengthCompensation::ToolNumberOffset => ToolLengthCompensationModel::ToolNumberOffset,
            ToolLengthCompensation::Dynamic(c) => ToolLengthCompensationModel::Dynamic(c@),
        }
    }
}

/// `G43.1` followed by a coordinate, with whitespace before the word, between word and
/// coordinate, and after the coordinate.
pub open spec fn sp_dynamic_tool_length(s: Seq<u8>, p: int) -> Option<
    (ToolLengthCompensationModel, int),
> {
    match sp_g(s, ws_end(s, p)) {
        Some((c, e)) => if c == 431 {
            match sp_coord(s, ws_end(s, e)) {
                Some((t, e2)) => Some((ToolLengthCompensationModel::Dynamic(t), ws_end(s, e2))),
                None => None,
            }
        } else {
            None
        },
        None => None,
    }
}

/// `G43`; else `G43.1` and a coordinate (see [`sp_dynamic_tool_length`]); else `G49`.
pub open spec fn sp_tool_length_compensation(s: Seq<u8>, p: int) -> Option<
    (ToolLengthCompensationModel, int),
> {
    match sp_g(s, p) {
        Some((c, e)) if c == 430 => Some((ToolLengthCompensationModel::ToolNumberOffset, e)),
        _ => match sp_dynamic_tool_length(s, p) {
            Some(r) => Some(r),
            None => match sp_g(s, p) {
                Some((c, e)) if c == 490 => Some((ToolLengthCompensationModel::Disable, e)),
                _ => None,
            },
        },
    }
}

/// The code of a tool length compensation, ten times its number: `G43` tool number
/// offset, `G43.1` dynamic, `G49` disable.
pub open spec fn tool_length_code(m: ToolLengthCompensationModel) -> nat {
    match m {
        ToolLengthCompensationModel::ToolNumberOffset => 430,
        ToolLengthCompensationModel::Dynamic(_) => 431,
        ToolLengthCompensationModel::Disable => 490,
    }
}

/// The tool length compensation read at `p` is the one whose code is written there: `G43`
/// and `G49` as the whole word at `p`, `G43.1` after optional whitespace; and wherever
/// `G43` or `G49` is written, that is what is read.
pub proof fn lemma_tool_length_code(s: Seq<u8>, p: int, m: ToolLengthCompensationModel, e: int)
    ensures
        sp_tool_length_compensation(s, p) matches Some((t, f)) ==> (if t is Dynamic {
            sp_g(s, ws_end(s, p)) matches Some((c, _)) && c == tool_length_code(t)
        } else {
            sp_g(s, p) == Some((tool_length_code(t), f))
        }),
        !(m is Dynamic) ==> (sp_g(s, p) == Some((tool_length_code(m), e))
            ==> sp_tool_length_compensation(s, p) == Some((m, e))),
{
    if let Some((c, f)) = sp_g(s, p) {
        assert(!is_ws(s[p]));
        assert(ws_end(s, p) == p);
    }
}

pub fn parse_tool_length_compensation(i: &str, p: usize) -> (r: Option<(ToolLengthCompensation, usize)>)
    requires
        p <= i.spec_bytes().len(),
    ensures
        parsed_as(r, sp_tool_length_compensation(i.spec_bytes(), p as int)),
        r matches Some((_, e)) ==> p < e <= i.spec_bytes().len() && i.spec_bytes()[e - 1] < 0x80,
{
    let s = i.as_bytes();
    if let Some((c, e)) = parse_word_code(s, p, 0x47, true, false) {
        if c == 430 {
            return Some((ToolLengthCompensation::ToolNumberOffset, e));
        }
    }
    if let Some((c, e)) = parse_word_code(s, skip_ws(s, p), 0x47, true, false) {
        if c == 431 {
            if let Some((t, e2)) = parse_coord(i, skip_ws(s, e)) {
                return Some((ToolLengthCompensation::Dynamic(t), skip_ws(s, e2)));
            }
        }
    }
    if let Some((c, e)) = parse_word_code(s, p, 0x47, true, false) {
        if c == 490 {
            return Some((ToolLengthCompensation::Disable, e));
        }
    }
    None
}

/// Parse a tool length compensation word (`G43`, `G43.1 Z1`, `G49`)
pub fn tool_length_compensation(i: &str) -> (r: ParseResult<ToolLengthCompensation>)
    ensures
        result_matches(i, r, sp_tool_length_compensation(i.spec_bytes(), 0)),
{
    finish(i, parse_tool_length_compensation(i, 0))
}

/// Cutter compensation
#[derive(Debug, PartialEq)]
pub enum CutterCompensation {
    /// Turn cutter compensation off (`G40`)
    Off,
    /// Offset the tool to the left of the path (`G41`), by the given tool's radius
    Left(Option<UnsignedValue>),
    /// Offset the tool to the right of the path (`G42`), by the given tool's radius
    Right(Option<UnsignedValue>),
}

pub enum CutterCompensationModel {
    Off,
    Left(Option<UnsignedValueModel>),
    Right(Option<UnsignedValueModel>),
}

pub open spec fn opt_unsigned_model(v: Option<UnsignedValue>) -> Option<UnsignedValueModel> {
    match v {
        Some(x) => Some(x@),
        None => None,
    }
}

impl View for CutterCompensation {
    type V = CutterCompensationModel;

    open spec fn view(&self) -> CutterCompensationModel {
        match self {
            CutterCompensation::Off => CutterCompensationModel::Off,
            CutterCompensation::Left(d) => CutterCompensationModel::Left(opt_unsigned_model(*d)),
            CutterCompensation::Right(d) => CutterCompensationModel::Right(opt_unsigned_model(*d)),
        }
    }
}

/// Whitespace and an optional `D` word with an unsigned value at `p`, then the whitespace
/// after it; where they end.
pub open spec fn sp_tool_radius(s: Seq<u8>, p: int) -> (Option<UnsignedValueModel>, int) {
    match sp_preceded_unsigned_value(s, ws_end(s, p), 0x44) {
        Some((v, e)) => (Some(v), ws_end(s, e)),
        None => (None, ws_end(s, p)),
    }
}

/// `G41` or `G42` and an optional `D` word (see [`sp_tool_radius`]), with whitespace
/// before the word.
pub open spec fn sp_cutter_side(s: Seq<u8>, p: int) -> Option<(CutterCompensationModel, int)> {
    match sp_g(s, ws_end(s, p)) {
        Some((c, e)) => if c == 410 {
            Some((CutterCompensationModel::Left(sp_tool_radius(s, e).0), sp_tool_radius(s, e).1))
        } else if c == 420 {
            Some((CutterCompensationModel::Right(sp_tool_radius(s, e).0), sp_tool_radius(s, e).1))
        } else {
            None
        },
        None => None,
    }
}

/// `G40`; else `G41` or `G42` (see [`sp_cutter_side`]).
pub open spec fn sp_cutter_compensation(s: Seq<u8>, p: int) -> Option<(CutterCompensationModel, int)> {
    match sp_g(s, p) {
        Some((c, e)) if c == 400 => Some((CutterCompensationModel::Off, e)),
        _ => sp_cutter_side(s, p),
    }
}

/// The code of a cutter compensation, ten times its number: `G40` off, `G41` left, `G42`
/// right.
pub open spec fn cutter_code(m: CutterCompensationModel) -> nat {
    match m {
        CutterCompensationModel::Off => 400,
        CutterCompensationModel::Left(_) => 410,
        CutterCompensationModel::Right(_) => 420,
    }
}

/// The cutter compensation read at `p` is the one whose code is written there: `G40` as the
/// whole word at `p`, `G41` and `G42` after optional whitespace; and wherever `G40` is
/// written, compensation is turned off.
pub proof fn lemma_cutter_code(s: Seq<u8>, p: int)
    ensures
        sp_cutter_compensation(s, p) matches Some((t, f)) ==> (if t is Off {
            sp_g(s, p) == Some((400nat, f))
        } else {
            sp_g(s, ws_end(s, p)) matches Some((c, _)) && c == cutter_code(t)
        }),
        sp_g(s, p) matches Some((c, f)) ==> (c == 400 ==> sp_cutter_compensation(s, p) == Some(
            (CutterCompensationModel::Off, f),
        )),
{
}

fn parse_tool_radius(i: &str, p: usize) -> (r: (Option<UnsignedValue>, usize))
    requires
        p <= i.spec_bytes().len(),
    ensures
        opt_unsigned_model(r.0) == sp_tool_radius(i.spec_bytes(), p as int).0,
        r.1 == sp_tool_radius(i.spec_bytes(), p as int).1,
        p <= r.1 <= i.spec_bytes().len(),
        r.1 > p ==> i.spec_bytes()[r.1 - 1] < 0x80,
{
    let s = i.as_bytes();
    let q = skip_ws(s, p);
    match parse_preceded_unsigned_value(i, q, 0x44) {
        Some((v, e)) => (Some(v), skip_ws(s, e)),
        None => (None, q),
    }
}

pub fn parse_cutter_compensation(i: &str, p: usize) -> (r: Option<(CutterCompensation, usize)>)
    requires
        p <= i.spec_bytes().len(),
    ensures
        parsed_as(r, sp_cutter_compensation(i.spec_bytes(), p as int)),
        r matches Some((_, e)) ==> p < e <= i.spec_bytes().len() && i.spec_bytes()[e - 1] < 0x80,
{
    let s = i.as_bytes();
    if let Some((c, e)) = parse_word_code(s, p, 0x47, true, false) {
        if c == 400 {
            return Some((CutterCompensation::Off, e));
        }
    }
    match parse_word_code(s, skip_ws(s, p), 0x47, true, false) {
        Some((c, e)) => if c == 410 {
            let (d, e2) = parse_tool_radius(i, e);
            Some((CutterCompensation::Left(d), e2))
        } else if c == 420 {
            let (d, e2) = parse_tool_radius(i, e);
            Some((CutterCompensation::Right(d), e2))
        } else {
            None
        },
        None => None,
    }
}

/// Parse a cutter compensation word (`G40`, `G41 D1`, `G42`)
pub fn cutter_compensation(i: &str) -> (r: ParseResult<CutterCompensation>)
    ensures
        result_matches(i, r, sp_cutter_compensation(i.spec_bytes(), 0)),
{
    finish(i, parse_cutter_compensation(i, 0))
}

} // verus!
