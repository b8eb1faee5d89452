//! G-codes
pub mod cutter_compensation;
pub mod dwell;
pub mod plane_select;
pub mod work_offset;

pub use self::cutter_compensation::{cutter_compensation, CutterCompensation};
pub use self::dwell::{dwell, Dwell};
pub use self::plane_select::{plane_select, PlaneSelect};
pub use self::work_offset::{work_offset, WorkOffset};
use self::cutter_compensation::{
    cutter_code, lemma_cutter_compensation_word, parse_cutter_compensation,
    sp_cutter_compensation, CutterCompensationModel,
};
use self::dwell::{parse_dwell, sp_dwell};
use self::plane_select::{lemma_plane_code, plane_code, plane_of, plane_select_code};
use self::work_offset::{lemma_work_offset_code, offset_code, work_offset_code, work_offset_of};
use crate::text::{
    agree_from, finish, lemma_space0_end, lemma_space0_end_frame, lower, parsed_as,
    result_matches, space0_end, ParseResult,
};
use crate::value::{lemma_number_bounds, lemma_preceded_value_frame, ValueModel};
use crate::word::{lemma_code_case_insensitive, parse_code, sp_code};
use vstd::prelude::*;
use vstd::string::StringSliceAdditionalSpecFns;

verus! {

/// A G-code
#[derive(Debug, PartialEq)]
pub enum GCode {
    /// Rapid move
    Rapid,
    /// Move at a defined feedrate
    Feed,
    /// Work offset (`G54`, `G55`, etc)
    WorkOffset(WorkOffset),
    /// Wait for a (decimal) number of seconds
    Dwell(Dwell),
    /// Set units to metric (millimeters)
    UnitsMM,
    /// Set units to imperial (inch)
    UnitsInch,
    /// Plane select (XY, UV, etc)
    PlaneSelect(PlaneSelect),
    /// A clockwise arc
    ClockwiseArc,
    /// A counterclockwise arc
    CounterclockwiseArc,
    /// Disable cutter compensation (G40)
    DisableCutterCompensation,
    /// Cutter compensation (off, left, right)
    CutterCompensation(CutterCompensation),
    /// Store predefined position in parameters 5161 - 5166
    ///
    /// Doc: http://linuxcnc.org/docs/html/gcode/g-code.html#gcode:g28-g28.1
    SetPredefinedPosition,
    /// Go to predefined position
    GotoPredefinedPosition,
}

pub enum GCodeModel {
    Rapid,
    Feed,
    WorkOffset(WorkOffset),
    Dwell(ValueModel),
    UnitsMM,
    UnitsInch,
    PlaneSelect(PlaneSelect),
    ClockwiseArc,
    CounterclockwiseArc,
    DisableCutterCompensation,
    CutterCompensation(CutterCompensationModel),
    SetPredefinedPosition,
    GotoPredefinedPosition,
}

impl View for GCode {
    type V = GCodeModel;

    open spec fn view(&self) -> GCodeModel {
        match self {
            GCode::Rapid => GCodeModel::Rapid,
            GCode::Feed => GCodeModel::Feed,
            GCode::WorkOffset(w) => GCodeModel::WorkOffset(*w),
            GCode::Dwell(d) => GCodeModel::Dwell(d@),
            GCode::UnitsMM => GCodeModel::UnitsMM,
            GCode::UnitsInch => GCodeModel::UnitsInch,
            GCode::PlaneSelect(ps) => GCodeModel::PlaneSelect(*ps),
            GCode::ClockwiseArc => GCodeModel::ClockwiseArc,
            GCode::CounterclockwiseArc => GCodeModel::CounterclockwiseArc,
            GCode::DisableCutterCompensation => GCodeModel::DisableCutterCompensation,
            GCode::CutterCompensation(c) => GCodeModel::CutterCompensation(c@),
            GCode::SetPredefinedPosition => GCodeModel::SetPredefinedPosition,
            GCode::GotoPredefinedPosition => GCodeModel::GotoPredefinedPosition,
        }
    }
}

/// The G-codes that are a single word, by ten times their number.
pub open spec fn simple_gcode_of(code: nat) -> Option<GCodeModel> {
    if code == 10 {
        Some(GCodeModel::Feed)
    } else if code == 20 {
        Some(GCodeModel::ClockwiseArc)
    } else if code == 30 {
        Some(GCodeModel::CounterclockwiseArc)
    } else if code == 0 {
        Some(GCodeModel::Rapid)
    } else if code == 210 {
        Some(GCodeModel::UnitsMM)
    } else if code == 200 {
        Some(GCodeModel::UnitsInch)
    } else if code == 281 {
        Some(GCodeModel::SetPredefinedPosition)
    } else if code == 280 {
        Some(GCodeModel::GotoPredefinedPosition)
    } else {
        None
    }
}

/// A G-code at `p`, tried in this order: `G1`, `G2`, `G3`, `G0`, `G21`, `G20`,
/// `G28.1`, `G28`, a work offset, cutter compensation, a dwell, a plane select.
///
/// All of them start with the same code word, so the word decides which one applies.
pub open spec fn sp_gcode(s: Seq<u8>, p: int) -> Option<(GCodeModel, int)> {
    match sp_code(s, p, 0x47) {
        Some((c, e)) => match simple_gcode_of(c) {
            Some(g) => Some((g, e)),
            None => match work_offset_of(c) {
                Some(w) => Some((GCodeModel::WorkOffset(w), e)),
                None => match sp_cutter_compensation(s, p) {
                    Some((cc, e2)) => Some((GCodeModel::CutterCompensation(cc), e2)),
                    None => match sp_dwell(s, p) {
                        Some((d, e2)) => Some((GCodeModel::Dwell(d), e2)),
                        None => match plane_of(c) {
                            Some(ps) => Some((GCodeModel::PlaneSelect(ps), e)),
                            None => None,
                        },
                    },
                },
            },
        },
        None => None,
    }
}

/// The G code of a G-code, as ten times its number: `G0` rapid, `G1` feed, `G2` and `G3`
/// arcs, `G4` dwell, `G20` inch, `G21` millimetres, `G28` and `G28.1` predefined
/// positions, `G40` to `G42` cutter compensation, and the codes of the work offsets and
/// planes.
pub open spec fn gcode_code(g: GCodeModel) -> nat {
    match g {
        GCodeModel::Rapid => 0,
        GCodeModel::Feed => 10,
        GCodeModel::ClockwiseArc => 20,
        GCodeModel::CounterclockwiseArc => 30,
        GCodeModel::Dwell(_) => 40,
        GCodeModel::UnitsInch => 200,
        GCodeModel::UnitsMM => 210,
        GCodeModel::GotoPredefinedPosition => 280,
        GCodeModel::SetPredefinedPosition => 281,
        GCodeModel::DisableCutterCompensation => 400,
        GCodeModel::CutterCompensation(cc) => cutter_code(cc),
        GCodeModel::WorkOffset(w) => offset_code(w),
        GCodeModel::PlaneSelect(ps) => plane_select_code(ps),
    }
}

/// Whether a G-code is a word on its own, with nothing after its number.
pub open spec fn is_single_word(g: GCodeModel) -> bool {
    match g {
        GCodeModel::Rapid | GCodeModel::Feed | GCodeModel::ClockwiseArc
        | GCodeModel::CounterclockwiseArc | GCodeModel::UnitsInch | GCodeModel::UnitsMM
        | GCodeModel::GotoPredefinedPosition | GCodeModel::SetPredefinedPosition => true,
        _ => false,
    }
}

/// A code names a single-word G-code exactly when it is that G-code's code.
pub proof fn lemma_simple_gcode_code(code: nat, g: GCodeModel)
    ensures
        simple_gcode_of(code) == Some(g) <==> (is_single_word(g) && code == gcode_code(g)),
{
}

/// The G-code read at `p` is the one whose code is written there; and wherever the code of
/// a single word, a work offset or a plane is written, that G-code is read.
pub proof fn lemma_gcode_word(s: Seq<u8>, p: int, g: GCodeModel)
    ensures
        sp_gcode(s, p) matches Some((h, _)) ==> (sp_code(s, p, 0x47) matches Some((c, _)) && c
            == gcode_code(h)),
        sp_code(s, p, 0x47) matches Some((c, e)) ==> (c == gcode_code(g) && (is_single_word(g)
            || g is WorkOffset || g is PlaneSelect) ==> sp_gcode(s, p) == Some((g, e))),
{
    lemma_cutter_compensation_word(s, p);
    if let Some((c, e)) = sp_code(s, p, 0x47) {
        lemma_simple_gcode_code(c, g);
        if let Some(h) = simple_gcode_of(c) {
            lemma_simple_gcode_code(c, h);
        }
        match g {
            GCodeModel::WorkOffset(w) => lemma_work_offset_code(c, w),
            GCodeModel::PlaneSelect(ps) => lemma_plane_code(c, ps),
            _ => {},
        }
        if let Some(w) = work_offset_of(c) {
            lemma_work_offset_code(c, w);
        }
        if let Some(ps) = plane_of(c) {
            lemma_plane_code(c, ps);
        }
    }
}

fn simple_gcode(code: u64) -> (r: Option<GCode>)
    ensures
        match simple_gcode_of(code as nat) {
            Some(g) => r matches Some(x) && x@ == g,
            None => r is None,
        },
{
    if code == 10 {
        Some(GCode::Feed)
    } else if code == 20 {
        Some(GCode::ClockwiseArc)
    } else if code == 30 {
        Some(GCode::CounterclockwiseArc)
    } else if code == 0 {
        Some(GCode::Rapid)
    } else if code == 210 {
        Some(GCode::UnitsMM)
    } else if code == 200 {
        Some(GCode::UnitsInch)
    } else if code == 281 {
        Some(GCode::SetPredefinedPosition)
    } else if code == 280 {
        Some(GCode::GotoPredefinedPosition)
    } else {
        None
    }
}

pub fn parse_gcode(i: &str, p: usize) -> (r: Option<(GCode, usize)>)
    requires
        p <= i.spec_bytes().len(),
    ensures
        parsed_as(r, sp_gcode(i.spec_bytes(), p as int)),
        r matches Some((_, e)) ==> p < e <= i.spec_bytes().len() && i.spec_bytes()[e - 1] < 0x80,
{
    let s = i.as_bytes();
    match parse_code(s, p, 0x47) {
        Some((c, e)) => {
            if let Some(g) = simple_gcode(c) {
                return Some((g, e));
            }
            if let Some(w) = work_offset_code(c) {
                return Some((GCode::WorkOffset(w), e));
            }
            if let Some((cc, e2)) = parse_cutter_compensation(i, p) {
                return Some((GCode::CutterCompensation(cc), e2));
            }
            if let Some((d, e2)) = parse_dwell(i, p) {
                return Some((GCode::Dwell(d), e2));
            }
            if let Some(ps) = plane_code(c) {
                return Some((GCode::PlaneSelect(ps), e));
            }
            None
        },
        None => None,
    }
}

/// Parse a G-code
pub fn gcode(i: &str) -> (r: ParseResult<GCode>)
    ensures
        result_matches(i, r, sp_gcode(i.spec_bytes(), 0)),
{
    finish(i, parse_gcode(i, 0))
}

/// A G-code reads the same whatever the case of its `G`: `g1` is `G1`, and `g4 P1` is the
/// dwell that `G4 P1` is.
pub proof fn lemma_gcode_case_insensitive(s: Seq<u8>, p: int, c: u8)
    requires
        0 <= p < s.len(),
        lower(c) == lower(s[p]),
    ensures
        sp_gcode(s, p) == sp_gcode(s.update(p, c), p),
{
    let t = s.update(p, c);
    lemma_code_case_insensitive(s, p, 0x47, c);
    assert(agree_from(s, t, p + 1));
    lemma_number_bounds(s, p + 1, false);
    if let Some((code, e)) = sp_code(s, p, 0x47) {
        lemma_space0_end_frame(s, t, p + 1, e);
        lemma_space0_end(s, e);
        let q = space0_end(s, e);
        lemma_preceded_value_frame(s, t, p + 1, q, 0x44, true);
        lemma_preceded_value_frame(s, t, p + 1, q, 0x50, true);
    }
}

} // verus!
