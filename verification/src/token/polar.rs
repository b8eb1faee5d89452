//! Parse polar coordinates
use crate::token::gcode::cutter_compensation::opt_value_model;
use crate::text::{finish, parsed_as, result_matches, skip_space, space0_end, ParseResult};
use crate::value::{parse_preceded_value, sp_preceded_value, Value, ValueModel};
use vstd::prelude::*;
use vstd::string::StringSliceAdditionalSpecFns;

verus! {

/// A polar coordinate
#[derive(Debug, PartialEq)]
pub struct PolarCoord {
    /// Distance from origin (`@`)
    pub distance: Option<Value>,
    /// Angle, starting at 0 on positive X axis. Positive direction is counterclockwise (`^`)
    pub angle: Option<Value>,
}

pub struct PolarCoordModel {
    pub distance: Option<ValueModel>,
    pub angle: Option<ValueModel>,
}

impl View for PolarCoord {
    type V = PolarCoordModel;

    open spec fn view(&self) -> PolarCoordModel {
        PolarCoordModel { distance: opt_value_model(self.distance), angle: opt_value_model(self.angle) }
    }
}

impl Default for PolarCoord {
    fn default() -> (r: Self)
        ensures
            r.distance is None,
            r.angle is None,
    {
        PolarCoord { distance: None, angle: None }
    }
}

/// An optional `@` distance followed by optional spaces, then an optional `^` angle; at
/// least one of the two.
pub open spec fn sp_polar(s: Seq<u8>, p: int) -> Option<(PolarCoordModel, int)> {
    let (distance, q) = match sp_preceded_value(s, p, 0x40, true) {
        Some((v, e)) => (Some(v), space0_end(s, e)),
        None => (None, p),
    };
    let (angle, r) = match sp_preceded_value(s, q, 0x5e, true) {
        Some((v, e)) => (Some(v), e),
        None => (None, q),
    };
    if distance is None && angle is None {
        None
    } else {
        Some((PolarCoordModel { distance, angle }, r))
    }
}

/// A polar coordinate starts with its distance word `@`, or, without a distance, with its
/// angle word `^`.
pub proof fn lemma_polar_letters(s: Seq<u8>, p: int)
    ensures
        sp_polar(s, p) matches Some((m, _)) ==> {
            &&& 0 <= p < s.len()
            &&& m.distance is Some <==> s[p] == 0x40
            &&& m.distance is None ==> s[p] == 0x5e
        },
{
}

pub fn parse_polar(i: &str, p: usize) -> (r: Option<(PolarCoord, usize)>)
    requires
        p <= i.spec_bytes().len(),
    ensures
        parsed_as(r, sp_polar(i.spec_bytes(), p as int)),
        r matches Some((_, e)) ==> p < e <= i.spec_bytes().len() && i.spec_bytes()[e - 1] < 0x80,
{
    let s = i.as_bytes();
    let (distance, q) = match parse_preceded_value(i, p, 0x40, true) {
        Some((v, e)) => (Some(v), skip_space(s, e)),
        None => (None, p),
    };
    let (angle, r) = match parse_preceded_value(i, q, 0x5e, true) {
        Some((v, e)) => (Some(v), e),
        None => (None, q),
    };
    if distance.is_none() && angle.is_none() {
        None
    } else {
        Some((PolarCoord { distance, angle }, r))
    }
}

/// Parse a polar coordinate (`@distance ^angle`, either part optional but not both)
pub fn polar(i: &str) -> (r: ParseResult<PolarCoord>)
    ensures
        result_matches(i, r, sp_polar(i.spec_bytes(), 0)),
{
    finish(i, parse_polar(i, 0))
}

} // verus!
