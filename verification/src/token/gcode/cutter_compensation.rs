use crate::text::{finish, parsed_as, result_matches, skip_space, space0_end, ParseResult};
use crate::value::{parse_preceded_value, sp_preceded_value, Value, ValueModel};
use crate::word::{parse_code, sp_code};
use vstd::prelude::*;
use vstd::string::StringSliceAdditionalSpecFns;

verus! {

/// Cutter compensation type
#[derive(Debug, PartialEq)]
pub enum CutterCompensation {
    /// Turn cutter compensation off (G40)
    Off,
    /// Offset the tool to the left of the path (G41)
    Left(Option<Value>),
    /// Offset the tool to the right of the path (G42)
    Right(Option<Value>),
}

pub enum CutterCompensationModel {
    Off,
    Left(Option<ValueModel>),
    Right(Option<ValueModel>),
}

pub open spec fn opt_value_model(v: Option<Value>) -> Option<ValueModel> {
    match v {
        Some(x) => Some(x@),
        None => None,
    }
}

impl View for CutterCompensation {
    type V = CutterCompensationModel;

    open spec fn view(&self) -> CutterCompensationModel {
        match self {
            CutterCompensation::Off => CutterCompensationModel::Off,
            CutterCompensation::Left(d) => CutterCompensationModel::Left(opt_value_model(*d)),
            CutterCompensation::Right(d) => CutterCompensationModel::Right(opt_value_model(*d)),
        }
    }
}

/// Optional spaces and an optional `D` value at `p`, and where they end.
pub open spec fn sp_tool_offset(s: Seq<u8>, p: int) -> (Option<ValueModel>, int) {
    let q = space0_end(s, p);
    match sp_preceded_value(s, q, 0x44, true) {
        Some((v, e)) => (Some(v), e),
        None => (None, q),
    }
}

/// `G40`; or `G41` / `G42` followed by an optional `D` tool offset value.
pub open spec fn sp_cutter_compensation(s: Seq<u8>, p: int) -> Option<(CutterCompensationModel, int)> {
    match sp_code(s, p, 0x47) {
        Some((c, e)) => if c == 400 {
            Some((CutterCompensationModel::Off, e))
        } else if c == 410 {
            Some((CutterCompensationModel::Left(sp_tool_offset(s, e).0), sp_tool_offset(s, e).1))
        } else if c == 420 {
            Some((CutterCompensationModel::Right(sp_tool_offset(s, e).0), sp_tool_offset(s, e).1))
        } else {
            None
        },
        None => None,
    }
}

/// The G code of a cutter compensation, as ten times its number: `G40` off, `G41` left,
/// `G42` right.
pub open spec fn cutter_code(m: CutterCompensationModel) -> nat {
    match m {
        CutterCompensationModel::Off => 400,
        CutterCompensationModel::Left(_) => 410,
        CutterCompensationModel::Right(_) => 420,
    }
}

/// The cutter compensation read at `p` is the one whose code is written there (`G40` alone
/// is the whole word), and wherever one of the three codes is written, its side is read.
pub proof fn lemma_cutter_compensation_word(s: Seq<u8>, p: int)
    ensures
        sp_cutter_compensation(s, p) matches Some((m, e)) ==> (sp_code(s, p, 0x47) matches Some(
            (c, e0),
        ) && c == cutter_code(m) && (m is Off ==> e == e0)),
        sp_code(s, p, 0x47) matches Some((c, e0)) ==> {
            &&& c == 400 ==> sp_cutter_compensation(s, p) == Some(
                (CutterCompensationModel::Off, e0),
            )
            &&& c == 410 ==> (sp_cutter_compensation(s, p) matches Some(
                (CutterCompensationModel::Left(_), _),
            ))
            &&& c == 420 ==> (sp_cutter_compensation(s, p) matches Some(
                (CutterCompensationModel::Right(_), _),
            ))
        },
{
}

fn parse_tool_offset(i: &str, p: usize) -> (r: (Option<Value>, usize))
    requires
        p <= i.spec_bytes().len(),
    ensures
        opt_value_model(r.0) == sp_tool_offset(i.spec_bytes(), p as int).0,
        r.1 == sp_tool_offset(i.spec_bytes(), p as int).1,
        p <= r.1 <= i.spec_bytes().len(),
        r.1 > p ==> i.spec_bytes()[r.1 - 1] < 0x80,
{
    let s = i.as_bytes();
    let q = skip_space(s, p);
    match parse_preceded_value(i, q, 0x44, true) {
        Some((v, e)) => (Some(v), e),
        None => (None, q),
    }
}

pub fn parse_cutter_compensation(i: &str, p: usize) -> (r: Option<(CutterCompensation, usize)>)
    requires
        p <= i.spec_bytes().len(),
    ensures
        parsed_as(r, sp_cutter_compensation(i.spec_bytes(), p as int)),
        r matches Some((_, e)) ==> p < e <= i.spec_bytes().len() && i.spec_bytes()[e - 1] < 0x80,
{
    let s = i.as_bytes();
    match parse_code(s, p, 0x47) {
        Some((c, e)) => {
            if c == 400 {
                Some((CutterCompensation::Off, e))
            } else if c == 410 {
                let (d, e2) = parse_tool_offset(i, e);
                Some((CutterCompensation::Left(d), e2))
            } else if c == 420 {
                let (d, e2) = parse_tool_offset(i, e);
                Some((CutterCompensation::Right(d), e2))
            } else {
                None
            }
        },
        None => None,
    }
}

/// Parse a cutter compensation word (`G40`, `G41 [D..]`, `G42 [D..]`)
pub fn cutter_compensation(i: &str) -> (r: ParseResult<CutterCompensation>)
    ensures
        result_matches(i, r, sp_cutter_compensation(i.spec_bytes(), 0)),
{
    finish(i, parse_cutter_compensation(i, 0))
}

} // verus!
