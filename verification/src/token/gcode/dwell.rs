use crate::text::{finish, parsed_as, result_matches, skip_space, space0_end, ParseResult};
use crate::value::{parse_preceded_value, sp_preceded_value, Value, ValueModel};
use crate::word::{parse_code, sp_code};
use vstd::prelude::*;
use vstd::string::StringSliceAdditionalSpecFns;

verus! {

/// Dwell
#[derive(Debug, PartialEq)]
pub struct Dwell {
    /// The length of time in seconds to dwell for
    pub time: Value,
}

impl View for Dwell {
    type V = ValueModel;

    open spec fn view(&self) -> ValueModel {
        self.time@
    }
}

/// `G4`, optional spaces, then a required `P` value: the dwell time.
pub open spec fn sp_dwell(s: Seq<u8>, p: int) -> Option<(ValueModel, int)> {
    match sp_code(s, p, 0x47) {
        Some((c, e)) => if c == 40 {
            sp_preceded_value(s, space0_end(s, e), 0x50, true)
        } else {
            None
        },
        None => None,
    }
}

pub fn parse_dwell(i: &str, p: usize) -> (r: Option<(Dwell, usize)>)
    requires
        p <= i.spec_bytes().len(),
    ensures
        parsed_as(r, sp_dwell(i.spec_bytes(), p as int)),
        r matches Some((_, e)) ==> p < e <= i.spec_bytes().len() && i.spec_bytes()[e - 1] < 0x80,
{
    let s = i.as_bytes();
    match parse_code(s, p, 0x47) {
        Some((c, e)) => {
            if c != 40 {
                return None;
            }
            let q = skip_space(s, e);
            match parse_preceded_value(i, q, 0x50, true) {
                Some((time, e2)) => Some((Dwell { time }, e2)),
                None => None,
            }
        },
        None => None,
    }
}

/// Parse a dwell (`G4 P<seconds>`)
pub fn dwell(i: &str) -> (r: ParseResult<Dwell>)
    ensures
        result_matches(i, r, sp_dwell(i.spec_bytes(), 0)),
{
    finish(i, parse_dwell(i, 0))
}

} // verus!
