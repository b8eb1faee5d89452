use crate::text::{finish, parsed_as, result_matches, ParseResult};
use crate::word::{parse_code, sp_code};
use vstd::prelude::*;
use vstd::string::StringSliceAdditionalSpecFns;

verus! {

/// Which plane to use
#[derive(Debug, PartialEq, Eq, Clone, Copy)]
pub enum PlaneSelect {
    /// XY plane (`G17`)
    XY,
    /// ZX plane (`G18`)
    ZX,
    /// YZ plane (`G19`)
    YZ,
    /// UV plane (`G17.1`)
    UV,
    /// WU plane (`G18.1`)
    WU,
    /// VW plane (`G19.1`)
    VW,
}

impl View for PlaneSelect {
    type V = PlaneSelect;

    open spec fn view(&self) -> PlaneSelect {
        *self
    }
}

/// The plane that a G code selects, by ten times its number.
pub open spec fn plane_of(code: nat) -> Option<PlaneSelect> {
    if code == 170 {
        Some(PlaneSelect::XY)
    } else if code == 180 {
        Some(PlaneSelect::ZX)
    } else if code == 190 {
        Some(PlaneSelect::YZ)
    } else if code == 171 {
        Some(PlaneSelect::UV)
    } else if code == 181 {
        Some(PlaneSelect::WU)
    } else if code == 191 {
        Some(PlaneSelect::VW)
    } else {
        None
    }
}

/// `G17`, `G18`, `G19`, `G17.1`, `G18.1`, `G19.1`.
pub open spec fn sp_plane_select(s: Seq<u8>, p: int) -> Option<(PlaneSelect, int)> {
    match sp_code(s, p, 0x47) {
        Some((c, e)) => match plane_of(c) {
            Some(w) => Some((w, e)),
            None => None,
        },
        None => None,
    }
}

/// The G code of a plane, as ten times its number: `G17` is 170, `G17.1` is 171.
pub open spec fn plane_select_code(ps: PlaneSelect) -> nat {
    match ps {
        PlaneSelect::XY => 170,
        PlaneSelect::ZX => 180,
        PlaneSelect::YZ => 190,
        PlaneSelect::UV => 171,
        PlaneSelect::WU => 181,
        PlaneSelect::VW => 191,
    }
}

/// A G code selects a plane exactly when it is the code of that plane.
pub proof fn lemma_plane_code(code: nat, ps: PlaneSelect)
    ensures
        plane_of(code) == Some(ps) <==> code == plane_select_code(ps),
{
}

/// The plane read at `p` is the one whose code is written there, and wherever the code of
/// a plane is written, that plane is read.
pub proof fn lemma_plane_select_word(s: Seq<u8>, p: int, ps: PlaneSelect)
    ensures
        sp_plane_select(s, p) matches Some((v, e)) ==> sp_code(s, p, 0x47) == Some(
            (plane_select_code(v), e),
        ),
        sp_code(s, p, 0x47) matches Some((c, e)) ==> (c == plane_select_code(ps)
            ==> sp_plane_select(s, p) == Some((ps, e))),
{
    if let Some((c, e)) = sp_code(s, p, 0x47) {
        lemma_plane_code(c, ps);
        if let Some(v) = plane_of(c) {
            lemma_plane_code(c, v);
        }
    }
}

pub fn plane_code(code: u64) -> (r: Option<PlaneSelect>)
    ensures
        r == plane_of(code as nat),
{
    if code == 170 {
        Some(PlaneSelect::XY)
    } else if code == 180 {
        Some(PlaneSelect::ZX)
    } else if code == 190 {
        Some(PlaneSelect::YZ)
    } else if code == 171 {
        Some(PlaneSelect::UV)
    } else if code == 181 {
        Some(PlaneSelect::WU)
    } else if code == 191 {
        Some(PlaneSelect::VW)
    } else {
        None
    }
}

pub fn parse_plane_select(s: &[u8], p: usize) -> (r: Option<(PlaneSelect, usize)>)
    requires
        p <= s.len(),
    ensures
        parsed_as(r, sp_plane_select(s@, p as int)),
        r matches Some((_, e)) ==> p < e <= s.len() && s@[e - 1] < 0x80,
{
    match parse_code(s, p, 0x47) {
        Some((c, e)) => match plane_code(c) {
            Some(w) => Some((w, e)),
            None => None,
        },
        None => None,
    }
}

/// Parse a plane select word (`G17` .. `G19.1`)
pub fn plane_select(i: &str) -> (r: ParseResult<PlaneSelect>)
    ensures
        result_matches(i, r, sp_plane_select(i.spec_bytes(), 0)),
{
    finish(i, parse_plane_select(i.as_bytes(), 0))
}

} // verus!
