use crate::text::{finish, parsed_as, result_matches, ParseResult};
use crate::word::{parse_code, sp_code};
use vstd::prelude::*;
use vstd::string::StringSliceAdditionalSpecFns;

verus! {

/// Work offset
#[derive(Debug, PartialEq, Eq, Clone, Copy)]
pub enum WorkOffset {
    /// Offset 0, `G54`
    G54,
    /// Offset 1, `G55`
    G55,
    /// Offset 2, `G56`
    G56,
    /// Offset 3, `G57`
    G57,
    /// Offset 4, `G58`
    G58,
    /// Offset 5, `G59`
    G59,
    /// Offset 6, `G59.1`
    G59_1,
    /// Offset 7, `G59.2`
    G59_2,
    /// Offset 8, `G59.3`
    G59_3,
}

impl View for WorkOffset {
    type V = WorkOffset;

    open spec fn view(&self) -> WorkOffset {
        *self
    }
}

/// The work offset that a G code selects, by ten times its number.
pub open spec fn work_offset_of(code: nat) -> Option<WorkOffset> {
    if code == 540 {
        Some(WorkOffset::G54)
    } else if code == 550 {
        Some(WorkOffset::G55)
    } else if code == 560 {
        Some(WorkOffset::G56)
    } else if code == 570 {
        Some(WorkOffset::G57)
    } else if code == 580 {
        Some(WorkOffset::G58)
    } else if code == 590 {
        Some(WorkOffset::G59)
    } else if code == 591 {
        Some(WorkOffset::G59_1)
    } else if code == 592 {
        Some(WorkOffset::G59_2)
    } else if code == 593 {
        Some(WorkOffset::G59_3)
    } else {
        None
    }
}

/// `G54` to `G59`, `G59.1` to `G59.3`.
pub open spec fn sp_work_offset(s: Seq<u8>, p: int) -> Option<(WorkOffset, int)> {
    match sp_code(s, p, 0x47) {
        Some((c, e)) => match work_offset_of(c) {
            Some(w) => Some((w, e)),
            None => None,
        },
        None => None,
    }
}

/// The index of a work offset: `G54` is offset 0, `G59.3` offset 8.
pub open spec fn offset_index(w: WorkOffset) -> nat {
    match w {
        WorkOffset::G54 => 0,
        WorkOffset::G55 => 1,
        WorkOffset::G56 => 2,
        WorkOffset::G57 => 3,
        WorkOffset::G58 => 4,
        WorkOffset::G59 => 5,
        WorkOffset::G59_1 => 6,
        WorkOffset::G59_2 => 7,
        WorkOffset::G59_3 => 8,
    }
}

/// The G code of a work offset, as ten times its number: offsets 0 to 5 are `G54` to
/// `G59`, offsets 6 to 8 are `G59.1` to `G59.3`.
pub open spec fn offset_code(w: WorkOffset) -> nat {
    let i = offset_index(w);
    if i < 6 {
        540 + 10 * i
    } else {
        585 + i
    }
}

/// A G code selects a work offset exactly when it is the code of that offset: each
/// offset has one code, and no two offsets share one.
pub proof fn lemma_work_offset_code(code: nat, w: WorkOffset)
    ensures
        work_offset_of(code) == Some(w) <==> code == offset_code(w),
{
}

/// The work offset read at `p` is the one whose code is written there, and wherever the
/// code of an offset is written, that offset is read.
pub proof fn lemma_work_offset_word(s: Seq<u8>, p: int, w: WorkOffset)
    ensures
        sp_work_offset(s, p) matches Some((v, e)) ==> sp_code(s, p, 0x47) == Some(
            (offset_code(v), e),
        ),
        sp_code(s, p, 0x47) matches Some((c, e)) ==> (c == offset_code(w) ==> sp_work_offset(
            s,
            p,
        ) == Some((w, e))),
{
    if let Some((c, e)) = sp_code(s, p, 0x47) {
        lemma_work_offset_code(c, w);
        if let Some(v) = work_offset_of(c) {
            lemma_work_offset_code(c, v);
        }
    }
}

pub fn work_offset_code(code: u64) -> (r: Option<WorkOffset>)
    ensures
        r == work_offset_of(code as nat),
{
    if code == 540 {
        Some(WorkOffset::G54)
    } else if code == 550 {
        Some(WorkOffset::G55)
    } else if code == 560 {
        Some(WorkOffset::G56)
    } else if code == 570 {
        Some(WorkOffset::G57)
    } else if code == 580 {
        Some(WorkOffset::G58)
    } else if code == 590 {
        Some(WorkOffset::G59)
    } else if code == 591 {
        Some(WorkOffset::G59_1)
    } else if code == 592 {
        Some(WorkOffset::G59_2)
    } else if code == 593 {
        Some(WorkOffset::G59_3)
    } else {
        None
    }
}

pub fn parse_work_offset(s: &[u8], p: usize) -> (r: Option<(WorkOffset, usize)>)
    requires
        p <= s.len(),
    ensures
        parsed_as(r, sp_work_offset(s@, p as int)),
        r matches Some((_, e)) ==> p < e <= s.len() && s@[e - 1] < 0x80,
{
    match parse_code(s, p, 0x47) {
        Some((c, e)) => match work_offset_code(c) {
            Some(w) => Some((w, e)),
            None => None,
        },
        None => None,
    }
}

/// Parse a work offset word (`G54` .. `G59.3`)
pub fn work_offset(i: &str) -> (r: ParseResult<WorkOffset>)
    ensures
        result_matches(i, r, sp_work_offset(i.spec_bytes(), 0)),
{
    finish(i, parse_work_offset(i.as_bytes(), 0))
}

} // verus!
