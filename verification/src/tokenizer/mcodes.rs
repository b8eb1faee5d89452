//! M-codes: spindle rotation, coolant, and the whole M-code table.
use super::helpers::{parse_int_code, sp_int_code};
use crate::text::{finish, parsed_as, result_matches, ParseResult};
use crate::word::{parse_word_code, sp_word_code};
use vstd::prelude::*;
use vstd::string::StringSliceAdditionalSpecFns;

verus! {

/// Spindle rotation
#[derive(Debug, PartialEq, Eq, Clone, Copy)]
pub enum SpindleRotation {
    /// Clockwise (M3)
    Cw,
    /// Counterclockwise (M4)
    Ccw,
    /// Stop (M5)
    Stop,
}

impl View for SpindleRotation {
    type V = SpindleRotation;

    open spec fn view(&self) -> SpindleRotation {
        *self
    }
}

/// Coolant
#[derive(Debug, PartialEq, Eq, Clone, Copy)]
pub enum Coolant {
    /// Enable mist coolant (M7)
    Mist,
    /// Enable flood coolant (M8)
    Flood,
    /// Disable all coolant (M9)
    Off,
}

impl View for Coolant {
    type V = Coolant;

    open spec fn view(&self) -> Coolant {
        *self
    }
}

/// Enum describing all supported M-codes
#[derive(Debug, PartialEq, Eq, Clone, Copy)]
pub enum MCode {
    /// Coolant (`M7`, `M8`, `M9`)
    Coolant(Coolant),
    /// End of program (`M2`, `M30`)
    EndProgram,
    /// Pause (`M0`)
    Pause,
    /// Optional pause (`M1`)
    OptionalPause,
    /// Spindle rotation (`M3`, `M4`, `M5`)
    SpindleRotation(SpindleRotation),
    /// Tool change (`M6`)
    ToolChange,
    /// A user command (`M100` to `M199`), by its number
    UserCommand(u32),
    /// Save the modal state (`M70`)
    ModalStateSave,
    /// Invalidate the saved modal state (`M71`)
    ModalStateInvalidate,
    /// Restore the saved modal state (`M72`)
    ModalStateRestore,
    /// Restore the modal state on return from a subroutine (`M73`)
    ModalStateAutoRestore,
}

impl View for MCode {
    type V = MCode;

    open spec fn view(&self) -> MCode {
        *self
    }
}

/// The spindle rotation of M-code number `n`.
pub open spec fn spindle_rotation_of(n: u32) -> Option<SpindleRotation> {
    if n == 3 {
        Some(SpindleRotation::Cw)
    } else if n == 4 {
        Some(SpindleRotation::Ccw)
    } else if n == 5 {
        Some(SpindleRotation::Stop)
    } else {
        None
    }
}

/// The number of a spindle rotation word: `M3` clockwise, `M4` counterclockwise, `M5`
/// stop.
pub open spec fn spindle_number(r: SpindleRotation) -> nat {
    match r {
        SpindleRotation::Cw => 3,
        SpindleRotation::Ccw => 4,
        SpindleRotation::Stop => 5,
    }
}

/// The number of a coolant word: `M7` mist, `M8` flood, `M9` off.
pub open spec fn coolant_number(c: Coolant) -> nat {
    match c {
        Coolant::Mist => 7,
        Coolant::Flood => 8,
        Coolant::Off => 9,
    }
}

/// The number of an M-code: `M0` pause, `M1` optional pause, `M2` end of program (`M30`
/// too), `M3` to `M5` spindle, `M6` tool change, `M7` to `M9` coolant, `M70` to `M73`
/// modal state, and a user command its own number.
pub open spec fn mcode_number(m: MCode) -> nat {
    match m {
        MCode::Pause => 0,
        MCode::OptionalPause => 1,
        MCode::EndProgram => 2,
        MCode::SpindleRotation(r) => spindle_number(r),
        MCode::ToolChange => 6,
        MCode::Coolant(c) => coolant_number(c),
        MCode::ModalStateSave => 70,
        MCode::ModalStateInvalidate => 71,
        MCode::ModalStateRestore => 72,
        MCode::ModalStateAutoRestore => 73,
        MCode::UserCommand(n) => n as nat,
    }
}

/// Whether an M-code saves, invalidates or restores the modal state.
pub open spec fn is_modal_state(m: MCode) -> bool {
    m is ModalStateSave || m is ModalStateInvalidate || m is ModalStateRestore
        || m is ModalStateAutoRestore
}

/// Each spindle rotation has one number, and no two share one.
pub proof fn lemma_spindle_number(n: u32, r: SpindleRotation)
    ensures
        spindle_rotation_of(n) == Some(r) <==> n == spindle_number(r),
{
}

/// Each coolant setting has one number, and no two share one.
pub proof fn lemma_coolant_number(n: u32, c: Coolant)
    ensures
        coolant_of(n) == Some(c) <==> n == coolant_number(c),
{
}

/// Each modal state code has one number, and no two share one.
pub proof fn lemma_modal_state_number(n: u32, m: MCode)
    ensures
        modal_state_of(n) == Some(m) <==> (is_modal_state(m) && n == mcode_number(m)),
{
}

/// An integer M-code number names exactly the code with that number: `M30` ends the
/// program as `M2` does, and the pauses and user commands are read as values, not here.
pub proof fn lemma_int_mcode_number(n: u32, m: MCode)
    ensures
        int_mcode_of(n) == Some(m) <==> ((n == mcode_number(m) || (m is EndProgram && n == 30))
            && !(m is Pause || m is OptionalPause || m is UserCommand)),
{
}

fn spindle_rotation_for(n: u32) -> (r: Option<SpindleRotation>)
    ensures
        r == spindle_rotation_of(n),
{
    if n == 3 {
        Some(SpindleRotation::Cw)
    } else if n == 4 {
        Some(SpindleRotation::Ccw)
    } else if n == 5 {
        Some(SpindleRotation::Stop)
    } else {
        None
    }
}

/// The coolant setting of M-code number `n`.
pub open spec fn coolant_of(n: u32) -> Option<Coolant> {
    if n == 7 {
        Some(Coolant::Mist)
    } else if n == 8 {
        Some(Coolant::Flood)
    } else if n == 9 {
        Some(Coolant::Off)
    } else {
        None
    }
}

fn coolant_for(n: u32) -> (r: Option<Coolant>)
    ensures
        r == coolant_of(n),
{
    if n == 7 {
        Some(Coolant::Mist)
    } else if n == 8 {
        Some(Coolant::Flood)
    } else if n == 9 {
        Some(Coolant::Off)
    } else {
        None
    }
}

/// `M3`, `M4` or `M5`, the number read as an integer.
pub open spec fn sp_spindle_rotation(s: Seq<u8>, p: int) -> Option<(SpindleRotation, int)> {
    match sp_int_code(s, p, 0x4d) {
        Some((n, e)) => match spindle_rotation_of(n) {
            Some(r) => Some((r, e)),
            None => None,
        },
        None => None,
    }
}

pub fn parse_spindle_rotation(i: &str, p: usize) -> (r: Option<(SpindleRotation, usize)>)
    requires
        p <= i.spec_bytes().len(),
    ensures
        parsed_as(r, sp_spindle_rotation(i.spec_bytes(), p as int)),
        r matches Some((_, e)) ==> p < e <= i.spec_bytes().len() && i.spec_bytes()[e - 1] < 0x80,
{
    match parse_int_code(i.as_bytes(), p, 0x4d) {
        Some((n, e)) => match spindle_rotation_for(n) {
            Some(r) => Some((r, e)),
            None => None,
        },
        None => None,
    }
}

/// Parse a spindle rotation word (`M3`, `M4`, `M5`)
pub fn spindle_rotation(i: &str) -> (r: ParseResult<SpindleRotation>)
    ensures
        result_matches(i, r, sp_spindle_rotation(i.spec_bytes(), 0)),
{
    finish(i, parse_spindle_rotation(i, 0))
}

/// `M7`, `M8` or `M9`, the number read as an integer.
pub open spec fn sp_coolant(s: Seq<u8>, p: int) -> Option<(Coolant, int)> {
    match sp_int_code(s, p, 0x4d) {
        Some((n, e)) => match coolant_of(n) {
            Some(c) => Some((c, e)),
            None => None,
        },
        None => None,
    }
}

pub fn parse_coolant(i: &str, p: usize) -> (r: Option<(Coolant, usize)>)
    requires
        p <= i.spec_bytes().len(),
    ensures
        parsed_as(r, sp_coolant(i.spec_bytes(), p as int)),
        r matches Some((_, e)) ==> p < e <= i.spec_bytes().len() && i.spec_bytes()[e - 1] < 0x80,
{
    match parse_int_code(i.as_bytes(), p, 0x4d) {
        Some((n, e)) => match coolant_for(n) {
            Some(c) => Some((c, e)),
            None => None,
        },
        None => None,
    }
}

/// Parse a coolant word (`M7`, `M8`, `M9`)
pub fn coolant(i: &str) -> (r: ParseResult<Coolant>)
    ensures
        result_matches(i, r, sp_coolant(i.spec_bytes(), 0)),
{
    finish(i, parse_coolant(i, 0))
}

/// The M-code of integer number `n`: end of program, spindle rotation, tool change, modal
/// state or coolant.
pub open spec fn int_mcode_of(n: u32) -> Option<MCode> {
    if n == 30 || n == 2 {
        Some(MCode::EndProgram)
    } else if spindle_rotation_of(n) is Some {
        Some(MCode::SpindleRotation(spindle_rotation_of(n)->0))
    } else if n == 6 {
        Some(MCode::ToolChange)
    } else if n == 70 {
        Some(MCode::ModalStateSave)
    } else if n == 71 {
        Some(MCode::ModalStateInvalidate)
    } else if n == 72 {
        Some(MCode::ModalStateRestore)
    } else if n == 73 {
        Some(MCode::ModalStateAutoRestore)
    } else if coolant_of(n) is Some {
        Some(MCode::Coolant(coolant_of(n)->0))
    } else {
        None
    }
}

fn int_mcode_for(n: u32) -> (r: Option<MCode>)
    ensures
        r == int_mcode_of(n),
{
    if n == 30 || n == 2 {
        Some(MCode::EndProgram)
    } else if let Some(r) = spindle_rotation_for(n) {
        Some(MCode::SpindleRotation(r))
    } else if n == 6 {
        Some(MCode::ToolChange)
    } else if n == 70 {
        Some(MCode::ModalStateSave)
    } else if n == 71 {
        Some(MCode::ModalStateInvalidate)
    } else if n == 72 {
        Some(MCode::ModalStateRestore)
    } else if n == 73 {
        Some(MCode::ModalStateAutoRestore)
    } else if let Some(c) = coolant_for(n) {
        Some(MCode::Coolant(c))
    } else {
        None
    }
}

/// An M-code at `p`. First the number is read as a value (sign allowed, at most one digit
/// after the point): `M0` is a pause, `M1` an optional pause, and a number from 100 to 199
/// a user command, numbered by its integer part. Otherwise the number is read as an
/// integer and looked up in [`int_mcode_of`].
pub open spec fn sp_mcode(s: Seq<u8>, p: int) -> Option<(MCode, int)> {
    match sp_word_code(s, p, 0x4d, true, false) {
        Some((c, e)) if c == 0 => Some((MCode::Pause, e)),
        Some((c, e)) if c == 10 => Some((MCode::OptionalPause, e)),
        Some((c, e)) if 1000 <= c <= 1990 => Some((MCode::UserCommand((c / 10) as u32), e)),
        _ => match sp_int_code(s, p, 0x4d) {
            Some((n, e)) => match int_mcode_of(n) {
                Some(m) => Some((m, e)),
                None => None,
            },
            None => None,
        },
    }
}

/// The M-code read at `p` is the code whose number is written there: a pause, optional
/// pause or user command by the integer part of the value, any other by the integer.
pub proof fn lemma_mcode_number(s: Seq<u8>, p: int)
    ensures
        sp_mcode(s, p) matches Some((m, e)) ==> (if m is Pause || m is OptionalPause
            || m is UserCommand {
            sp_word_code(s, p, 0x4d, true, false) matches Some((c, f)) && f == e && c / 10
                == mcode_number(m)
        } else {
            sp_int_code(s, p, 0x4d) matches Some((n, f)) && f == e && (n == mcode_number(m) || (
            m is EndProgram && n == 30))
        }),
{
    if let Some((n, e)) = sp_int_code(s, p, 0x4d) {
        if let Some(m) = int_mcode_of(n) {
            lemma_int_mcode_number(n, m);
        }
    }
}

pub fn parse_mcode(i: &str, p: usize) -> (r: Option<(MCode, usize)>)
    requires
        p <= i.spec_bytes().len(),
    ensures
        parsed_as(r, sp_mcode(i.spec_bytes(), p as int)),
        r matches Some((_, e)) ==> p < e <= i.spec_bytes().len() && i.spec_bytes()[e - 1] < 0x80,
{
    let s = i.as_bytes();
    if let Some((c, e)) = parse_word_code(s, p, 0x4d, true, false) {
        if c == 0 {
            return Some((MCode::Pause, e));
        } else if c == 10 {
            return Some((MCode::OptionalPause, e));
        } else if 1000 <= c && c <= 1990 {
            return Some((MCode::UserCommand((c / 10) as u32), e));
        }
    }
    match parse_int_code(s, p, 0x4d) {
        Some((n, e)) => match int_mcode_for(n) {
            Some(m) => Some((m, e)),
            None => None,
        },
        None => None,
    }
}

/// Parse any M-code of the table
pub fn mcode(i: &str) -> (r: ParseResult<MCode>)
    ensures
        result_matches(i, r, sp_mcode(i.spec_bytes(), 0)),
{
    finish(i, parse_mcode(i, 0))
}

/// `M0` (pause) or `M1` (optional pause), the number compared by its value.
pub open spec fn sp_pause(s: Seq<u8>, p: int) -> Option<(MCode, int)> {
    match sp_word_code(s, p, 0x4d, true, false) {
        Some((c, e)) if c == 0 => Some((MCode::Pause, e)),
        Some((c, e)) if c == 10 => Some((MCode::OptionalPause, e)),
        _ => None,
    }
}

pub fn parse_pause(i: &str, p: usize) -> (r: Option<(MCode, usize)>)
    requires
        p <= i.spec_bytes().len(),
    ensures
        parsed_as(r, sp_pause(i.spec_bytes(), p as int)),
        r matches Some((_, e)) ==> p < e <= i.spec_bytes().len() && i.spec_bytes()[e - 1] < 0x80,
{
    match parse_word_code(i.as_bytes(), p, 0x4d, true, false) {
        Some((c, e)) => if c == 0 {
            Some((MCode::Pause, e))
        } else if c == 10 {
            Some((MCode::OptionalPause, e))
        } else {
            None
        },
        None => None,
    }
}

/// Parse a pause word (`M0`, `M1`)
pub fn pause(i: &str) -> (r: ParseResult<MCode>)
    ensures
        result_matches(i, r, sp_pause(i.spec_bytes(), 0)),
{
    finish(i, parse_pause(i, 0))
}

/// A user command: `M` and a value from 100 to 199 (at most one digit after the point),
/// numbered by its integer part.
pub open spec fn sp_user_command(s: Seq<u8>, p: int) -> Option<(MCode, int)> {
    match sp_word_code(s, p, 0x4d, true, false) {
        Some((c, e)) if 1000 <= c <= 1990 => Some((MCode::UserCommand((c / 10) as u32), e)),
        _ => None,
    }
}

pub fn parse_user_command(i: &str, p: usize) -> (r: Option<(MCode, usize)>)
    requires
        p <= i.spec_bytes().len(),
    ensures
        parsed_as(r, sp_user_command(i.spec_bytes(), p as int)),
        r matches Some((_, e)) ==> p < e <= i.spec_bytes().len() && i.spec_bytes()[e - 1] < 0x80,
{
    match parse_word_code(i.as_bytes(), p, 0x4d, true, false) {
        Some((c, e)) => if 1000 <= c && c <= 1990 {
            Some((MCode::UserCommand((c / 10) as u32), e))
        } else {
            None
        },
        None => None,
    }
}

/// Parse a user command (`M100` to `M199`)
pub fn user_command(i: &str) -> (r: ParseResult<MCode>)
    ensures
        result_matches(i, r, sp_user_command(i.spec_bytes(), 0)),
{
    finish(i, parse_user_command(i, 0))
}

/// The end of a program: `M30` or `M2`, the number read as an integer.
pub open spec fn sp_end_program(s: Seq<u8>, p: int) -> Option<(MCode, int)> {
    match sp_int_code(s, p, 0x4d) {
        Some((n, e)) if n == 30 || n == 2 => Some((MCode::EndProgram, e)),
        _ => None,
    }
}

pub fn parse_end_program(i: &str, p: usize) -> (r: Option<(MCode, usize)>)
    requires
        p <= i.spec_bytes().len(),
    ensures
        parsed_as(r, sp_end_program(i.spec_bytes(), p as int)),
        r matches Some((_, e)) ==> p < e <= i.spec_bytes().len() && i.spec_bytes()[e - 1] < 0x80,
{
    match parse_int_code(i.as_bytes(), p, 0x4d) {
        Some((n, e)) => if n == 30 || n == 2 {
            Some((MCode::EndProgram, e))
        } else {
            None
        },
        None => None,
    }
}

/// Parse an end of program (`M2`, `M30`)
pub fn end_program(i: &str) -> (r: ParseResult<MCode>)
    ensures
        result_matches(i, r, sp_end_program(i.spec_bytes(), 0)),
{
    finish(i, parse_end_program(i, 0))
}

/// A tool change: `M6`, the number read as an integer.
pub open spec fn sp_tool_change(s: Seq<u8>, p: int) -> Option<(MCode, int)> {
    match sp_int_code(s, p, 0x4d) {
        Some((n, e)) if n == 6 => Some((MCode::ToolChange, e)),
        _ => None,
    }
}

pub fn parse_tool_change(i: &str, p: usize) -> (r: Option<(MCode, usize)>)
    requires
        p <= i.spec_bytes().len(),
    ensures
        parsed_as(r, sp_tool_change(i.spec_bytes(), p as int)),
        r matches Some((_, e)) ==> p < e <= i.spec_bytes().len() && i.spec_bytes()[e - 1] < 0x80,
{
    match parse_int_code(i.as_bytes(), p, 0x4d) {
        Some((n, e)) => if n == 6 {
            Some((MCode::ToolChange, e))
        } else {
            None
        },
        None => None,
    }
}

/// Parse a tool change (`M6`)
pub fn tool_change(i: &str) -> (r: ParseResult<MCode>)
    ensures
        result_matches(i, r, sp_tool_change(i.spec_bytes(), 0)),
{
    finish(i, parse_tool_change(i, 0))
}

/// The modal state of M-code number `n`: save, invalidate, restore or auto-restore.
pub open spec fn modal_state_of(n: u32) -> Option<MCode> {
    if n == 70 {
        Some(MCode::ModalStateSave)
    } else if n == 71 {
        Some(MCode::ModalStateInvalidate)
    } else if n == 72 {
        Some(MCode::ModalStateRestore)
    } else if n == 73 {
        Some(MCode::ModalStateAutoRestore)
    } else {
        None
    }
}

/// `M70`, `M71`, `M72` or `M73`, the number read as an integer.
pub open spec fn sp_modal_state(s: Seq<u8>, p: int) -> Option<(MCode, int)> {
    match sp_int_code(s, p, 0x4d) {
        Some((n, e)) => match modal_state_of(n) {
            Some(m) => Some((m, e)),
            None => None,
        },
        None => None,
    }
}

pub fn parse_modal_state(i: &str, p: usize) -> (r: Option<(MCode, usize)>)
    requires
        p <= i.spec_bytes().len(),
    ensures
        parsed_as(r, sp_modal_state(i.spec_bytes(), p as int)),
        r matches Some((_, e)) ==> p < e <= i.spec_bytes().len() && i.spec_bytes()[e - 1] < 0x80,
{
    match parse_int_code(i.as_bytes(), p, 0x4d) {
        Some((n, e)) => if n == 70 {
            Some((MCode::ModalStateSave, e))
        } else if n == 71 {
            Some((MCode::ModalStateInvalidate, e))
        } else if n == 72 {
            Some((MCode::ModalStateRestore, e))
        } else if n == 73 {
            Some((MCode::ModalStateAutoRestore, e))
        } else {
            None
        },
        None => None,
    }
}

/// Parse a modal state word (`M70` to `M73`)
pub fn modal_state(i: &str) -> (r: ParseResult<MCode>)
    ensures
        result_matches(i, r, sp_modal_state(i.spec_bytes(), 0)),
{
    finish(i, parse_modal_state(i, 0))
}

/// The entries of the M-code table tried in turn: pause, user command, end of program,
/// spindle rotation, tool change, modal state, coolant; the first that reads a word wins.
pub open spec fn mcode_entries(s: Seq<u8>, p: int) -> Option<(MCode, int)> {
    match sp_pause(s, p) {
        Some(r) => Some(r),
        None => match sp_user_command(s, p) {
            Some(r) => Some(r),
            None => match sp_end_program(s, p) {
                Some(r) => Some(r),
                None => match sp_spindle_rotation(s, p) {
                    Some((x, e)) => Some((MCode::SpindleRotation(x), e)),
                    None => match sp_tool_change(s, p) {
                        Some(r) => Some(r),
                        None => match sp_modal_state(s, p) {
                            Some(r) => Some(r),
                            None => match sp_coolant(s, p) {
                                Some((x, e)) => Some((MCode::Coolant(x), e)),
                                None => None,
                            },
                        },
                    },
                },
            },
        },
    }
}

/// The M-code table reads what the first of its entries reads (see [`mcode_entries`]).
pub proof fn lemma_mcode_is_first_entry(s: Seq<u8>, p: int)
    ensures
        sp_mcode(s, p) == mcode_entries(s, p),
{
}

} // verus!
