//! Tokens
pub mod arc;
pub mod assignment;
pub mod block;
pub mod call;
pub mod comment;
pub mod coord;
pub mod gcode;
pub mod line;
pub mod mcode;
pub mod othercode;
pub mod polar;
pub mod return_stmt;

pub use self::arc::{CenterFormatArc, RadiusFormatArc};
pub use self::assignment::Assignment;
pub use self::block::{Block, Branch, BranchType, Conditional, Repeat, Subroutine, While};
pub use self::call::Call;
pub use self::comment::Comment;
pub use self::coord::Coord;
pub use self::gcode::{CutterCompensation, GCode, WorkOffset};
pub use self::line::Line;
pub use self::mcode::MCode;
pub use self::othercode::{Feedrate, LineNumber, SpindleSpeed, ToolNumber};
pub use self::polar::PolarCoord;
pub use self::return_stmt::Return;
use self::arc::{CenterFormatArcModel, RadiusFormatArcModel};
use self::assignment::AssignmentModel;
use self::block::{BlockModel, BranchModel};
use self::call::CallModel;
use self::comment::opt_comment_model;
use self::gcode::GCodeModel;
use self::polar::PolarCoordModel;
use self::return_stmt::ReturnModel;
use self::arc::{
    parse_center_format_arc, parse_radius_format_arc, sp_center_format_arc,
    sp_radius_format_arc,
};
use self::assignment::{parse_assignment, sp_assignment};
use self::block::{parse_block, sp_block};
use self::call::{parse_call, sp_call};
use self::comment::{parse_comment, sp_comment};
use self::coord::{parse_coord, sp_coord};
use self::gcode::{parse_gcode, sp_gcode};
use self::mcode::{lemma_mcode_number, parse_mcode, sp_mcode};
use self::othercode::{
    parse_feedrate, parse_line_number, parse_spindle_speed, parse_tool_number, sp_feedrate,
    sp_line_number, sp_spindle_speed, sp_tool_number,
};
use self::polar::{parse_polar, sp_polar};
use self::return_stmt::{parse_return, sp_return};
use crate::text::{ascii_edge, char_no_case_at, finish, parsed_as, result_matches, ParseResult};
use crate::value::{parse_value, sp_value, UnsignedValueModel, Value, ValueModel};
use vstd::prelude::*;
use vstd::string::StringSliceAdditionalSpecFns;

verus! {

/// Any possible token type recognised by this parser
#[derive(Debug, PartialEq)]
pub enum TokenType {
    /// Any G-code
    GCode(GCode),
    /// Any M-code
    MCode(MCode),
    /// A coordinate consisting of at least one XYZUVWABC component
    Coord(Coord),
    /// A polar coordinate defined by distance and angle from current position
    PolarCoord(PolarCoord),
    /// The coordinates and offsets that define a clockwise (G2) or counterclockwise (G3) center
    /// format arc
    CenterFormatArc(CenterFormatArc),
    /// Radius-format arc
    RadiusFormatArc(RadiusFormatArc),
    /// Feedrate
    Feedrate(Feedrate),
    /// Spindle speed
    SpindleSpeed(SpindleSpeed),
    /// Tool number
    ToolNumber(ToolNumber),
    /// Line number
    LineNumber(LineNumber),
    /// A comment
    Comment(Comment),
    /// A code that this parser doesn't understand
    Unknown(Unknown),
    /// An assignment of a literal, parameter or expression to a parameter
    Assignment(Assignment),
    /// A block (subroutine, while loop, if statement, etc)
    Block(Block),
    /// A subroutine call
    Call(Call),
    /// A return statement
    Return(Return),
    /// Block delete (`/` character at beginning of line)
    BlockDelete,
    /// Program delimiter (`%` character literal)
    ProgramDelimiter,
}

/// An unknown token
#[derive(Debug, PartialEq)]
pub struct Unknown {
    /// Code letter (`'G'`, `'M'`, etc)
    pub code_letter: char,
    /// Code number
    pub code_number: Value,
}

/// Parsed GCode token
#[derive(Debug, PartialEq)]
pub struct Token {
    /// The type and value of this token
    pub token: TokenType,
}

pub enum TokenTypeModel {
    GCode(GCodeModel),
    MCode(MCode),
    Coord(Seq<Option<ValueModel>>),
    PolarCoord(PolarCoordModel),
    CenterFormatArc(CenterFormatArcModel),
    RadiusFormatArc(RadiusFormatArcModel),
    Feedrate(ValueModel),
    SpindleSpeed(ValueModel),
    ToolNumber(UnsignedValueModel),
    LineNumber(u32),
    Comment(Seq<char>),
    Unknown(char, ValueModel),
    Assignment(AssignmentModel),
    Block(BlockModel),
    Call(CallModel),
    Return(ReturnModel),
    BlockDelete,
    ProgramDelimiter,
}

pub open spec fn token_type_model(t: TokenType) -> TokenTypeModel
    decreases t,
{
    match t {
        TokenType::GCode(g) => TokenTypeModel::GCode(g@),
        TokenType::MCode(m) => TokenTypeModel::MCode(m),
        TokenType::Coord(c) => TokenTypeModel::Coord(c@),
        TokenType::PolarCoord(c) => TokenTypeModel::PolarCoord(c@),
        TokenType::CenterFormatArc(a) => TokenTypeModel::CenterFormatArc(a@),
        TokenType::RadiusFormatArc(a) => TokenTypeModel::RadiusFormatArc(a@),
        TokenType::Feedrate(f) => TokenTypeModel::Feedrate(f@),
        TokenType::SpindleSpeed(v) => TokenTypeModel::SpindleSpeed(v@),
        TokenType::ToolNumber(n) => TokenTypeModel::ToolNumber(n@),
        TokenType::LineNumber(n) => TokenTypeModel::LineNumber(n.line_number),
        TokenType::Comment(c) => TokenTypeModel::Comment(c@),
        TokenType::Unknown(u) => TokenTypeModel::Unknown(u.code_letter, u.code_number@),
        TokenType::Assignment(a) => TokenTypeModel::Assignment(a@),
        TokenType::Block(b) => TokenTypeModel::Block(block_model(b)),
        TokenType::Call(c) => TokenTypeModel::Call(c@),
        TokenType::Return(r) => TokenTypeModel::Return(r@),
        TokenType::BlockDelete => TokenTypeModel::BlockDelete,
        TokenType::ProgramDelimiter => TokenTypeModel::ProgramDelimiter,
    }
}

/// The tokens of a line.
pub open spec fn line_tokens_model(ts: Seq<Token>) -> Seq<TokenTypeModel>
    decreases ts,
{
    if ts.len() == 0 {
        Seq::empty()
    } else {
        line_tokens_model(ts.drop_last()).push(token_type_model(ts.last().token))
    }
}

/// The lines of a block, each as its tokens.
pub open spec fn lines_model(ls: Seq<Line>) -> Seq<Seq<TokenTypeModel>>
    decreases ls,
{
    if ls.len() == 0 {
        Seq::empty()
    } else {
        lines_model(ls.drop_last()).push(line_tokens_model(ls.last().tokens@))
    }
}

pub open spec fn block_model(b: Block) -> BlockModel
    decreases b,
{
    match b {
        Block::Conditional(c) => BlockModel::Conditional(c.identifier@, branches_model(c.branches@)),
        Block::DoWhile(d) => BlockModel::DoWhile(d.identifier@, d.condition@, lines_model(d.lines@)),
        Block::While(w) => BlockModel::While(
            w.identifier@,
            w.condition@,
            lines_model(w.lines@),
            opt_comment_model(w.trailing_comment),
        ),
        Block::Repeat(r) => BlockModel::Repeat(
            r.identifier@,
            r.condition@,
            lines_model(r.lines@),
            opt_comment_model(r.trailing_comment),
        ),
        Block::Subroutine(s) => BlockModel::Subroutine(
            s.identifier@,
            lines_model(s.lines@),
            opt_comment_model(s.trailing_comment),
            match s.returns {
                Some(e) => Some(e@),
                None => None,
            },
        ),
    }
}

pub open spec fn branches_model(bs: Seq<Branch>) -> Seq<BranchModel>
    decreases bs,
{
    if bs.len() == 0 {
        Seq::empty()
    } else {
        branches_model(bs.drop_last()).push(
            BranchModel {
                branch_type: bs.last().branch_type,
                lines: lines_model(bs.last().lines@),
                condition: match bs.last().condition {
                    Some(e) => Some(e@),
                    None => None,
                },
                trailing_comment: opt_comment_model(bs.last().trailing_comment),
            },
        )
    }
}

impl View for Token {
    type V = TokenTypeModel;

    open spec fn view(&self) -> TokenTypeModel {
        token_type_model(self.token)
    }
}

impl View for TokenType {
    type V = TokenTypeModel;

    open spec fn view(&self) -> TokenTypeModel {
        token_type_model(*self)
    }
}

impl View for Unknown {
    type V = (char, ValueModel);

    open spec fn view(&self) -> (char, ValueModel) {
        (self.code_letter, self.code_number@)
    }
}

/// An ASCII letter.
pub open spec fn is_alpha(c: u8) -> bool {
    (0x41 <= c <= 0x5a) || (0x61 <= c <= 0x7a)
}

/// An ASCII letter immediately followed by a value that may carry a sign.
pub open spec fn sp_unknown(s: Seq<u8>, p: int) -> Option<((char, ValueModel), int)> {
    if 0 <= p < s.len() && is_alpha(s[p]) {
        match sp_value(s, p + 1, true) {
            Some((v, e)) => Some(((s[p] as char, v), e)),
            None => None,
        }
    } else {
        None
    }
}

/// The tokens tried before a block, in this order: center format arc, radius format arc,
/// coordinate, G-code, M-code, feed rate, spindle speed, tool number, comment and
/// assignment.
#[verifier::opaque]
pub open spec fn sp_simple_token(s: Seq<u8>, p: int) -> Option<(TokenTypeModel, int)> {
    match sp_center_format_arc(s, p) {
        Some((a, e)) => Some((TokenTypeModel::CenterFormatArc(a), e)),
        None => match sp_radius_format_arc(s, p) {
            Some((a, e)) => Some((TokenTypeModel::RadiusFormatArc(a), e)),
            None => match sp_coord(s, p) {
                Some((c, e)) => Some((TokenTypeModel::Coord(c), e)),
                None => match sp_gcode(s, p) {
                    Some((g, e)) => Some((TokenTypeModel::GCode(g), e)),
                    None => match sp_mcode(s, p) {
                        Some((m, e)) => Some((TokenTypeModel::MCode(m), e)),
                        None => match sp_feedrate(s, p) {
                            Some((v, e)) => Some((TokenTypeModel::Feedrate(v), e)),
                            None => match sp_spindle_speed(s, p) {
                                Some((v, e)) => Some((TokenTypeModel::SpindleSpeed(v), e)),
                                None => match sp_tool_number(s, p) {
                                    Some((v, e)) => Some((TokenTypeModel::ToolNumber(v), e)),
                                    None => match sp_comment(s, p) {
                                        Some((c, e)) => Some((TokenTypeModel::Comment(c), e)),
                                        None => match sp_assignment(s, p) {
                                            Some((a, e)) => Some((TokenTypeModel::Assignment(a), e)),
                                            None => None,
                                        },
                                    },
                                },
                            },
                        },
                    },
                },
            },
        },
    }
}

/// The tokens tried after a block, in this order: subroutine call, return, polar
/// coordinate, `%` and an unknown code.
#[verifier::opaque]
pub open spec fn sp_tail_token(s: Seq<u8>, p: int) -> Option<(TokenTypeModel, int)> {
    match sp_call(s, p) {
        Some((c, e)) => Some((TokenTypeModel::Call(c), e)),
        None => match sp_return(s, p) {
            Some((r, e)) => Some((TokenTypeModel::Return(r), e)),
            None => match sp_polar(s, p) {
                Some((c, e)) => Some((TokenTypeModel::PolarCoord(c), e)),
                None => if 0 <= p < s.len() && s[p] == 0x25 {  // '%'
                    Some((TokenTypeModel::ProgramDelimiter, p + 1))
                } else {
                    match sp_unknown(s, p) {
                        Some(((c, v), e)) => Some((TokenTypeModel::Unknown(c, v), e)),
                        None => None,
                    }
                },
            },
        },
    }
}

/// The letter that a word token starts with: `G`, `M`, `F` feed rate, `S` spindle speed,
/// `T` tool number, `N` line number; other tokens have none.
pub open spec fn token_letter(t: TokenTypeModel) -> Option<u8> {
    match t {
        TokenTypeModel::GCode(_) => Some(0x47),
        TokenTypeModel::MCode(_) => Some(0x4d),
        TokenTypeModel::Feedrate(_) => Some(0x46),
        TokenTypeModel::SpindleSpeed(_) => Some(0x53),
        TokenTypeModel::ToolNumber(_) => Some(0x54),
        TokenTypeModel::LineNumber(_) => Some(0x4e),
        _ => None,
    }
}

/// A word token is of the kind its letter says: a token read as a G-code starts with `G`,
/// a feed rate with `F`, and so on (in any case).
pub proof fn lemma_simple_token_letter(s: Seq<u8>, p: int)
    ensures
        sp_simple_token(s, p) matches Some((t, _)) ==> (token_letter(t) matches Some(c)
            ==> char_no_case_at(s, p, c)),
{
    reveal(sp_simple_token);
    lemma_mcode_number(s, p);
}

/// A line number token starts with `N` (in any case).
pub proof fn lemma_line_number_letter(s: Seq<u8>, p: int)
    ensures
        sp_line_number_token(s, p) matches Some((t, _)) ==> (token_letter(t) matches Some(c)
            ==> char_no_case_at(s, p, c)),
{
}

pub fn parse_unknown(i: &str, p: usize) -> (r: Option<(Unknown, usize)>)
    requires
        p <= i.spec_bytes().len(),
    ensures
        parsed_as(r, sp_unknown(i.spec_bytes(), p as int)),
        r matches Some((_, e)) ==> p < e <= i.spec_bytes().len() && i.spec_bytes()[e - 1] < 0x80,
{
    let s = i.as_bytes();
    if p < s.len() && ((0x41 <= s[p] && s[p] <= 0x5a) || (0x61 <= s[p] && s[p] <= 0x7a)) {
        match parse_value(i, p + 1, true) {
            Some((v, e)) => Some((Unknown { code_letter: s[p] as char, code_number: v }, e)),
            None => None,
        }
    } else {
        None
    }
}

pub fn parse_simple_token(i: &str, p: usize) -> (r: Option<(TokenType, usize)>)
    requires
        p <= i.spec_bytes().len(),
    ensures
        parsed_as(r, sp_simple_token(i.spec_bytes(), p as int)),
        r matches Some((_, e)) ==> p < e <= i.spec_bytes().len() && ascii_edge(i.spec_bytes(), e as int),
{
    reveal(sp_simple_token);
    if let Some((a, e)) = parse_center_format_arc(i, p) {
        return Some((TokenType::CenterFormatArc(a), e));
    }
    if let Some((a, e)) = parse_radius_format_arc(i, p) {
        return Some((TokenType::RadiusFormatArc(a), e));
    }
    if let Some((c, e)) = parse_coord(i, p) {
        return Some((TokenType::Coord(c), e));
    }
    if let Some((g, e)) = parse_gcode(i, p) {
        return Some((TokenType::GCode(g), e));
    }
    if let Some((m, e)) = parse_mcode(i.as_bytes(), p) {
        return Some((TokenType::MCode(m), e));
    }
    if let Some((f, e)) = parse_feedrate(i, p) {
        return Some((TokenType::Feedrate(f), e));
    }
    if let Some((v, e)) = parse_spindle_speed(i, p) {
        return Some((TokenType::SpindleSpeed(v), e));
    }
    if let Some((n, e)) = parse_tool_number(i, p) {
        return Some((TokenType::ToolNumber(n), e));
    }
    if let Some((c, e)) = parse_comment(i, p) {
        return Some((TokenType::Comment(c), e));
    }
    if let Some((a, e)) = parse_assignment(i, p) {
        return Some((TokenType::Assignment(a), e));
    }
    None
}

pub fn parse_tail_token(i: &str, p: usize) -> (r: Option<(TokenType, usize)>)
    requires
        p <= i.spec_bytes().len(),
    ensures
        parsed_as(r, sp_tail_token(i.spec_bytes(), p as int)),
        r matches Some((_, e)) ==> p < e <= i.spec_bytes().len() && i.spec_bytes()[e - 1] < 0x80,
{
    reveal(sp_tail_token);
    let s = i.as_bytes();
    if let Some((c, e)) = parse_call(i, p) {
        return Some((TokenType::Call(c), e));
    }
    if let Some((r, e)) = parse_return(i, p) {
        return Some((TokenType::Return(r), e));
    }
    if let Some((c, e)) = parse_polar(i, p) {
        return Some((TokenType::PolarCoord(c), e));
    }
    if p < s.len() && s[p] == 0x25 {
        return Some((TokenType::ProgramDelimiter, p + 1));
    }
    if let Some((u, e)) = parse_unknown(i, p) {
        return Some((TokenType::Unknown(u), e));
    }
    None
}

/// Parse an unknown token into its letter and numeric code parts
pub fn unknown(i: &str) -> (r: ParseResult<Unknown>)
    ensures
        result_matches(i, r, sp_unknown(i.spec_bytes(), 0)),
{
    finish(i, parse_unknown(i, 0))
}

/// A token at `p`: a simple token ([`sp_simple_token`]), else a block, else a tail token
/// ([`sp_tail_token`]).
#[verifier::opaque]
pub open spec fn sp_token_type(s: Seq<u8>, p: int) -> Option<(TokenTypeModel, int)>
    decreases s.len() - p, 3int,
{
    match sp_simple_token(s, p) {
        Some(x) => Some(x),
        None => match sp_block(s, p) {
            Some((b, e)) => Some((TokenTypeModel::Block(b), e)),
            None => sp_tail_token(s, p),
        },
    }
}

pub fn parse_token_type(i: &str, p: usize) -> (r: Option<(TokenType, usize)>)
    requires
        p <= i.spec_bytes().len(),
    ensures
        parsed_as(r, sp_token_type(i.spec_bytes(), p as int)),
        r matches Some((_, e)) ==> p < e <= i.spec_bytes().len() && ascii_edge(i.spec_bytes(), e as int),
    decreases i.spec_bytes().len() - p, 3int,
{
    reveal_with_fuel(sp_token_type, 1);
    if let Some(x) = parse_simple_token(i, p) {
        return Some(x);
    }
    if let Some((b, e)) = parse_block(i, p) {
        return Some((TokenType::Block(b), e));
    }
    parse_tail_token(i, p)
}

/// A block delete `/` at `p`.
pub open spec fn sp_block_delete(s: Seq<u8>, p: int) -> Option<(TokenTypeModel, int)> {
    if 0 <= p < s.len() && s[p] == 0x2f {
        Some((TokenTypeModel::BlockDelete, p + 1))
    } else {
        None
    }
}

/// A line number at `p`, as a token.
pub open spec fn sp_line_number_token(s: Seq<u8>, p: int) -> Option<(TokenTypeModel, int)> {
    match sp_line_number(s, p) {
        Some((n, e)) => Some((TokenTypeModel::LineNumber(n), e)),
        None => None,
    }
}

/// Parse a token into a `TokenType` enum. A token is never empty: on success the rest is
/// shorter than the input.
pub fn token_type(i: &str) -> (r: ParseResult<TokenType>)
    ensures
        result_matches(i, r, sp_token_type(i.spec_bytes(), 0)),
        r matches Ok((rest, _)) ==> rest.spec_bytes().len() < i.spec_bytes().len(),
{
    finish(i, parse_token_type(i, 0))
}

/// Parse a token. A token is never empty: on success the rest is shorter than the input.
pub fn token(i: &str) -> (r: ParseResult<Token>)
    ensures
        result_matches(i, r, sp_token_type(i.spec_bytes(), 0)),
        r matches Ok((rest, _)) ==> rest.spec_bytes().len() < i.spec_bytes().len(),
{
    let r = match parse_token_type(i, 0) {
        Some((t, e)) => Some((Token { token: t }, e)),
        None => None,
    };
    assert(parsed_as(r, sp_token_type(i.spec_bytes(), 0)));
    finish(i, r)
}

/// Parse block delete
pub fn block_delete(i: &str) -> (r: ParseResult<Token>)
    ensures
        result_matches(i, r, sp_block_delete(i.spec_bytes(), 0)),
{
    let s = i.as_bytes();
    let r = if s.len() > 0 && s[0] == 0x2f {
        Some((Token { token: TokenType::BlockDelete }, 1))
    } else {
        None
    };
    assert(token_type_model(TokenType::BlockDelete) == TokenTypeModel::BlockDelete);
    assert(parsed_as(r, sp_block_delete(i.spec_bytes(), 0)));
    finish(i, r)
}

/// Parse a line number
pub fn line_number(i: &str) -> (r: ParseResult<Token>)
    ensures
        result_matches(i, r, sp_line_number_token(i.spec_bytes(), 0)),
{
    let r = match parse_line_number(i.as_bytes(), 0) {
        Some((n, e)) => {
            assert(token_type_model(TokenType::LineNumber(n)) == TokenTypeModel::LineNumber(n@));
            Some((Token { token: TokenType::LineNumber(n) }, e))
        },
        None => None,
    };
    assert(parsed_as(r, sp_line_number_token(i.spec_bytes(), 0)));
    finish(i, r)
}

/// The alternatives of a token, in the order they are tried: center format arc, radius
/// format arc, coordinate, G-code, M-code, feed rate, spindle speed, tool number, comment,
/// assignment, block, subroutine call, return, polar coordinate, `%` and an unknown code.
pub open spec fn token_alternatives(s: Seq<u8>, p: int) -> Seq<Option<(TokenTypeModel, int)>> {
    seq![
        lift(sp_center_format_arc(s, p), |a| TokenTypeModel::CenterFormatArc(a)),
        lift(sp_radius_format_arc(s, p), |a| TokenTypeModel::RadiusFormatArc(a)),
        lift(sp_coord(s, p), |c| TokenTypeModel::Coord(c)),
        lift(sp_gcode(s, p), |g| TokenTypeModel::GCode(g)),
        lift(sp_mcode(s, p), |m| TokenTypeModel::MCode(m)),
        lift(sp_feedrate(s, p), |v| TokenTypeModel::Feedrate(v)),
        lift(sp_spindle_speed(s, p), |v| TokenTypeModel::SpindleSpeed(v)),
        lift(sp_tool_number(s, p), |v| TokenTypeModel::ToolNumber(v)),
        lift(sp_comment(s, p), |c| TokenTypeModel::Comment(c)),
        lift(sp_assignment(s, p), |a| TokenTypeModel::Assignment(a)),
        lift(sp_block(s, p), |b| TokenTypeModel::Block(b)),
        lift(sp_call(s, p), |c| TokenTypeModel::Call(c)),
        lift(sp_return(s, p), |r| TokenTypeModel::Return(r)),
        lift(sp_polar(s, p), |c| TokenTypeModel::PolarCoord(c)),
        if 0 <= p < s.len() && s[p] == 0x25 {
            Some((TokenTypeModel::ProgramDelimiter, p + 1))
        } else {
            None
        },
        match sp_unknown(s, p) {
            Some(((c, v), e)) => Some((TokenTypeModel::Unknown(c, v), e)),
            None => None,
        },
    ]
}

/// An alternative's outcome as a token.
pub open spec fn lift<T>(r: Option<(T, int)>, f: spec_fn(T) -> TokenTypeModel) -> Option<
    (TokenTypeModel, int),
> {
    match r {
        Some((x, e)) => Some((f(x), e)),
        None => None,
    }
}

/// The first outcome of `rs` from index `k` on that reads something.
pub open spec fn first_read<T>(rs: Seq<Option<T>>, k: int) -> Option<T>
    decreases rs.len() - k,
{
    if 0 <= k < rs.len() {
        if rs[k] is Some {
            rs[k]
        } else {
            first_read(rs, k + 1)
        }
    } else {
        None
    }
}

/// A token is what the first of its alternatives (see [`token_alternatives`]) reads, with
/// the same end: `X0 Y1 I2 J3` is a center format arc, `X0 Y1 Z2` a coordinate.
pub proof fn lemma_token_type_alternatives(s: Seq<u8>, p: int)
    ensures
        sp_token_type(s, p) == first_read(token_alternatives(s, p), 0),
{
    reveal_with_fuel(sp_token_type, 1);
    reveal(sp_simple_token);
    reveal(sp_tail_token);
    reveal_with_fuel(first_read, 17);
}

} // verus!
