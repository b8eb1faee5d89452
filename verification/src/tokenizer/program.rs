//! A whole program of the word-table token set: its tokens, lines to delete (`/ ...`), and
//! the optional `%` markers around it.
//!
//! A token is a line to delete, a G-code, an M-code, a tool number, spindle speed or feed
//! rate, an arc, a coordinate or a comment, tried in this order; coordinates and comments are
//! read as [`crate::token::coord`] and [`crate::token::comment`] read them. Whitespace
//! (spaces, tabs, line breaks) may stand around every token.
use super::arc::{parse_arc, sp_arc, Arc, ArcModel};
use super::gcode::{parse_gcode, sp_gcode, GCode, GCodeModel};
use super::helpers::{find_crlf, find_crlf_from};
use super::mcodes::{parse_mcode, sp_mcode, MCode};
use super::othercodes::{parse_othercode, sp_othercode, OtherCode, OtherCodeModel};
use crate::text::{
    ascii_edge, find, find_byte, line_ending, line_ending_at, parsed_as, rest_from, skip_ws,
    substr, ws_end, ParseResult,
};
use crate::token::comment::{parse_comment, sp_comment, Comment};
use crate::token::coord::{parse_coord, sp_coord, Coord};
use crate::value::ValueModel;
use vstd::prelude::*;
use vstd::string::StringSliceAdditionalSpecFns;

verus! {

broadcast use vstd::seq::group_seq_axioms;

/// A token of a program
#[derive(Debug, PartialEq)]
pub enum Token {
    /// A line to delete (`/` and the tokens of the rest of the line)
    BlockDelete(Vec<Token>),
    /// A G-code
    GCode(GCode),
    /// An M-code
    MCode(MCode),
    /// A tool number, spindle speed or feed rate
    OtherCode(OtherCode),
    /// An arc
    Arc(Arc),
    /// A coordinate
    Coord(Coord),
    /// A comment
    Comment(Comment),
}

/// The tokens of a program, in order
pub type ProgramTokens = Vec<Token>;

/// The mathematical content of a token.
pub enum TokenModel {
    BlockDelete(Seq<TokenModel>),
    GCode(GCodeModel),
    MCode(MCode),
    OtherCode(OtherCodeModel),
    Arc(ArcModel),
    Coord(Seq<Option<ValueModel>>),
    Comment(Seq<char>),
}

pub open spec fn token_model(t: Token) -> TokenModel
    decreases t,
{
    match t {
        Token::BlockDelete(ts) => TokenModel::BlockDelete(tokens_model(ts@)),
        Token::GCode(g) => TokenModel::GCode(g@),
        Token::MCode(m) => TokenModel::MCode(m@),
        Token::OtherCode(o) => TokenModel::OtherCode(o@),
        Token::Arc(a) => TokenModel::Arc(a@),
        Token::Coord(c) => TokenModel::Coord(c@),
        Token::Comment(c) => TokenModel::Comment(c@),
    }
}

pub open spec fn tokens_model(ts: Seq<Token>) -> Seq<TokenModel>
    decreases ts,
{
    if ts.len() == 0 {
        Seq::empty()
    } else {
        tokens_model(ts.drop_last()).push(token_model(ts.last()))
    }
}

impl View for Token {
    type V = TokenModel;

    open spec fn view(&self) -> TokenModel {
        token_model(*self)
    }
}

/// Where the text of the line from `a` on ends: before the first `\r\n` from `a` on when
/// there is one, else before the first `\n`.
pub open spec fn line_text_end_from(s: Seq<u8>, a: int) -> Option<int> {
    match find_crlf(s, a) {
        Some(k) => Some(k),
        None => find_byte(s, a, 0x0a),
    }
}

/// A line to delete at `p`: `/`, the text up to the line ending (see
/// [`line_text_end_from`]), and the line ending. The tokens are those that the text of the
/// line reads as a run of tokens (see [`sp_tokens`]).
pub open spec fn sp_block_delete(s: Seq<u8>, p: int) -> Option<(Seq<TokenModel>, int)>
    decreases s.len() - p, 0int,
{
    if 0 <= p < s.len() && s[p] == 0x2f {  // '/'
        match line_text_end_from(s, p + 1) {
            Some(k) => match line_ending_at(s, k) {
                Some(n) => if p + 1 <= k < s.len() {
                    Some((sp_tokens(s.subrange(p + 1, k), 0, Seq::empty()).0, k + n))
                } else {
                    None
                },
                None => None,
            },
            None => None,
        }
    } else {
        None
    }
}

/// One token at `p`: a line to delete, a G-code, an M-code, a tool number, spindle speed
/// or feed rate, an arc, a coordinate or a comment, tried in this order.
pub open spec fn sp_token(s: Seq<u8>, p: int) -> Option<(TokenModel, int)>
    decreases s.len() - p, 1int,
{
    match sp_block_delete(s, p) {
        Some((ts, e)) => Some((TokenModel::BlockDelete(ts), e)),
        None => match sp_gcode(s, p) {
            Some((g, e)) => Some((TokenModel::GCode(g), e)),
            None => match sp_mcode(s, p) {
                Some((m, e)) => Some((TokenModel::MCode(m), e)),
                None => match sp_othercode(s, p) {
                    Some((o, e)) => Some((TokenModel::OtherCode(o), e)),
                    None => match sp_arc(s, p) {
                        Some((a, e)) => Some((TokenModel::Arc(a), e)),
                        None => match sp_coord(s, p) {
                            Some((c, e)) => Some((TokenModel::Coord(c), e)),
                            None => match sp_comment(s, p) {
                                Some((c, e)) => Some((TokenModel::Comment(c), e)),
                                None => None,
                            },
                        },
                    },
                },
            },
        },
    }
}

/// The tokens from `q` on, after the tokens `acc`: each preceded by whitespace, as many as
/// read; then the whitespace after them. This never fails.
///
/// (The bounds tested before each step always hold; they keep the definition well-founded.)
pub open spec fn sp_tokens(s: Seq<u8>, q: int, acc: Seq<TokenModel>) -> (Seq<TokenModel>, int)
    decreases s.len() - q, 2int,
{
    let r = ws_end(s, q);
    if q <= r <= s.len() {
        match sp_token(s, r) {
            Some((t, e)) => if r < e <= s.len() {
                sp_tokens(s, e, acc.push(t))
            } else {
                (acc, r)
            },
            None => (acc, r),
        }
    } else {
        (acc, q)
    }
}

/// A program at `p`: whitespace, an optional `%`, the tokens, whitespace, an optional
/// `%` and the whitespace after it. This never fails.
pub open spec fn sp_program(s: Seq<u8>, p: int) -> (Seq<TokenModel>, int) {
    let a = ws_end(s, p);
    let b = if 0 <= a < s.len() && s[a] == 0x25 {
        a + 1
    } else {
        a
    };
    let (ts, c) = sp_tokens(s, b, Seq::empty());
    let d = ws_end(s, c);
    let e = if 0 <= d < s.len() && s[d] == 0x25 {
        d + 1
    } else {
        d
    };
    (ts, ws_end(s, e))
}

proof fn lemma_tokens_model_len(ts: Seq<Token>)
    ensures
        tokens_model(ts).len() == ts.len(),
    decreases ts.len(),
{
    if ts.len() > 0 {
        lemma_tokens_model_len(ts.drop_last());
    }
}

/// Parses the tokens from `q` on (see [`sp_tokens`]).
pub fn parse_tokens(i: &str, q: usize) -> (r: (Vec<Token>, usize))
    requires
        q <= i.spec_bytes().len(),
        ascii_edge(i.spec_bytes(), q as int),
    ensures
        tokens_model(r.0@) == sp_tokens(i.spec_bytes(), q as int, Seq::empty()).0,
        r.1 == sp_tokens(i.spec_bytes(), q as int, Seq::empty()).1,
        q <= r.1 <= i.spec_bytes().len(),
        ascii_edge(i.spec_bytes(), r.1 as int),
    decreases i.spec_bytes().len() - q, 2int,
{
    let s = i.as_bytes();
    let mut v: Vec<Token> = Vec::new();
    let mut pos = q;
    proof {
        assert(tokens_model(v@) =~= Seq::<TokenModel>::empty());
    }
    loop
        invariant
            s@ == i.spec_bytes(),
            q <= pos <= s.len(),
            ascii_edge(s@, pos as int),
            sp_tokens(s@, q as int, Seq::empty()) == sp_tokens(s@, pos as int, tokens_model(v@)),
        decreases s.len() - pos,
    {
        let r = skip_ws(s, pos);
        match parse_token(i, r) {
            Some((t, e)) => {
                let ghost old_v = v@;
                v.push(t);
                proof {
                    assert(v@.drop_last() =~= old_v);
                }
                pos = e;
            },
            None => {
                return (v, r);
            },
        }
    }
}

/// Parses a line to delete at `p` (see [`sp_block_delete`]).
pub fn parse_block_delete(i: &str, p: usize) -> (r: Option<(Vec<Token>, usize)>)
    requires
        p <= i.spec_bytes().len(),
    ensures
        match sp_block_delete(i.spec_bytes(), p as int) {
            Some((ts, e)) => r matches Some((v, k)) && tokens_model(v@) == ts && k == e,
            None => r is None,
        },
        r matches Some((_, e)) ==> p < e <= i.spec_bytes().len() && i.spec_bytes()[e - 1] < 0x80,
    decreases i.spec_bytes().len() - p, 0int,
{
    let s = i.as_bytes();
    if !(p < s.len() && s[p] == 0x2f) {
        return None;
    }
    let k = match find_crlf_from(s, p + 1) {
        Some(k) => k,
        None => match find(s, p + 1, 0x0a) {
            Some(k) => k,
            None => {
                return None;
            },
        },
    };
    let n = match line_ending(s, k) {
        Some(n) => n,
        None => {
            return None;
        },
    };
    if k < p + 1 || k >= s.len() {
        return None;
    }
    let line = substr(i, p + 1, k);
    let (ts, _) = parse_tokens(line, 0);
    Some((ts, k + n))
}

/// Parses one token at `p` (see [`sp_token`]).
pub fn parse_token(i: &str, p: usize) -> (r: Option<(Token, usize)>)
    requires
        p <= i.spec_bytes().len(),
    ensures
        parsed_as(r, sp_token(i.spec_bytes(), p as int)),
        r matches Some((_, e)) ==> p < e <= i.spec_bytes().len() && ascii_edge(i.spec_bytes(), e as int),
    decreases i.spec_bytes().len() - p, 1int,
{
    if let Some((ts, e)) = parse_block_delete(i, p) {
        return Some((Token::BlockDelete(ts), e));
    }
    if let Some((g, e)) = parse_gcode(i, p) {
        return Some((Token::GCode(g), e));
    }
    if let Some((m, e)) = parse_mcode(i, p) {
        return Some((Token::MCode(m), e));
    }
    if let Some((o, e)) = parse_othercode(i, p) {
        return Some((Token::OtherCode(o), e));
    }
    if let Some((a, e)) = parse_arc(i, p) {
        return Some((Token::Arc(a), e));
    }
    if let Some((c, e)) = parse_coord(i, p) {
        return Some((Token::Coord(c), e));
    }
    if let Some((c, e)) = parse_comment(i, p) {
        return Some((Token::Comment(c), e));
    }
    None
}

/// A line to delete at `p`, as a token (see [`sp_block_delete`]).
pub open spec fn sp_block_delete_token(s: Seq<u8>, p: int) -> Option<(TokenModel, int)> {
    match sp_block_delete(s, p) {
        Some((ts, e)) => Some((TokenModel::BlockDelete(ts), e)),
        None => None,
    }
}

/// Parse a line to delete (`/` and the tokens of the rest of the line)
pub fn block_delete(i: &str) -> (r: ParseResult<Token>)
    ensures
        crate::text::result_matches(i, r, sp_block_delete_token(i.spec_bytes(), 0)),
{
    let r = match parse_block_delete(i, 0) {
        Some((ts, e)) => Some((Token::BlockDelete(ts), e)),
        None => None,
    };
    assert(parsed_as(r, sp_block_delete_token(i.spec_bytes(), 0)));
    crate::text::finish(i, r)
}

/// Parse one token
pub fn token(i: &str) -> (r: ParseResult<Token>)
    ensures
        crate::text::result_matches(i, r, sp_token(i.spec_bytes(), 0)),
{
    crate::text::finish(i, parse_token(i, 0))
}

/// Parse a run of tokens with the whitespace around them; this never fails
pub fn tokens(i: &str) -> (r: ParseResult<Vec<Token>>)
    ensures
        r matches Ok((rest, v)) && tokens_model(v@) == sp_tokens(i.spec_bytes(), 0, Seq::empty()).0
            && rest.spec_bytes() == i.spec_bytes().subrange(
            sp_tokens(i.spec_bytes(), 0, Seq::empty()).1,
            i.spec_bytes().len() as int,
        ),
{
    let (v, e) = parse_tokens(i, 0);
    Ok((rest_from(i, e), v))
}

/// Parse a program: optional `%` markers around its tokens; this never fails
pub fn program(i: &str) -> (r: ParseResult<Vec<Token>>)
    ensures
        r matches Ok((rest, v)) && tokens_model(v@) == sp_program(i.spec_bytes(), 0).0
            && rest.spec_bytes() == i.spec_bytes().subrange(
            sp_program(i.spec_bytes(), 0).1,
            i.spec_bytes().len() as int,
        ),
{
    let s = i.as_bytes();
    let a = skip_ws(s, 0);
    let b = if a < s.len() && s[a] == 0x25 {
        a + 1
    } else {
        a
    };
    let (v, c) = parse_tokens(i, b);
    let d = skip_ws(s, c);
    let e = if d < s.len() && s[d] == 0x25 {
        d + 1
    } else {
        d
    };
    let f = skip_ws(s, e);
    Ok((rest_from(i, f), v))
}

/// The interface to the tokenizer: a program text, ready to be read
#[derive(Debug)]
pub struct Tokenizer<'a> {
    program_string: &'a str,
}

impl<'a> Tokenizer<'a> {
    /// The program text the tokenizer reads.
    pub closed spec fn text(&self) -> &'a str {
        self.program_string
    }

    /// Take an input str ready for parsing
    pub fn new_from_str(program_string: &'a str) -> (r: Self)
        ensures
            r.text() == program_string,
    {
        Tokenizer { program_string }
    }

    /// Parse a program into tokens (see [`program`])
    pub fn tokenize(&self) -> (r: ParseResult<'a, Vec<Token>>)
        ensures
            r matches Ok((rest, v)) && tokens_model(v@) == sp_program(self.text().spec_bytes(), 0).0
                && rest.spec_bytes() == self.text().spec_bytes().subrange(
                sp_program(self.text().spec_bytes(), 0).1,
                self.text().spec_bytes().len() as int,
            ),
    {
        program(self.program_string)
    }
}

} // verus!
