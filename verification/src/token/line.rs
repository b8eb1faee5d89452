//! Lines of a program
use crate::text::{
    ascii_edge, finish, line_ending, line_ending_at, parsed_as, rest_after, rest_from,
    result_matches, skip_space, space0_end, ParseError, ParseResult,
};
use crate::token::othercode::{parse_line_number, sp_line_number};
use crate::token::{
    line_tokens_model, lines_model, parse_token_type, token_type_model, sp_token_type, Token, TokenType,
    TokenTypeModel,
};
use vstd::prelude::*;
use vstd::string::StringSliceAdditionalSpecFns;

verus! {

/// One line of a program: its tokens in order
#[derive(Debug, PartialEq)]
pub struct Line {
    /// The tokens on this line
    pub tokens: Vec<Token>,
}

impl View for Line {
    type V = Seq<TokenTypeModel>;

    open spec fn view(&self) -> Seq<TokenTypeModel> {
        line_tokens_model(self.tokens@)
    }
}

impl Default for Line {
    fn default() -> (r: Self)
        ensures
            r.tokens@.len() == 0,
    {
        Line { tokens: Vec::new() }
    }
}

/// The tokens of a line from `q` on, after the tokens `acc` already read: each token may
/// be preceded by spaces; the line stops before the first place where no token starts,
/// after any spaces there.
#[verifier::opaque]
pub open spec fn sp_line_tokens(s: Seq<u8>, q: int, acc: Seq<TokenTypeModel>) -> Option<
    (Seq<TokenTypeModel>, int),
>
    decreases s.len() - q, 4int,
{
    let r = space0_end(s, q);
    if q <= r <= s.len() {
        match sp_token_type(s, r) {
            Some((t, e)) => if r < e <= s.len() {
                sp_line_tokens(s, e, acc.push(t))
            } else {
                None
            },
            None => Some((acc, r)),
        }
    } else {
        None
    }
}

/// A line at `p`: optional spaces, an optional block delete `/`, optional spaces, an
/// optional line number, then the tokens of the line. The line ending is not part of it.
#[verifier::opaque]
pub open spec fn sp_line(s: Seq<u8>, p: int) -> Option<(Seq<TokenTypeModel>, int)>
    decreases s.len() - p, 5int,
{
    let q0 = space0_end(s, p);
    let (a1, q1) = if 0 <= q0 < s.len() && s[q0] == 0x2f {  // '/'
        (seq![TokenTypeModel::BlockDelete], q0 + 1)
    } else {
        (Seq::empty(), q0)
    };
    let q2 = space0_end(s, q1);
    let (a2, q3) = match sp_line_number(s, q2) {
        Some((n, e)) => (a1.push(TokenTypeModel::LineNumber(n)), e),
        None => (a1, q2),
    };
    if p <= q3 <= s.len() {
        sp_line_tokens(s, q3, a2)
    } else {
        None
    }
}

/// The lines from `q` on, each followed by a line ending, after the lines `acc` already
/// read. They stop before the first line that has no line ending after it.
#[verifier::opaque]
pub open spec fn sp_lines(s: Seq<u8>, q: int, acc: Seq<Seq<TokenTypeModel>>) -> Option<
    (Seq<Seq<TokenTypeModel>>, int),
>
    decreases s.len() - q, 6int,
{
    match sp_line(s, q) {
        Some((l, e)) => match line_ending_at(s, e) {
            Some(n) => if q < e + n <= s.len() {
                sp_lines(s, e + n, acc.push(l))
            } else {
                None
            },
            None => Some((acc, q)),
        },
        None => Some((acc, q)),
    }
}

/// What a parser of lines returned, compared with what its spec function describes.
pub open spec fn lines_parsed_as(r: Option<(Vec<Line>, usize)>, m: Option<(Seq<Seq<TokenTypeModel>>, int)>) -> bool {
    match m {
        Some((ls, e)) => r matches Some((v, k)) && lines_model(v@) == ls && k == e,
        None => r is None,
    }
}

pub fn parse_line(i: &str, p: usize) -> (r: Option<(Line, usize)>)
    requires
        p <= i.spec_bytes().len(),
    ensures
        r is Some,
        parsed_as(r, sp_line(i.spec_bytes(), p as int)),
        r matches Some((_, e)) ==> p <= e <= i.spec_bytes().len() && (e == p || ascii_edge(
            i.spec_bytes(),
            e as int,
        )),
    decreases i.spec_bytes().len() - p, 5int,
{
    reveal_with_fuel(sp_line, 1);
    reveal_with_fuel(sp_line_tokens, 1);
    reveal_with_fuel(sp_token_type, 1);
    let s = i.as_bytes();
    let mut tokens: Vec<Token> = Vec::new();
    assert(line_tokens_model(tokens@) =~= Seq::empty());
    let q0 = skip_space(s, p);
    let mut q1 = q0;
    if q0 < s.len() && s[q0] == 0x2f {
        tokens.push(Token { token: TokenType::BlockDelete });
        q1 = q0 + 1;
        proof {
            assert(tokens@.drop_last() =~= Seq::<Token>::empty());
            assert(line_tokens_model(Seq::<Token>::empty()) =~= Seq::empty());
            assert(token_type_model(TokenType::BlockDelete) == TokenTypeModel::BlockDelete);
            assert(line_tokens_model(tokens@) =~= seq![TokenTypeModel::BlockDelete]);
        }
    }
    let q2 = skip_space(s, q1);
    let mut q = q2;
    if let Some((n, e)) = parse_line_number(s, q2) {
        let ghost before = tokens@;
        tokens.push(Token { token: TokenType::LineNumber(n) });
        q = e;
        proof {
            assert(token_type_model(TokenType::LineNumber(n)) == TokenTypeModel::LineNumber(n@));
            assert(tokens@.drop_last() =~= before);
        }
    }
    loop
        invariant
            s@ == i.spec_bytes(),
            p <= q <= s.len(),
            q > p ==> ascii_edge(s@, q as int),
            sp_line(s@, p as int) == sp_line_tokens(s@, q as int, line_tokens_model(tokens@)),
        decreases s.len() - q,
    {
        reveal_with_fuel(sp_line_tokens, 1);
        reveal_with_fuel(sp_token_type, 1);
        let r = skip_space(s, q);
        match parse_token_type(i, r) {
            Some((t, e)) => {
                let ghost before = tokens@;
                tokens.push(Token { token: t });
                proof {
                    assert(tokens@.drop_last() =~= before);
                }
                q = e;
            },
            None => {
                return Some((Line { tokens }, r));
            },
        }
    }
}

pub fn parse_lines(i: &str, p: usize) -> (r: Option<(Vec<Line>, usize)>)
    requires
        p <= i.spec_bytes().len(),
    ensures
        r is Some,
        lines_parsed_as(r, sp_lines(i.spec_bytes(), p as int, Seq::empty())),
        r matches Some((_, e)) ==> p <= e <= i.spec_bytes().len() && (e == p || i.spec_bytes()[e
            - 1] == 0x0a),
    decreases i.spec_bytes().len() - p, 6int,
{
    reveal_with_fuel(sp_lines, 1);
    reveal_with_fuel(sp_line, 1);
    let s = i.as_bytes();
    let mut lines: Vec<Line> = Vec::new();
    let mut q = p;
    assert(lines_model(lines@) =~= Seq::empty());
    loop
        invariant
            s@ == i.spec_bytes(),
            p <= q <= s.len(),
            q == p || s@[q - 1] == 0x0a,
            sp_lines(s@, p as int, Seq::empty()) == sp_lines(s@, q as int, lines_model(lines@)),
        decreases s.len() - q,
    {
        reveal_with_fuel(sp_lines, 1);
        reveal_with_fuel(sp_line, 1);
        match parse_line(i, q) {
            Some((l, e)) => match line_ending(s, e) {
                Some(n) => {
                    let ghost before = lines@;
                    lines.push(l);
                    proof {
                        assert(lines@.drop_last() =~= before);
                    }
                    q = e + n;
                },
                None => {
                    return Some((lines, q));
                },
            },
            None => {
                return Some((lines, q));
            },
        }
    }
}

/// Parse one line, up to (not including) its line ending. Every input starts with a line,
/// possibly one without tokens, so this never fails.
pub fn line(i: &str) -> (r: ParseResult<Line>)
    ensures
        r is Ok,
        result_matches(i, r, sp_line(i.spec_bytes(), 0)),
{
    finish(i, parse_line(i, 0))
}

/// Parse the lines at the start of `i` that each end in a line ending. There may be none,
/// so this never fails.
pub fn lines_with_newline(i: &str) -> (r: ParseResult<Vec<Line>>)
    ensures
        r is Ok,
        match sp_lines(i.spec_bytes(), 0, Seq::empty()) {
            Some((ls, e)) => r matches Ok((rest, v)) && lines_model(v@) == ls && rest_after(i, rest, e),
            None => r is Err,
        },
{
    match parse_lines(i, 0) {
        Some((v, e)) => Ok((rest_from(i, e), v)),
        None => Err(ParseError),
    }
}

} // verus!
