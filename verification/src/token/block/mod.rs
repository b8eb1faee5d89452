//! Control flow blocks: conditionals, loops and subroutines
pub mod conditional;
pub mod ident;

pub use self::conditional::{
    conditional, else_block, elseif_block, kw_endif, lemma_conditional_closes_with_its_identifier,
    parse_conditional, sp_conditional, Branch,
    BranchModel, BranchType, Conditional,
};
pub use self::ident::{
    block_ident, ident_text, lemma_ident_text_end, parse_block_ident, sp_block_ident, BlockIdent,
    IdentType, IdentTypeModel,
};
use crate::expression::{parse_expression, sp_expression, ExprTokenModel, Expression};
use crate::text::{
    ascii_edge, finish, lemma_ascii_edge_is_char_boundary, lemma_str_valid,
    lemma_tag_end_boundary, line_ending, line_ending_at, parsed_as, rest_after,
    rest_at_boundary, rest_from, result_matches, skip_space, space0_end, tag, tag_at,
    tag_no_case, tag_no_case_at, ParseError, ParseResult,
};
use vstd::utf8::{is_char_boundary, valid_utf8};
use crate::token::comment::{opt_comment_model, parse_opt_comment, sp_opt_comment};
use crate::token::line::{parse_lines, sp_lines};
use crate::token::{block_model, Comment, Line, TokenTypeModel};
use vstd::prelude::*;
use vstd::string::StringSliceAdditionalSpecFns;

verus! {

/// A do-while loop
#[derive(Debug, PartialEq)]
pub struct DoWhile {
    /// The block identifier
    pub identifier: BlockIdent,
    /// The loop condition
    pub condition: Expression,
    /// The lines in the loop
    pub lines: Vec<Line>,
}

/// A while loop
#[derive(Debug, PartialEq)]
pub struct While {
    /// The block identifier
    pub identifier: BlockIdent,
    /// The loop condition
    pub condition: Expression,
    /// The lines in the loop
    pub lines: Vec<Line>,
    /// A comment after the loop's opening
    pub trailing_comment: Option<Comment>,
}

/// A block that is repeated _n_ times
#[derive(Debug, PartialEq)]
pub struct Repeat {
    /// The block identifier
    pub identifier: BlockIdent,
    /// The number of repetitions
    pub condition: Expression,
    /// The lines in the loop
    pub lines: Vec<Line>,
    /// A comment after the block's opening
    pub trailing_comment: Option<Comment>,
}

/// A subroutine definition
#[derive(Debug, PartialEq)]
pub struct Subroutine {
    /// The block identifier
    pub identifier: BlockIdent,
    /// The lines of the subroutine
    pub lines: Vec<Line>,
    /// A comment after the subroutine's opening
    pub trailing_comment: Option<Comment>,
    /// The value given at `endsub`, if any
    pub returns: Option<Expression>,
}

/// A control flow block
#[derive(Debug, PartialEq)]
pub enum Block {
    /// An if/elseif/else statement
    Conditional(Conditional),
    /// A do-while loop
    DoWhile(DoWhile),
    /// A while loop
    While(While),
    /// A repeat loop
    Repeat(Repeat),
    /// A subroutine
    Subroutine(Subroutine),
}

pub enum BlockModel {
    Conditional(IdentTypeModel, Seq<BranchModel>),
    DoWhile(IdentTypeModel, Seq<ExprTokenModel>, Seq<Seq<TokenTypeModel>>),
    While(IdentTypeModel, Seq<ExprTokenModel>, Seq<Seq<TokenTypeModel>>, Option<Seq<char>>),
    Repeat(IdentTypeModel, Seq<ExprTokenModel>, Seq<Seq<TokenTypeModel>>, Option<Seq<char>>),
    Subroutine(IdentTypeModel, Seq<Seq<TokenTypeModel>>, Option<Seq<char>>, Option<Seq<ExprTokenModel>>),
}

impl View for Block {
    type V = BlockModel;

    open spec fn view(&self) -> BlockModel {
        crate::token::block_model(*self)
    }
}

/// `do`
pub open spec fn kw_do() -> Seq<u8> {
    seq![0x64u8, 0x6f]
}

/// `while`
pub open spec fn kw_while() -> Seq<u8> {
    seq![0x77u8, 0x68, 0x69, 0x6c, 0x65]
}

/// `endwhile`
pub open spec fn kw_endwhile() -> Seq<u8> {
    seq![0x65u8, 0x6e, 0x64, 0x77, 0x68, 0x69, 0x6c, 0x65]
}

/// `repeat`
pub open spec fn kw_repeat() -> Seq<u8> {
    seq![0x72u8, 0x65, 0x70, 0x65, 0x61, 0x74]
}

/// `endrepeat`
pub open spec fn kw_endrepeat() -> Seq<u8> {
    seq![0x65u8, 0x6e, 0x64, 0x72, 0x65, 0x70, 0x65, 0x61, 0x74]
}

/// `sub`
pub open spec fn kw_sub() -> Seq<u8> {
    seq![0x73u8, 0x75, 0x62]
}

/// `endsub`
pub open spec fn kw_endsub() -> Seq<u8> {
    seq![0x65u8, 0x6e, 0x64, 0x73, 0x75, 0x62]
}

/// The opening line of a block: optional spaces, the block identifier, optional spaces,
/// the keyword `kw` (exact case), optional spaces, an optional comment and a line ending.
/// Gives the identifier, the comment and the index after the line ending.
#[verifier::opaque]
pub open spec fn sp_block_open(s: Seq<u8>, p: int, kw: Seq<u8>) -> Option<
    (IdentTypeModel, Option<Seq<char>>, int),
> {
    match sp_block_ident(s, space0_end(s, p)) {
        Some((id, e)) => {
            let k = space0_end(s, e);
            if tag_at(s, k, kw) {
                let (c, e2) = sp_opt_comment(s, space0_end(s, k + kw.len()));
                match line_ending_at(s, e2) {
                    Some(n) => Some((id, c, e2 + n)),
                    None => None,
                }
            } else {
                None
            }
        },
        None => None,
    }
}

/// Like [`sp_block_open`], with optional spaces and a bracketed expression after the
/// keyword. Gives the identifier, the expression, the comment and the index after the line
/// ending.
#[verifier::opaque]
pub open spec fn sp_block_open_expr(s: Seq<u8>, p: int, kw: Seq<u8>) -> Option<
    (IdentTypeModel, Seq<ExprTokenModel>, Option<Seq<char>>, int),
> {
    match sp_block_ident(s, space0_end(s, p)) {
        Some((id, e)) => {
            let k = space0_end(s, e);
            if tag_at(s, k, kw) {
                match sp_expression(s, space0_end(s, k + kw.len())) {
                    Some((x, e1)) => {
                        let (c, e2) = sp_opt_comment(s, space0_end(s, e1));
                        match line_ending_at(s, e2) {
                            Some(n) => Some((id, x, c, e2 + n)),
                            None => None,
                        }
                    },
                    None => None,
                }
            } else {
                None
            }
        },
        None => None,
    }
}

/// The closing line of a block: optional spaces, the identifier text `t` (any case),
/// optional spaces, the keyword `kw` (exact case), optional spaces and an optional comment.
/// Gives the comment and where the line stops; the line ending is not consumed.
#[verifier::opaque]
pub open spec fn sp_block_close(s: Seq<u8>, p: int, t: Seq<u8>, kw: Seq<u8>) -> Option<
    (Option<Seq<char>>, int),
> {
    let q = space0_end(s, p);
    if tag_no_case_at(s, q, t) {
        let k = space0_end(s, q + t.len());
        if tag_at(s, k, kw) {
            Some(sp_opt_comment(s, space0_end(s, k + kw.len())))
        } else {
            None
        }
    } else {
        None
    }
}

/// Like [`sp_block_close`], with optional spaces and a bracketed expression after the
/// keyword.
#[verifier::opaque]
pub open spec fn sp_block_close_expr(s: Seq<u8>, p: int, t: Seq<u8>, kw: Seq<u8>) -> Option<
    (Seq<ExprTokenModel>, Option<Seq<char>>, int),
> {
    let q = space0_end(s, p);
    if tag_no_case_at(s, q, t) {
        let k = space0_end(s, q + t.len());
        if tag_at(s, k, kw) {
            match sp_expression(s, space0_end(s, k + kw.len())) {
                Some((x, e1)) => {
                    let (c, e2) = sp_opt_comment(s, space0_end(s, e1));
                    Some((x, c, e2))
                },
                None => None,
            }
        } else {
            None
        }
    } else {
        None
    }
}

/// A closing line whose expression may be left out: [`sp_block_close_expr`] if it
/// matches, else [`sp_block_close`] with no expression.
#[verifier::opaque]
pub open spec fn sp_block_close_opt_expr(s: Seq<u8>, p: int, t: Seq<u8>, kw: Seq<u8>) -> Option<
    (Option<Seq<ExprTokenModel>>, Option<Seq<char>>, int),
> {
    match sp_block_close_expr(s, p, t, kw) {
        Some((x, c, e)) => Some((Some(x), c, e)),
        None => match sp_block_close(s, p, t, kw) {
            Some((c, e)) => Some((None, c, e)),
            None => None,
        },
    }
}

/// A do-while loop: the `do` line, the lines of the body, and the `while` line with the
/// condition.
///
/// (The bounds tested before each step always hold; they keep the definitions of the
/// mutually recursive block and line grammars well-founded.)
#[verifier::opaque]
pub open spec fn sp_do_while(s: Seq<u8>, p: int) -> Option<(BlockModel, int)>
    decreases s.len() - p, 1int,
{
    match sp_block_open(s, p, kw_do()) {
        Some((id, _c, e)) => if p < e <= s.len() {
            match sp_lines(s, e, Seq::empty()) {
                Some((ls, e2)) => match sp_block_close_expr(s, e2, ident_text(id), kw_while()) {
                    Some((x, _c2, e3)) => Some((BlockModel::DoWhile(id, x, ls), e3)),
                    None => None,
                },
                None => None,
            }
        } else {
            None
        },
        None => None,
    }
}

/// A while loop: the `while` line with the condition, the lines of the body, and the
/// `endwhile` line.
#[verifier::opaque]
pub open spec fn sp_while(s: Seq<u8>, p: int) -> Option<(BlockModel, int)>
    decreases s.len() - p, 1int,
{
    match sp_block_open_expr(s, p, kw_while()) {
        Some((id, x, c, e)) => if p < e <= s.len() {
            match sp_lines(s, e, Seq::empty()) {
                Some((ls, e2)) => match sp_block_close(s, e2, ident_text(id), kw_endwhile()) {
                    Some((_c2, e3)) => Some((BlockModel::While(id, x, ls, c), e3)),
                    None => None,
                },
                None => None,
            }
        } else {
            None
        },
        None => None,
    }
}

/// A repeat block: the `repeat` line with the count, the lines of the body, and the
/// `endrepeat` line.
#[verifier::opaque]
pub open spec fn sp_repeat(s: Seq<u8>, p: int) -> Option<(BlockModel, int)>
    decreases s.len() - p, 1int,
{
    match sp_block_open_expr(s, p, kw_repeat()) {
        Some((id, x, c, e)) => if p < e <= s.len() {
            match sp_lines(s, e, Seq::empty()) {
                Some((ls, e2)) => match sp_block_close(s, e2, ident_text(id), kw_endrepeat()) {
                    Some((_c2, e3)) => Some((BlockModel::Repeat(id, x, ls, c), e3)),
                    None => None,
                },
                None => None,
            }
        } else {
            None
        },
        None => None,
    }
}

/// A subroutine: the `sub` line, the lines of the body, and the `endsub` line with an
/// optional return value.
#[verifier::opaque]
pub open spec fn sp_subroutine(s: Seq<u8>, p: int) -> Option<(BlockModel, int)>
    decreases s.len() - p, 1int,
{
    match sp_block_open(s, p, kw_sub()) {
        Some((id, c, e)) => if p < e <= s.len() {
            match sp_lines(s, e, Seq::empty()) {
                Some((ls, e2)) => match sp_block_close_opt_expr(s, e2, ident_text(id), kw_endsub()) {
                    Some((x, _c2, e3)) => Some((BlockModel::Subroutine(id, ls, c, x), e3)),
                    None => None,
                },
                None => None,
            }
        } else {
            None
        },
        None => None,
    }
}

/// A block at `p`: a do-while loop, a conditional, a while loop, a repeat block or a
/// subroutine, tried in this order.
#[verifier::opaque]
pub open spec fn sp_block(s: Seq<u8>, p: int) -> Option<(BlockModel, int)>
    decreases s.len() - p, 2int,
{
    match sp_do_while(s, p) {
        Some(b) => Some(b),
        None => match sp_conditional(s, p) {
            Some(b) => Some(b),
            None => match sp_while(s, p) {
                Some(b) => Some(b),
                None => match sp_repeat(s, p) {
                    Some(b) => Some(b),
                    None => sp_subroutine(s, p),
                },
            },
        },
    }
}

pub fn parse_block_open(i: &str, p: usize, kw: &[u8]) -> (r: Option<(BlockIdent, Option<Comment>, usize)>)
    requires
        p <= i.spec_bytes().len(),
    ensures
        match sp_block_open(i.spec_bytes(), p as int, kw@) {
            Some((id, c, e)) => r matches Some((b, com, k)) && b@ == id && opt_comment_model(com)
                == c && k == e,
            None => r is None,
        },
        r matches Some((_, _, e)) ==> p < e <= i.spec_bytes().len() && i.spec_bytes()[e - 1] == 0x0a,
{
    reveal(sp_block_open);
    let s = i.as_bytes();
    let q = skip_space(s, p);
    let (id, e) = match parse_block_ident(i, q) {
        Some(x) => x,
        None => {
            return None;
        },
    };
    let k = skip_space(s, e);
    if !tag(s, k, kw) {
        return None;
    }
    let k2 = skip_space(s, k + kw.len());
    let (c, e2) = parse_opt_comment(i, k2);
    match line_ending(s, e2) {
        Some(n) => Some((id, c, e2 + n)),
        None => None,
    }
}

pub fn parse_block_open_expr(i: &str, p: usize, kw: &[u8]) -> (r: Option<
    (BlockIdent, Expression, Option<Comment>, usize),
>)
    requires
        p <= i.spec_bytes().len(),
    ensures
        match sp_block_open_expr(i.spec_bytes(), p as int, kw@) {
            Some((id, x, c, e)) => r matches Some((b, ex, com, k)) && b@ == id && ex@ == x
                && opt_comment_model(com) == c && k == e,
            None => r is None,
        },
        r matches Some((_, _, _, e)) ==> p < e <= i.spec_bytes().len() && i.spec_bytes()[e - 1]
            == 0x0a,
{
    reveal(sp_block_open_expr);
    let s = i.as_bytes();
    let q = skip_space(s, p);
    let (id, e) = match parse_block_ident(i, q) {
        Some(x) => x,
        None => {
            return None;
        },
    };
    let k = skip_space(s, e);
    if !tag(s, k, kw) {
        return None;
    }
    let k2 = skip_space(s, k + kw.len());
    let (x, e1) = match parse_expression(i, k2) {
        Some(y) => y,
        None => {
            return None;
        },
    };
    let (c, e2) = parse_opt_comment(i, skip_space(s, e1));
    match line_ending(s, e2) {
        Some(n) => Some((id, x, c, e2 + n)),
        None => None,
    }
}

pub fn parse_block_close(i: &str, p: usize, t: &[u8], kw: &[u8]) -> (r: Option<(Option<Comment>, usize)>)
    requires
        p <= i.spec_bytes().len(),
        t@.len() > 0,
        t@.last() < 0x80,
    ensures
        match sp_block_close(i.spec_bytes(), p as int, t@, kw@) {
            Some((c, e)) => r matches Some((com, k)) && opt_comment_model(com) == c && k == e,
            None => r is None,
        },
        r matches Some((_, e)) ==> p < e <= i.spec_bytes().len(),
        r matches Some((_, e)) ==> (kw@.len() > 0 && kw@.last() < 0x80 ==> ascii_edge(
            i.spec_bytes(),
            e as int,
        )),
        r matches Some((_, e)) ==> (valid_utf8(kw@) ==> is_char_boundary(i.spec_bytes(), e as int)),
{
    reveal(sp_block_close);
    let s = i.as_bytes();
    let q = skip_space(s, p);
    if !tag_no_case(s, q, t) {
        return None;
    }
    let k = skip_space(s, q + t.len());
    if !tag(s, k, kw) {
        return None;
    }
    let k2 = skip_space(s, k + kw.len());
    let (c, e) = parse_opt_comment(i, k2);
    proof {
        if kw@.len() > 0 {
            assert(s@[k + (kw@.len() - 1)] == kw@[kw@.len() - 1]);
        }
        if valid_utf8(kw@) {
            lemma_str_valid(i);
            assert(s@[q + (t@.len() - 1)] < 0x80);
            lemma_ascii_edge_is_char_boundary(s@, k as int);
            lemma_tag_end_boundary(s@, k as int, kw@);
            if k2 > k + kw@.len() || e > k2 {
                lemma_ascii_edge_is_char_boundary(s@, e as int);
            }
        }
    }
    Some((c, e))
}

pub fn parse_block_close_expr(i: &str, p: usize, t: &[u8], kw: &[u8]) -> (r: Option<
    (Expression, Option<Comment>, usize),
>)
    requires
        p <= i.spec_bytes().len(),
        t@.len() > 0,
        t@.last() < 0x80,
    ensures
        match sp_block_close_expr(i.spec_bytes(), p as int, t@, kw@) {
            Some((x, c, e)) => r matches Some((ex, com, k)) && ex@ == x && opt_comment_model(com)
                == c && k == e,
            None => r is None,
        },
        r matches Some((_, _, e)) ==> p < e <= i.spec_bytes().len() && ascii_edge(i.spec_bytes(), e as int),
{
    reveal(sp_block_close_expr);
    let s = i.as_bytes();
    let q = skip_space(s, p);
    if !tag_no_case(s, q, t) {
        return None;
    }
    let k = skip_space(s, q + t.len());
    if !tag(s, k, kw) {
        return None;
    }
    let (x, e1) = match parse_expression(i, skip_space(s, k + kw.len())) {
        Some(y) => y,
        None => {
            return None;
        },
    };
    let (c, e2) = parse_opt_comment(i, skip_space(s, e1));
    Some((x, c, e2))
}

pub fn parse_block_close_opt_expr(i: &str, p: usize, t: &[u8], kw: &[u8]) -> (r: Option<
    (Option<Expression>, Option<Comment>, usize),
>)
    requires
        p <= i.spec_bytes().len(),
        t@.len() > 0,
        t@.last() < 0x80,
        kw@.len() > 0,
        kw@.last() < 0x80,
    ensures
        match sp_block_close_opt_expr(i.spec_bytes(), p as int, t@, kw@) {
            Some((x, c, e)) => r matches Some((ex, com, k)) && opt_expr_model(ex) == x
                && opt_comment_model(com) == c && k == e,
            None => r is None,
        },
        r matches Some((_, _, e)) ==> p < e <= i.spec_bytes().len() && ascii_edge(i.spec_bytes(), e as int),
{
    reveal(sp_block_close_opt_expr);
    match parse_block_close_expr(i, p, t, kw) {
        Some((x, c, e)) => Some((Some(x), c, e)),
        None => match parse_block_close(i, p, t, kw) {
            Some((c, e)) => Some((None, c, e)),
            None => None,
        },
    }
}

/// The tokens of an optional expression.
pub open spec fn opt_expr_model(x: Option<Expression>) -> Option<Seq<ExprTokenModel>> {
    match x {
        Some(x) => Some(x@),
        None => None,
    }
}

impl View for DoWhile {
    type V = BlockModel;

    open spec fn view(&self) -> BlockModel {
        block_model(Block::DoWhile(*self))
    }
}

impl View for While {
    type V = BlockModel;

    open spec fn view(&self) -> BlockModel {
        block_model(Block::While(*self))
    }
}

impl View for Repeat {
    type V = BlockModel;

    open spec fn view(&self) -> BlockModel {
        block_model(Block::Repeat(*self))
    }
}

impl View for Subroutine {
    type V = BlockModel;

    open spec fn view(&self) -> BlockModel {
        block_model(Block::Subroutine(*self))
    }
}

pub fn parse_do_while(i: &str, p: usize) -> (r: Option<(DoWhile, usize)>)
    requires
        p <= i.spec_bytes().len(),
    ensures
        parsed_as(r, sp_do_while(i.spec_bytes(), p as int)),
        r matches Some((_, e)) ==> p < e <= i.spec_bytes().len() && ascii_edge(i.spec_bytes(), e as int),
    decreases i.spec_bytes().len() - p, 1int,
{
    reveal_with_fuel(sp_do_while, 1);
    let kw: &[u8] = &[0x64, 0x6f];  // do
    assert(kw@ =~= kw_do());
    let (id, _c, e) = match parse_block_open(i, p, kw) {
        Some(x) => x,
        None => {
            return None;
        },
    };
    let (lines, e2) = match parse_lines(i, e) {
        Some(x) => x,
        None => {
            return None;
        },
    };
    let t = id.text();
    proof {
        lemma_ident_text_end(id@);
    }
    let close: &[u8] = &[0x77, 0x68, 0x69, 0x6c, 0x65];  // while
    assert(close@ =~= kw_while());
    match parse_block_close_expr(i, e2, t.as_slice(), close) {
        Some((x, _c2, e3)) => Some((DoWhile { identifier: id, condition: x, lines }, e3)),
        None => None,
    }
}

pub fn parse_while(i: &str, p: usize) -> (r: Option<(While, usize)>)
    requires
        p <= i.spec_bytes().len(),
    ensures
        parsed_as(r, sp_while(i.spec_bytes(), p as int)),
        r matches Some((_, e)) ==> p < e <= i.spec_bytes().len() && ascii_edge(i.spec_bytes(), e as int),
    decreases i.spec_bytes().len() - p, 1int,
{
    reveal_with_fuel(sp_while, 1);
    let kw: &[u8] = &[0x77, 0x68, 0x69, 0x6c, 0x65];  // while
    assert(kw@ =~= kw_while());
    let (id, x, c, e) = match parse_block_open_expr(i, p, kw) {
        Some(v) => v,
        None => {
            return None;
        },
    };
    let (lines, e2) = match parse_lines(i, e) {
        Some(v) => v,
        None => {
            return None;
        },
    };
    let t = id.text();
    proof {
        lemma_ident_text_end(id@);
    }
    let close: &[u8] = &[0x65, 0x6e, 0x64, 0x77, 0x68, 0x69, 0x6c, 0x65];  // endwhile
    assert(close@ =~= kw_endwhile());
    match parse_block_close(i, e2, t.as_slice(), close) {
        Some((_c2, e3)) => Some(
            (While { identifier: id, condition: x, lines, trailing_comment: c }, e3),
        ),
        None => None,
    }
}

pub fn parse_repeat(i: &str, p: usize) -> (r: Option<(Repeat, usize)>)
    requires
        p <= i.spec_bytes().len(),
    ensures
        parsed_as(r, sp_repeat(i.spec_bytes(), p as int)),
        r matches Some((_, e)) ==> p < e <= i.spec_bytes().len() && ascii_edge(i.spec_bytes(), e as int),
    decreases i.spec_bytes().len() - p, 1int,
{
    reveal_with_fuel(sp_repeat, 1);
    let kw: &[u8] = &[0x72, 0x65, 0x70, 0x65, 0x61, 0x74];  // repeat
    assert(kw@ =~= kw_repeat());
    let (id, x, c, e) = match parse_block_open_expr(i, p, kw) {
        Some(v) => v,
        None => {
            return None;
        },
    };
    let (lines, e2) = match parse_lines(i, e) {
        Some(v) => v,
        None => {
            return None;
        },
    };
    let t = id.text();
    proof {
        lemma_ident_text_end(id@);
    }
    let close: &[u8] = &[0x65, 0x6e, 0x64, 0x72, 0x65, 0x70, 0x65, 0x61, 0x74];  // endrepeat
    assert(close@ =~= kw_endrepeat());
    match parse_block_close(i, e2, t.as_slice(), close) {
        Some((_c2, e3)) => Some(
            (Repeat { identifier: id, condition: x, lines, trailing_comment: c }, e3),
        ),
        None => None,
    }
}

pub fn parse_subroutine(i: &str, p: usize) -> (r: Option<(Subroutine, usize)>)
    requires
        p <= i.spec_bytes().len(),
    ensures
        parsed_as(r, sp_subroutine(i.spec_bytes(), p as int)),
        r matches Some((_, e)) ==> p < e <= i.spec_bytes().len() && ascii_edge(i.spec_bytes(), e as int),
    decreases i.spec_bytes().len() - p, 1int,
{
    reveal_with_fuel(sp_subroutine, 1);
    let kw: &[u8] = &[0x73, 0x75, 0x62];  // sub
    assert(kw@ =~= kw_sub());
    let (id, c, e) = match parse_block_open(i, p, kw) {
        Some(v) => v,
        None => {
            return None;
        },
    };
    let (lines, e2) = match parse_lines(i, e) {
        Some(v) => v,
        None => {
            return None;
        },
    };
    let t = id.text();
    proof {
        lemma_ident_text_end(id@);
    }
    let close: &[u8] = &[0x65, 0x6e, 0x64, 0x73, 0x75, 0x62];  // endsub
    assert(close@ =~= kw_endsub());
    match parse_block_close_opt_expr(i, e2, t.as_slice(), close) {
        Some((x, _c2, e3)) => Some(
            (Subroutine { identifier: id, lines, trailing_comment: c, returns: x }, e3),
        ),
        None => None,
    }
}

pub fn parse_block(i: &str, p: usize) -> (r: Option<(Block, usize)>)
    requires
        p <= i.spec_bytes().len(),
    ensures
        parsed_as(r, sp_block(i.spec_bytes(), p as int)),
        r matches Some((_, e)) ==> p < e <= i.spec_bytes().len() && ascii_edge(i.spec_bytes(), e as int),
    decreases i.spec_bytes().len() - p, 2int,
{
    reveal_with_fuel(sp_block, 1);
    reveal_with_fuel(sp_do_while, 1);
    reveal_with_fuel(sp_conditional, 1);
    reveal_with_fuel(sp_while, 1);
    reveal_with_fuel(sp_repeat, 1);
    reveal_with_fuel(sp_subroutine, 1);
    if let Some((b, e)) = parse_do_while(i, p) {
        return Some((Block::DoWhile(b), e));
    }
    if let Some((b, e)) = parse_conditional(i, p) {
        return Some((Block::Conditional(b), e));
    }
    if let Some((b, e)) = parse_while(i, p) {
        return Some((Block::While(b), e));
    }
    if let Some((b, e)) = parse_repeat(i, p) {
        return Some((Block::Repeat(b), e));
    }
    if let Some((b, e)) = parse_subroutine(i, p) {
        return Some((Block::Subroutine(b), e));
    }
    None
}

/// Parse the opening line of a block whose keyword is `keyword` (`o100 sub`): the block
/// identifier and the comment after the keyword, if any
pub fn block_open<'a>(i: &'a str, keyword: &str) -> (r: ParseResult<'a, (BlockIdent, Option<Comment>)>)
    ensures
        match sp_block_open(i.spec_bytes(), 0, keyword.spec_bytes()) {
            Some((id, c, e)) => r matches Ok((rest, (b, com))) && b@ == id && opt_comment_model(com)
                == c && rest_after(i, rest, e),
            None => r is Err,
        },
{
    match parse_block_open(i, 0, keyword.as_bytes()) {
        Some((b, c, e)) => Ok((rest_from(i, e), (b, c))),
        None => Err(ParseError),
    }
}

/// Parse the opening line of a block whose keyword, here `keyword`, is followed by an
/// expression (`o101 while [#1 lt 3]`): the identifier, the expression and the comment
pub fn block_open_expr<'a>(i: &'a str, keyword: &str) -> (r: ParseResult<
    'a,
    (BlockIdent, Expression, Option<Comment>),
>)
    ensures
        match sp_block_open_expr(i.spec_bytes(), 0, keyword.spec_bytes()) {
            Some((id, x, c, e)) => r matches Ok((rest, (b, ex, com))) && b@ == id && ex@ == x
                && opt_comment_model(com) == c && rest_after(i, rest, e),
            None => r is Err,
        },
{
    match parse_block_open_expr(i, 0, keyword.as_bytes()) {
        Some((b, x, c, e)) => Ok((rest_from(i, e), (b, x, c))),
        None => Err(ParseError),
    }
}

/// Parse the closing line of the block `ident` whose keyword is `keyword`
/// (`o100 endsub`): the comment after the keyword, if any
pub fn block_close<'a>(i: &'a str, ident: &BlockIdent, keyword: &str) -> (r: ParseResult<
    'a,
    Option<Comment>,
>)
    ensures
        match sp_block_close(i.spec_bytes(), 0, ident_text(ident@), keyword.spec_bytes()) {
            Some((c, e)) => r matches Ok((rest, com)) && opt_comment_model(com) == c && rest_after(
                i,
                rest,
                e,
            ),
            None => r is Err,
        },
{
    let t = ident.text();
    proof {
        lemma_ident_text_end(ident@);
    }
    let kw = keyword.as_bytes();
    proof {
        lemma_str_valid(keyword);
    }
    match parse_block_close(i, 0, t.as_slice(), kw) {
        Some((c, e)) => Ok((rest_at_boundary(i, e), c)),
        None => Err(ParseError),
    }
}

/// Parse the closing line of the block `ident` whose keyword, here `keyword`, is
/// followed by an expression (`o101 while [#1 lt 3]` closing a do-while loop): the
/// expression and the comment
pub fn block_close_expr<'a>(i: &'a str, ident: &BlockIdent, keyword: &str) -> (r: ParseResult<
    'a,
    (Expression, Option<Comment>),
>)
    ensures
        match sp_block_close_expr(i.spec_bytes(), 0, ident_text(ident@), keyword.spec_bytes()) {
            Some((x, c, e)) => r matches Ok((rest, (ex, com))) && ex@ == x && opt_comment_model(com)
                == c && rest_after(i, rest, e),
            None => r is Err,
        },
{
    let t = ident.text();
    proof {
        lemma_ident_text_end(ident@);
    }
    let kw = keyword.as_bytes();
    match parse_block_close_expr(i, 0, t.as_slice(), kw) {
        Some((x, c, e)) => Ok((rest_from(i, e), (x, c))),
        None => Err(ParseError),
    }
}

/// Parse a do-while loop
pub fn do_while_block(i: &str) -> (r: ParseResult<DoWhile>)
    ensures
        result_matches(i, r, sp_do_while(i.spec_bytes(), 0)),
{
    finish(i, parse_do_while(i, 0))
}

/// Parse a while loop
pub fn while_block(i: &str) -> (r: ParseResult<While>)
    ensures
        result_matches(i, r, sp_while(i.spec_bytes(), 0)),
{
    finish(i, parse_while(i, 0))
}

/// Parse a repeat block
pub fn repeat_block(i: &str) -> (r: ParseResult<Repeat>)
    ensures
        result_matches(i, r, sp_repeat(i.spec_bytes(), 0)),
{
    finish(i, parse_repeat(i, 0))
}

/// Parse a subroutine definition
pub fn subroutine(i: &str) -> (r: ParseResult<Subroutine>)
    ensures
        result_matches(i, r, sp_subroutine(i.spec_bytes(), 0)),
{
    finish(i, parse_subroutine(i, 0))
}

/// Parse any control flow block
pub fn block(i: &str) -> (r: ParseResult<Block>)
    ensures
        result_matches(i, r, sp_block(i.spec_bytes(), 0)),
{
    finish(i, parse_block(i, 0))
}

/// A block is what the first of its alternatives reads, tried in this order: do-while,
/// conditional, while, repeat, subroutine; and each alternative reads a block of its own
/// kind.
pub proof fn lemma_block_alternatives(s: Seq<u8>, p: int)
    ensures
        sp_do_while(s, p) matches Some((b, _)) ==> b is DoWhile,
        sp_conditional(s, p) matches Some((b, _)) ==> b is Conditional,
        sp_while(s, p) matches Some((b, _)) ==> b is While,
        sp_repeat(s, p) matches Some((b, _)) ==> b is Repeat,
        sp_subroutine(s, p) matches Some((b, _)) ==> b is Subroutine,
        sp_block(s, p) == (if sp_do_while(s, p) is Some {
            sp_do_while(s, p)
        } else if sp_conditional(s, p) is Some {
            sp_conditional(s, p)
        } else if sp_while(s, p) is Some {
            sp_while(s, p)
        } else if sp_repeat(s, p) is Some {
            sp_repeat(s, p)
        } else {
            sp_subroutine(s, p)
        }),
{
    reveal(sp_block);
    reveal(sp_do_while);
    reveal(sp_conditional);
    reveal(sp_while);
    reveal(sp_repeat);
    reveal(sp_subroutine);
}

/// The identifier of a block.
pub open spec fn block_model_ident(b: BlockModel) -> IdentTypeModel {
    match b {
        BlockModel::Conditional(id, _) => id,
        BlockModel::DoWhile(id, _, _) => id,
        BlockModel::While(id, _, _, _) => id,
        BlockModel::Repeat(id, _, _, _) => id,
        BlockModel::Subroutine(id, _, _, _) => id,
    }
}

/// The word that follows the identifier on the first line of a block: `do`, `if`,
/// `while`, `repeat` or `sub`.
pub open spec fn opening_word(b: BlockModel) -> Seq<u8> {
    match b {
        BlockModel::DoWhile(..) => seq![0x64u8, 0x6f],
        BlockModel::Conditional(..) => seq![0x69u8, 0x66],
        BlockModel::While(..) => seq![0x77u8, 0x68, 0x69, 0x6c, 0x65],
        BlockModel::Repeat(..) => seq![0x72u8, 0x65, 0x70, 0x65, 0x61, 0x74],
        BlockModel::Subroutine(..) => seq![0x73u8, 0x75, 0x62],
    }
}

/// A block is of the kind its first line names: the first line holds the block's own
/// identifier, then the word `do` for a do-while loop, `if` for a conditional, `while` for
/// a while loop, `repeat` for a repeat block and `sub` for a subroutine.
pub proof fn lemma_block_opening_word(s: Seq<u8>, p: int)
    ensures
        sp_block(s, p) matches Some((b, _)) ==> (sp_block_ident(s, space0_end(s, p)) matches Some(
            (id, e),
        ) && id == block_model_ident(b) && tag_at(s, space0_end(s, e), opening_word(b))),
{
    reveal(sp_block);
    reveal(sp_do_while);
    reveal(sp_conditional);
    reveal(sp_while);
    reveal(sp_repeat);
    reveal(sp_subroutine);
    reveal(sp_block_open);
    reveal(sp_block_open_expr);
}

/// A while loop ends with its `endwhile` line, which names the loop's own identifier
/// (in any case).
pub proof fn lemma_while_closes_with_its_identifier(s: Seq<u8>, p: int)
    ensures
        sp_while(s, p) matches Some((BlockModel::While(id, _x, _ls, _c), e)) ==> exists|q: int|
            #[trigger] sp_block_close(s, q, ident_text(id), kw_endwhile()) matches Some((_, f)) && f == e,
{
    reveal(sp_while);
}

/// A repeat block ends with its `endrepeat` line, which names the block's own identifier
/// (in any case).
pub proof fn lemma_repeat_closes_with_its_identifier(s: Seq<u8>, p: int)
    ensures
        sp_repeat(s, p) matches Some((BlockModel::Repeat(id, _x, _ls, _c), e)) ==> exists|q: int|
            #[trigger] sp_block_close(s, q, ident_text(id), kw_endrepeat()) matches Some((_, f)) && f == e,
{
    reveal(sp_repeat);
}

/// A do-while loop ends with its `while` line, which names the loop's own identifier (in
/// any case) and holds the loop's condition.
pub proof fn lemma_do_while_closes_with_its_identifier(s: Seq<u8>, p: int)
    ensures
        sp_do_while(s, p) matches Some((BlockModel::DoWhile(id, x, _ls), e)) ==> exists|q: int|
            #[trigger] sp_block_close_expr(s, q, ident_text(id), kw_while()) matches Some((x2, _, f))
                && x2 == x && f == e,
{
    reveal(sp_do_while);
}

/// A subroutine ends with its `endsub` line, which names the subroutine's own identifier
/// (in any case); the value the subroutine returns is the expression of that line, when
/// it has one.
pub proof fn lemma_subroutine_closes_with_its_identifier(s: Seq<u8>, p: int)
    ensures
        sp_subroutine(s, p) matches Some((BlockModel::Subroutine(id, _ls, _c, x), e)) ==> exists|
            q: int,
        | #[trigger] sp_block_close_opt_expr(s, q, ident_text(id), kw_endsub()) matches Some(
            (x2, _, f),
        ) && x2 == x && f == e,
{
    reveal(sp_subroutine);
}

/// The word that follows the identifier on the last line of a block: `while` for a
/// do-while loop, `endif`, `endwhile`, `endrepeat` or `endsub`.
pub open spec fn closing_word(b: BlockModel) -> Seq<u8> {
    match b {
        BlockModel::DoWhile(..) => seq![0x77u8, 0x68, 0x69, 0x6c, 0x65],
        BlockModel::Conditional(..) => seq![0x65u8, 0x6e, 0x64, 0x69, 0x66],
        BlockModel::While(..) => seq![0x65u8, 0x6e, 0x64, 0x77, 0x68, 0x69, 0x6c, 0x65],
        BlockModel::Repeat(..) => seq![0x65u8, 0x6e, 0x64, 0x72, 0x65, 0x70, 0x65, 0x61, 0x74],
        BlockModel::Subroutine(..) => seq![0x65u8, 0x6e, 0x64, 0x73, 0x75, 0x62],
    }
}

/// Whether a closing line of block `b` starts at `q`: optional spaces, the block's
/// identifier (any case), optional spaces and the block's closing word.
pub open spec fn closing_line_at(s: Seq<u8>, q: int, b: BlockModel) -> bool {
    let q0 = space0_end(s, q);
    let t = ident_text(block_model_ident(b));
    tag_no_case_at(s, q0, t) && tag_at(s, space0_end(s, q0 + t.len()), closing_word(b))
}

/// A block is closed by the line its kind calls for: `o<id> while` ends a do-while loop,
/// `o<id> endif` a conditional, `o<id> endwhile` a while loop, `o<id> endrepeat` a repeat
/// block and `o<id> endsub` a subroutine, each with the block's own identifier.
pub proof fn lemma_block_closing_word(s: Seq<u8>, p: int)
    ensures
        sp_block(s, p) matches Some((b, _)) ==> exists|q: int| #[trigger] closing_line_at(s, q, b),
{
    reveal(sp_block);
    reveal(sp_block_close);
    reveal(sp_block_close_expr);
    reveal(sp_block_close_opt_expr);
    if let Some((b, _)) = sp_block(s, p) {
        let t = ident_text(block_model_ident(b));
        match b {
            BlockModel::DoWhile(..) => {
                lemma_do_while_closes_with_its_identifier(s, p);
                let q = choose|q: int| #[trigger] sp_block_close_expr(s, q, t, kw_while()) is Some;
                assert(closing_line_at(s, q, b));
            },
            BlockModel::Conditional(..) => {
                lemma_conditional_closes_with_its_identifier(s, p);
                let q = choose|q: int| #[trigger] sp_block_close(s, q, t, kw_endif()) is Some;
                assert(closing_line_at(s, q, b));
            },
            BlockModel::While(..) => {
                lemma_while_closes_with_its_identifier(s, p);
                let q = choose|q: int| #[trigger] sp_block_close(s, q, t, kw_endwhile()) is Some;
                assert(closing_line_at(s, q, b));
            },
            BlockModel::Repeat(..) => {
                lemma_repeat_closes_with_its_identifier(s, p);
                let q = choose|q: int| #[trigger] sp_block_close(s, q, t, kw_endrepeat()) is Some;
                assert(closing_line_at(s, q, b));
            },
            BlockModel::Subroutine(..) => {
                lemma_subroutine_closes_with_its_identifier(s, p);
                let q = choose|q: int| #[trigger] sp_block_close_opt_expr(s, q, t, kw_endsub()) is Some;
                assert(closing_line_at(s, q, b));
            },
        }
    }
}

} // verus!
