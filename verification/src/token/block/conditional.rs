//! If / else if / else chains
use super::{
    ident_text, lemma_ident_text_end, opt_expr_model, parse_block_close, parse_block_close_expr,
    parse_block_open_expr, sp_block_close, sp_block_close_expr, sp_block_open_expr, Block,
    BlockIdent, BlockModel,
};
use crate::expression::{ExprTokenModel, Expression};
use crate::text::{
    ascii_edge, finish, line_ending, line_ending_at, parsed_as, result_matches, ParseResult,
};
use crate::token::comment::opt_comment_model;
use crate::token::line::{parse_lines, sp_lines};
use crate::token::{block_model, branches_model, lines_model, Comment, Line, TokenTypeModel};
use vstd::prelude::*;
use vstd::string::StringSliceAdditionalSpecFns;

verus! {

/// What type of branch this is
#[derive(Debug, PartialEq, Eq, Clone, Copy)]
pub enum BranchType {
    /// If
    If,
    /// Else if
    ElseIf,
    /// Else
    Else,
}

/// One branch of an if/else if/else chain
#[derive(Debug, PartialEq)]
pub struct Branch {
    /// Which kind of branch
    pub branch_type: BranchType,
    /// The lines in the branch
    pub lines: Vec<Line>,
    /// The condition (absent for `else`)
    pub condition: Option<Expression>,
    /// A comment after the branch's opening
    pub trailing_comment: Option<Comment>,
}

/// An if/else if/else chain
#[derive(Debug, PartialEq)]
pub struct Conditional {
    /// The block identifier
    pub identifier: BlockIdent,
    /// The `if` branch, then each `elseif`, then the `else` if there is one
    pub branches: Vec<Branch>,
}

pub struct BranchModel {
    pub branch_type: BranchType,
    pub lines: Seq<Seq<TokenTypeModel>>,
    pub condition: Option<Seq<ExprTokenModel>>,
    pub trailing_comment: Option<Seq<char>>,
}

/// `if`
pub open spec fn kw_if() -> Seq<u8> {
    seq![0x69u8, 0x66]
}

/// `elseif`
pub open spec fn kw_elseif() -> Seq<u8> {
    seq![0x65u8, 0x6c, 0x73, 0x65, 0x69, 0x66]
}

/// `else`
pub open spec fn kw_else() -> Seq<u8> {
    seq![0x65u8, 0x6c, 0x73, 0x65]
}

/// `endif`
pub open spec fn kw_endif() -> Seq<u8> {
    seq![0x65u8, 0x6e, 0x64, 0x69, 0x66]
}

/// An `elseif` branch of the block whose identifier text is `t`: the `elseif` line with
/// its condition, a line ending, and the lines of the branch.
#[verifier::opaque]
pub open spec fn sp_elseif(s: Seq<u8>, q: int, t: Seq<u8>) -> Option<(BranchModel, int)>
    decreases s.len() - q, 0int,
{
    match sp_block_close_expr(s, q, t, kw_elseif()) {
        Some((x, c, e)) => match line_ending_at(s, e) {
            Some(n) => if q < e + n <= s.len() {
                match sp_lines(s, e + n, Seq::empty()) {
                    Some((ls, e2)) => Some((
                        BranchModel {
                            branch_type: BranchType::ElseIf,
                            lines: ls,
                            condition: Some(x),
                            trailing_comment: c,
                        },
                        e2,
                    )),
                    None => None,
                }
            } else {
                None
            },
            None => None,
        },
        None => None,
    }
}

/// The `elseif` branches from `q` on, after the branches `acc`: as many as match.
#[verifier::opaque]
pub open spec fn sp_elseifs(s: Seq<u8>, q: int, t: Seq<u8>, acc: Seq<BranchModel>) -> Option<
    (Seq<BranchModel>, int),
>
    decreases s.len() - q, 1int,
{
    match sp_elseif(s, q, t) {
        Some((b, e)) => if q < e <= s.len() {
            sp_elseifs(s, e, t, acc.push(b))
        } else {
            None
        },
        None => Some((acc, q)),
    }
}

/// The `else` branch of the block whose identifier text is `t`: the `else` line, a line
/// ending, and the lines of the branch.
#[verifier::opaque]
pub open spec fn sp_else(s: Seq<u8>, q: int, t: Seq<u8>) -> Option<(BranchModel, int)>
    decreases s.len() - q, 0int,
{
    match sp_block_close(s, q, t, kw_else()) {
        Some((c, e)) => match line_ending_at(s, e) {
            Some(n) => if q < e + n <= s.len() {
                match sp_lines(s, e + n, Seq::empty()) {
                    Some((ls, e2)) => Some((
                        BranchModel {
                            branch_type: BranchType::Else,
                            lines: ls,
                            condition: None,
                            trailing_comment: c,
                        },
                        e2,
                    )),
                    None => None,
                }
            } else {
                None
            },
            None => None,
        },
        None => None,
    }
}

/// A conditional: the `if` line with its condition and the lines of that branch, any
/// number of `elseif` branches, an optional `else` branch, and the `endif` line.
#[verifier::opaque]
pub open spec fn sp_conditional(s: Seq<u8>, p: int) -> Option<(BlockModel, int)>
    decreases s.len() - p, 1int,
{
    match sp_block_open_expr(s, p, kw_if()) {
        Some((id, x, c, e)) => if p < e <= s.len() {
            match sp_lines(s, e, Seq::empty()) {
                Some((ls, e2)) => if e <= e2 <= s.len() {
                    let t = ident_text(id);
                    let first = BranchModel {
                        branch_type: BranchType::If,
                        lines: ls,
                        condition: Some(x),
                        trailing_comment: c,
                    };
                    match sp_elseifs(s, e2, t, seq![first]) {
                        Some((bs, e3)) => if e2 <= e3 <= s.len() {
                            let (bs2, e4) = match sp_else(s, e3, t) {
                                Some((b, e5)) => (bs.push(b), e5),
                                None => (bs, e3),
                            };
                            match sp_block_close(s, e4, t, kw_endif()) {
                                Some((_c2, e6)) => Some((BlockModel::Conditional(id, bs2), e6)),
                                None => None,
                            }
                        } else {
                            None
                        },
                        None => None,
                    }
                } else {
                    None
                },
                None => None,
            }
        } else {
            None
        },
        None => None,
    }
}

impl View for Branch {
    type V = BranchModel;

    open spec fn view(&self) -> BranchModel {
        BranchModel {
            branch_type: self.branch_type,
            lines: lines_model(self.lines@),
            condition: opt_expr_model(self.condition),
            trailing_comment: opt_comment_model(self.trailing_comment),
        }
    }
}

impl View for Conditional {
    type V = BlockModel;

    open spec fn view(&self) -> BlockModel {
        block_model(Block::Conditional(*self))
    }
}

pub fn parse_elseif(i: &str, q: usize, t: &[u8]) -> (r: Option<(Branch, usize)>)
    requires
        q <= i.spec_bytes().len(),
        t@.len() > 0,
        t@.last() < 0x80,
    ensures
        parsed_as(r, sp_elseif(i.spec_bytes(), q as int, t@)),
        r matches Some((_, e)) ==> q < e <= i.spec_bytes().len() && i.spec_bytes()[e - 1] == 0x0a,
    decreases i.spec_bytes().len() - q, 0int,
{
    reveal_with_fuel(sp_elseif, 1);
    let s = i.as_bytes();
    let kw: &[u8] = &[0x65, 0x6c, 0x73, 0x65, 0x69, 0x66];  // elseif
    assert(kw@ =~= kw_elseif());
    let (x, c, e) = match parse_block_close_expr(i, q, t, kw) {
        Some(v) => v,
        None => {
            return None;
        },
    };
    let n = match line_ending(s, e) {
        Some(n) => n,
        None => {
            return None;
        },
    };
    match parse_lines(i, e + n) {
        Some((lines, e2)) => Some(
            (
                Branch {
                    branch_type: BranchType::ElseIf,
                    lines,
                    condition: Some(x),
                    trailing_comment: c,
                },
                e2,
            ),
        ),
        None => None,
    }
}

pub fn parse_else(i: &str, q: usize, t: &[u8]) -> (r: Option<(Branch, usize)>)
    requires
        q <= i.spec_bytes().len(),
        t@.len() > 0,
        t@.last() < 0x80,
    ensures
        parsed_as(r, sp_else(i.spec_bytes(), q as int, t@)),
        r matches Some((_, e)) ==> q < e <= i.spec_bytes().len() && i.spec_bytes()[e - 1] == 0x0a,
    decreases i.spec_bytes().len() - q, 0int,
{
    reveal_with_fuel(sp_else, 1);
    let s = i.as_bytes();
    let kw: &[u8] = &[0x65, 0x6c, 0x73, 0x65];  // else
    assert(kw@ =~= kw_else());
    let (c, e) = match parse_block_close(i, q, t, kw) {
        Some(v) => v,
        None => {
            return None;
        },
    };
    let n = match line_ending(s, e) {
        Some(n) => n,
        None => {
            return None;
        },
    };
    match parse_lines(i, e + n) {
        Some((lines, e2)) => Some(
            (
                Branch { branch_type: BranchType::Else, lines, condition: None, trailing_comment: c },
                e2,
            ),
        ),
        None => None,
    }
}

pub fn parse_conditional(i: &str, p: usize) -> (r: Option<(Conditional, usize)>)
    requires
        p <= i.spec_bytes().len(),
    ensures
        parsed_as(r, sp_conditional(i.spec_bytes(), p as int)),
        r matches Some((_, e)) ==> p < e <= i.spec_bytes().len() && ascii_edge(i.spec_bytes(), e as int),
    decreases i.spec_bytes().len() - p, 1int,
{
    reveal_with_fuel(sp_elseifs, 1);
    reveal_with_fuel(sp_elseif, 1);
    reveal_with_fuel(sp_else, 1);
    reveal_with_fuel(sp_conditional, 1);
    let s = i.as_bytes();
    let kw: &[u8] = &[0x69, 0x66];  // if
    assert(kw@ =~= kw_if());
    let (id, x, c, e) = match parse_block_open_expr(i, p, kw) {
        Some(v) => v,
        None => {
            return None;
        },
    };
    let (lines, e2) = match parse_lines(i, e) {
        Some(v) => v,
        None => {
            return None;
        },
    };
    let t = id.text();
    proof {
        lemma_ident_text_end(id@);
    }
    let ghost first = BranchModel {
        branch_type: BranchType::If,
        lines: lines_model(lines@),
        condition: Some(x@),
        trailing_comment: opt_comment_model(c),
    };
    let mut branches: Vec<Branch> = Vec::new();
    branches.push(Branch { branch_type: BranchType::If, lines, condition: Some(x), trailing_comment: c });
    assert(branches@.drop_last() =~= Seq::<Branch>::empty());
    assert(branches_model(Seq::<Branch>::empty()) =~= Seq::empty());
    assert(branches_model(branches@) =~= seq![first]);
    let mut q = e2;
    loop
        invariant
            s@ == i.spec_bytes(),
            p < e <= e2 <= q <= s.len(),
            s@[q - 1] == 0x0a,
            t@ == ident_text(id@),
            t@.len() > 0,
            t@.last() < 0x80,
            sp_elseifs(s@, e2 as int, t@, seq![first]) == sp_elseifs(s@, q as int, t@, branches_model(branches@)),
        ensures
            p < e2 <= q <= s.len(),
            s@[q - 1] == 0x0a,
            sp_elseifs(s@, e2 as int, t@, seq![first]) == Some((branches_model(branches@), q as int)),
        decreases s.len() - q,
    {
        reveal_with_fuel(sp_elseifs, 1);
        reveal_with_fuel(sp_elseif, 1);
        match parse_elseif(i, q, t.as_slice()) {
            Some((b, e4)) => {
                let ghost before = branches@;
                branches.push(b);
                proof {
                    assert(branches@.drop_last() =~= before);
                }
                q = e4;
            },
            None => {
                break;
            },
        }
    }
    let mut q2 = q;
    if let Some((b, e5)) = parse_else(i, q, t.as_slice()) {
        let ghost before = branches@;
        branches.push(b);
        proof {
            assert(branches@.drop_last() =~= before);
        }
        q2 = e5;
    }
    let close: &[u8] = &[0x65, 0x6e, 0x64, 0x69, 0x66];  // endif
    assert(close@ =~= kw_endif());
    match parse_block_close(i, q2, t.as_slice(), close) {
        Some((_c2, e6)) => Some((Conditional { identifier: id, branches }, e6)),
        None => None,
    }
}

/// Parse an `elseif` branch of the block `ident`: the `elseif` line with its condition
/// and the lines of the branch
pub fn elseif_block<'a>(i: &'a str, ident: &BlockIdent) -> (r: ParseResult<'a, Branch>)
    ensures
        result_matches(i, r, sp_elseif(i.spec_bytes(), 0, ident_text(ident@))),
{
    let t = ident.text();
    proof {
        lemma_ident_text_end(ident@);
    }
    finish(i, parse_elseif(i, 0, t.as_slice()))
}

/// Parse the `else` branch of the block `ident`: the `else` line and the lines of the
/// branch
pub fn else_block<'a>(i: &'a str, ident: &BlockIdent) -> (r: ParseResult<'a, Branch>)
    ensures
        result_matches(i, r, sp_else(i.spec_bytes(), 0, ident_text(ident@))),
{
    let t = ident.text();
    proof {
        lemma_ident_text_end(ident@);
    }
    finish(i, parse_else(i, 0, t.as_slice()))
}

/// Parse an if / else if / else chain
pub fn conditional(i: &str) -> (r: ParseResult<Conditional>)
    ensures
        result_matches(i, r, sp_conditional(i.spec_bytes(), 0)),
{
    finish(i, parse_conditional(i, 0))
}

/// The branches of a chain so far: an `if` branch with its condition, then `elseif`
/// branches, each with its condition.
pub open spec fn if_elseif_chain(bs: Seq<BranchModel>) -> bool {
    &&& bs.len() >= 1
    &&& bs[0].branch_type == BranchType::If
    &&& bs[0].condition is Some
    &&& forall|k: int|
        0 < k < bs.len() ==> (#[trigger] bs[k]).branch_type == BranchType::ElseIf
            && bs[k].condition is Some
}

proof fn lemma_elseifs_keep_chain(s: Seq<u8>, q: int, t: Seq<u8>, acc: Seq<BranchModel>)
    requires
        if_elseif_chain(acc),
    ensures
        sp_elseifs(s, q, t, acc) matches Some((bs, _)) ==> if_elseif_chain(bs) && bs.len()
            >= acc.len() && bs.subrange(0, acc.len() as int) == acc,
    decreases s.len() - q,
{
    reveal_with_fuel(sp_elseifs, 1);
    reveal(sp_elseif);
    if let Some((b, e)) = sp_elseif(s, q, t) {
        if q < e <= s.len() {
            let acc2 = acc.push(b);
            assert(if_elseif_chain(acc2));
            lemma_elseifs_keep_chain(s, e, t, acc2);
            if let Some((bs, _)) = sp_elseifs(s, e, t, acc2) {
                assert(bs.subrange(0, acc.len() as int) =~= acc2.subrange(0, acc.len() as int));
                assert(acc2.subrange(0, acc.len() as int) =~= acc);
            }
        }
    } else {
        assert(acc.subrange(0, acc.len() as int) =~= acc);
    }
}

/// A conditional's branches are an `if` branch with its condition, then its `elseif`
/// branches in the order written, each with its condition, and last, at most one `else`
/// branch, without a condition.
pub proof fn lemma_conditional_branches(s: Seq<u8>, p: int)
    ensures
        sp_conditional(s, p) matches Some((BlockModel::Conditional(_id, bs), _)) ==> {
            ||| if_elseif_chain(bs)
            ||| if_elseif_chain(bs.drop_last()) && bs.last().branch_type == BranchType::Else
                && bs.last().condition is None
        },
{
    reveal_with_fuel(sp_elseifs, 1);
    reveal_with_fuel(sp_elseif, 1);
    reveal_with_fuel(sp_else, 1);
    reveal_with_fuel(sp_conditional, 1);
    if let Some((id, x, c, e)) = sp_block_open_expr(s, p, kw_if()) {
        if p < e <= s.len() {
            if let Some((ls, e2)) = sp_lines(s, e, Seq::empty()) {
                if e <= e2 <= s.len() {
                    let t = ident_text(id);
                    let first = BranchModel {
                        branch_type: BranchType::If,
                        lines: ls,
                        condition: Some(x),
                        trailing_comment: c,
                    };
                    assert(if_elseif_chain(seq![first]));
                    lemma_elseifs_keep_chain(s, e2, t, seq![first]);
                    if let Some((bs, e3)) = sp_elseifs(s, e2, t, seq![first]) {
                        if e2 <= e3 <= s.len() {
                            assert(if_elseif_chain(bs));
                            if let Some((b, e5)) = sp_else(s, e3, t) {
                                assert(b.branch_type == BranchType::Else && b.condition is None);
                                assert(bs.push(b).drop_last() =~= bs);
                                assert(if_elseif_chain(bs.push(b).drop_last()));
                            }
                        }
                    }
                }
            }
        }
    }
}

/// A conditional ends with its `endif` line, which names the conditional's own identifier
/// (in any case).
pub proof fn lemma_conditional_closes_with_its_identifier(s: Seq<u8>, p: int)
    ensures
        sp_conditional(s, p) matches Some((BlockModel::Conditional(id, _bs), e)) ==> exists|q: int|
            #[trigger] sp_block_close(s, q, ident_text(id), kw_endif()) matches Some((_, f)) && f == e,
{
    reveal(sp_conditional);
}

/// An `elseif` branch holds its line's condition and comment, and an `else` branch holds
/// no condition and its line's comment; each line names the identifier text `t` (any case).
pub proof fn lemma_elseif_and_else_branches(s: Seq<u8>, q: int, t: Seq<u8>)
    ensures
        sp_elseif(s, q, t) matches Some((b, _)) ==> {
            &&& b.branch_type == BranchType::ElseIf
            &&& sp_block_close_expr(s, q, t, kw_elseif()) matches Some((x, c, _))
            &&& b.condition == Some(x)
            &&& b.trailing_comment == c
        },
        sp_else(s, q, t) matches Some((b, _)) ==> {
            &&& b.branch_type == BranchType::Else
            &&& b.condition is None
            &&& sp_block_close(s, q, t, kw_else()) matches Some((c, _))
            &&& b.trailing_comment == c
        },
{
    reveal_with_fuel(sp_elseif, 1);
    reveal_with_fuel(sp_else, 1);
}

} // verus!
