use crate::expression::{parse_expression, sp_expression, ExprTokenModel, Expression};
use crate::text::{
    finish, parsed_as, result_matches, skip_space, space0_end, tag_no_case, tag_no_case_at,
    ParseResult,
};
use crate::token::block::ident::{parse_block_ident, sp_block_ident, BlockIdent, IdentTypeModel};
use vstd::prelude::*;
use vstd::string::StringSliceAdditionalSpecFns;

verus! {

broadcast use vstd::seq::group_seq_axioms, crate::text::lemma_tag_no_case_end;

/// A subroutine call
#[derive(Debug, PartialEq)]
pub struct Call {
    /// The subroutine to call
    pub subroutine_ident: BlockIdent,
    /// The arguments passed to it
    pub arguments: Vec<Expression>,
}

pub struct CallModel {
    pub subroutine_ident: IdentTypeModel,
    pub arguments: Seq<Seq<ExprTokenModel>>,
}

pub open spec fn expressions_model(v: Seq<Expression>) -> Seq<Seq<ExprTokenModel>> {
    v.map_values(|e: Expression| e@)
}

impl View for Call {
    type V = CallModel;

    open spec fn view(&self) -> CallModel {
        CallModel { subroutine_ident: self.subroutine_ident@, arguments: expressions_model(self.arguments@) }
    }
}

/// The arguments of a call from `q` on, after the arguments `acc`: each is optional spaces
/// then a bracketed expression; the arguments end before the first such pair that does
/// not parse.
pub open spec fn sp_call_args(s: Seq<u8>, q: int, acc: Seq<Seq<ExprTokenModel>>) -> (
    Seq<Seq<ExprTokenModel>>,
    int,
)
    decreases s.len() - q,
{
    match sp_expression(s, space0_end(s, q)) {
        Some((x, e)) => if q < e <= s.len() {
            sp_call_args(s, e, acc.push(x))
        } else {
            (acc, q)
        },
        None => (acc, q),
    }
}

/// A block identifier, optional spaces, `call` (any case), then the arguments.
pub open spec fn sp_call(s: Seq<u8>, p: int) -> Option<(CallModel, int)> {
    match sp_block_ident(s, p) {
        Some((ident, e)) => {
            let q = space0_end(s, e);
            if tag_no_case_at(s, q, seq![0x63, 0x61, 0x6c, 0x6c]) {  // call
                let (arguments, end) = sp_call_args(s, q + 4, Seq::empty());
                Some((CallModel { subroutine_ident: ident, arguments }, end))
            } else {
                None
            }
        },
        None => None,
    }
}

pub fn parse_call(i: &str, p: usize) -> (r: Option<(Call, usize)>)
    requires
        p <= i.spec_bytes().len(),
    ensures
        parsed_as(r, sp_call(i.spec_bytes(), p as int)),
        r matches Some((_, e)) ==> p < e <= i.spec_bytes().len() && i.spec_bytes()[e - 1] < 0x80,
{
    let s = i.as_bytes();
    let (subroutine_ident, e) = match parse_block_ident(i, p) {
        Some(x) => x,
        None => {
            return None;
        },
    };
    let q = skip_space(s, e);
    if !tag_no_case(s, q, &[0x63, 0x61, 0x6c, 0x6c]) {
        return None;
    }
    let mut arguments: Vec<Expression> = Vec::new();
    let mut pos = q + 4;
    assert(expressions_model(arguments@) =~= Seq::empty());
    loop
        invariant
            q + 4 <= pos <= s.len(),
            s@ == i.spec_bytes(),
            s@[pos - 1] < 0x80,
            sp_call_args(s@, q + 4, Seq::empty()) == sp_call_args(s@, pos as int, expressions_model(arguments@)),
        ensures
            q + 4 <= pos <= s.len(),
            s@[pos - 1] < 0x80,
            sp_call_args(s@, q + 4, Seq::empty()) == (expressions_model(arguments@), pos as int),
        decreases s.len() - pos,
    {
        let r = skip_space(s, pos);
        match parse_expression(i, r) {
            Some((x, e2)) => {
                let ghost before = arguments@;
                arguments.push(x);
                proof {
                    assert(expressions_model(arguments@) =~= expressions_model(before).push(x@));
                }
                pos = e2;
            },
            None => {
                break;
            },
        }
    }
    Some((Call { subroutine_ident, arguments }, pos))
}

/// Parse a subroutine call (`o100 call [1] [2]`)
pub fn call(i: &str) -> (r: ParseResult<Call>)
    ensures
        result_matches(i, r, sp_call(i.spec_bytes(), 0)),
{
    finish(i, parse_call(i, 0))
}

} // verus!
