use crate::expression::{parse_expression, sp_expression, ExprTokenModel, Expression};
use crate::text::{
    finish, parsed_as, result_matches, skip_space, space0_end, tag_no_case, tag_no_case_at,
    ParseResult,
};
use crate::token::block::ident::{parse_block_ident, sp_block_ident, BlockIdent, IdentTypeModel};
use vstd::prelude::*;
use vstd::string::StringSliceAdditionalSpecFns;

verus! {

broadcast use crate::text::lemma_tag_no_case_end;

/// A return statement
#[derive(Debug, PartialEq)]
pub struct Return {
    /// The subroutine this returns from
    pub ident: BlockIdent,
    /// The returned value, if any
    pub value: Option<Expression>,
}

pub struct ReturnModel {
    pub ident: IdentTypeModel,
    pub value: Option<Seq<ExprTokenModel>>,
}

impl View for Return {
    type V = ReturnModel;

    open spec fn view(&self) -> ReturnModel {
        ReturnModel {
            ident: self.ident@,
            value: match self.value {
                Some(e) => Some(e@),
                None => None,
            },
        }
    }
}

/// A block identifier, at least one space, `return` (any case), then optionally at least
/// one space and a bracketed expression.
pub open spec fn sp_return(s: Seq<u8>, p: int) -> Option<(ReturnModel, int)> {
    match sp_block_ident(s, p) {
        Some((ident, e)) => {
            let q = space0_end(s, e);
            if q > e && tag_no_case_at(s, q, seq![0x72, 0x65, 0x74, 0x75, 0x72, 0x6e]) {  // return
                let r = space0_end(s, q + 6);
                match sp_expression(s, r) {
                    Some((x, e2)) => if r > q + 6 {
                        Some((ReturnModel { ident, value: Some(x) }, e2))
                    } else {
                        Some((ReturnModel { ident, value: None }, q + 6))
                    },
                    None => Some((ReturnModel { ident, value: None }, q + 6)),
                }
            } else {
                None
            }
        },
        None => None,
    }
}

pub fn parse_return(i: &str, p: usize) -> (r: Option<(Return, usize)>)
    requires
        p <= i.spec_bytes().len(),
    ensures
        parsed_as(r, sp_return(i.spec_bytes(), p as int)),
        r matches Some((_, e)) ==> p < e <= i.spec_bytes().len() && i.spec_bytes()[e - 1] < 0x80,
{
    let s = i.as_bytes();
    let (ident, e) = match parse_block_ident(i, p) {
        Some(x) => x,
        None => {
            return None;
        },
    };
    let q = skip_space(s, e);
    if !(q > e && tag_no_case(s, q, &[0x72, 0x65, 0x74, 0x75, 0x72, 0x6e])) {
        return None;
    }
    let r = skip_space(s, q + 6);
    if r > q + 6 {
        if let Some((x, e2)) = parse_expression(i, r) {
            return Some((Return { ident, value: Some(x) }, e2));
        }
    }
    Some((Return { ident, value: None }, q + 6))
}

/// Parse a return statement (`o100 return [1 + 2]`)
pub fn return_stmt(i: &str) -> (r: ParseResult<Return>)
    ensures
        result_matches(i, r, sp_return(i.spec_bytes(), 0)),
{
    finish(i, parse_return(i, 0))
}

} // verus!
