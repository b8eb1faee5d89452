use crate::expression::{parse_function, sp_function, Expression, ExpressionToken};
use crate::text::{finish, parsed_as, result_matches, skip_space, space0_end, ParseResult};
use crate::value::{
    parse_parameter, parse_value, sp_parameter, sp_value, Parameter, ParameterModel, Value,
    ValueModel,
};
use vstd::prelude::*;
use vstd::string::StringSliceAdditionalSpecFns;

verus! {

broadcast use vstd::seq::group_seq_axioms;

/// Assign a value to a variable
///
/// A value can be a literal or a complete expression
#[derive(Debug, PartialEq)]
pub struct Assignment {
    /// The parameter to assign a value to
    pub lhs: Parameter,
    /// The value or result of an expression to assign
    pub rhs: Value,
}

pub struct AssignmentModel {
    pub lhs: ParameterModel,
    pub rhs: ValueModel,
}

impl View for Assignment {
    type V = AssignmentModel;

    open spec fn view(&self) -> AssignmentModel {
        AssignmentModel { lhs: self.lhs@, rhs: self.rhs@ }
    }
}

/// The right hand side of an assignment at `p`: a value, or a bare function call (which
/// becomes an expression of that one call).
pub open spec fn sp_assigned_value(s: Seq<u8>, p: int) -> Option<(ValueModel, int)> {
    match sp_value(s, p, true) {
        Some(v) => Some(v),
        None => match sp_function(s, p) {
            Some((f, e)) => Some((ValueModel::Expression(seq![f]), e)),
            None => None,
        },
    }
}

/// A parameter, optional spaces, `=`, optional spaces and the assigned value.
pub open spec fn sp_assignment(s: Seq<u8>, p: int) -> Option<(AssignmentModel, int)> {
    match sp_parameter(s, p) {
        Some((lhs, e)) => {
            let q = space0_end(s, e);
            if 0 <= q < s.len() && s[q] == 0x3d {  // '='
                match sp_assigned_value(s, space0_end(s, q + 1)) {
                    Some((rhs, e2)) => Some((AssignmentModel { lhs, rhs }, e2)),
                    None => None,
                }
            } else {
                None
            }
        },
        None => None,
    }
}

fn parse_assigned_value(i: &str, p: usize) -> (r: Option<(Value, usize)>)
    requires
        p <= i.spec_bytes().len(),
    ensures
        parsed_as(r, sp_assigned_value(i.spec_bytes(), p as int)),
        r matches Some((_, e)) ==> p < e <= i.spec_bytes().len() && i.spec_bytes()[e - 1] < 0x80,
{
    if let Some(v) = parse_value(i, p, true) {
        return Some(v);
    }
    match parse_function(i, p) {
        Some((f, e)) => {
            let x = Expression::single(ExpressionToken::Function(f));
            Some((Value::Expression(x), e))
        },
        None => None,
    }
}

pub fn parse_assignment(i: &str, p: usize) -> (r: Option<(Assignment, usize)>)
    requires
        p <= i.spec_bytes().len(),
    ensures
        parsed_as(r, sp_assignment(i.spec_bytes(), p as int)),
        r matches Some((_, e)) ==> p < e <= i.spec_bytes().len() && i.spec_bytes()[e - 1] < 0x80,
{
    let s = i.as_bytes();
    let (lhs, e) = match parse_parameter(i, p) {
        Some(x) => x,
        None => {
            return None;
        },
    };
    let q = skip_space(s, e);
    if !(q < s.len() && s[q] == 0x3d) {
        return None;
    }
    let v = skip_space(s, q + 1);
    match parse_assigned_value(i, v) {
        Some((rhs, e2)) => Some((Assignment { lhs, rhs }, e2)),
        None => None,
    }
}

/// Parse an assignment (`#1 = 2`, `#<name> = [1 + 2]`, `#1 = SIN[30]`)
pub fn assignment(i: &str) -> (r: ParseResult<Assignment>)
    ensures
        result_matches(i, r, sp_assignment(i.spec_bytes(), 0)),
{
    finish(i, parse_assignment(i, 0))
}

} // verus!
