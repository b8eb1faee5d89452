//! Expressions of the token set: `[1 + 2 * SIN[#3]]`.
//!
//! An expression is the list of its tokens as written, with nested brackets and function
//! arguments as nested lists. Whitespace (spaces, tabs, carriage returns and line feeds) may
//! stand before and after every bracket and token.
use crate::expression::{
    function_name, function_name_at, function_spelling, lemma_function_name_spelling, FunctionName,
};
use crate::text::{
    parsed_as, rest_from, skip_ws, tag_no_case, tag_no_case_at, ws_end, ParseError, ParseResult,
};
use crate::value::{
    parse_number, parse_parameter, sp_number, sp_parameter, Decimal, DecimalModel, Parameter,
    ParameterModel,
};
use vstd::prelude::*;
use vstd::string::StringSliceAdditionalSpecFns;

verus! {

broadcast use vstd::seq::group_seq_axioms;

/// An arithmetic operator. The operators are ordered by precedence: `-` below `+`
/// below `*` below `/`.
#[derive(Clone, Copy, Debug, PartialEq, Eq, PartialOrd)]
pub enum ArithmeticOperator {
    /// `-`
    Sub,
    /// `+`
    Add,
    /// `*`
    Mul,
    /// `/`
    Div,
}

/// A function call inside an expression
#[derive(Debug, PartialEq)]
pub enum Function {
    /// `ABS[x]`
    Abs(Expression),
    /// `ACOS[x]`
    Acos(Expression),
    /// `ASIN[x]`
    Asin(Expression),
    /// `ATAN[y]/[x]`
    Atan((Expression, Expression)),
    /// `COS[x]`
    Cos(Expression),
    /// `EXISTS[x]`
    Exists(Expression),
    /// `EXP[x]`
    Exp(Expression),
    /// `FIX[x]`
    Fix(Expression),
    /// `FUP[x]`
    Fup(Expression),
    /// `LN[x]`
    Ln(Expression),
    /// `ROUND[x]`
    Round(Expression),
    /// `SIN[x]`
    Sin(Expression),
    /// `SQRT[x]`
    Sqrt(Expression),
    /// `TAN[x]`
    Tan(Expression),
}

/// One token of an expression
#[derive(Debug, PartialEq)]
pub enum ExpressionToken {
    /// An arithmetic operator
    ArithmeticOperator(ArithmeticOperator),
    /// A nested bracketed expression
    Expression(Expression),
    /// A function call
    Function(Function),
    /// A literal number
    Literal(Decimal),
    /// A parameter
    Parameter(Parameter),
}

/// A bracketed expression: its tokens in the order they were written
pub type Expression = Vec<ExpressionToken>;

/// The mathematical content of an expression token.
pub enum TokenModel {
    Arithmetic(ArithmeticOperator),
    Group(Seq<TokenModel>),
    Unary(FunctionName, Seq<TokenModel>),
    Atan(Seq<TokenModel>, Seq<TokenModel>),
    Literal(DecimalModel),
    Parameter(ParameterModel),
}

pub open spec fn token_model(t: ExpressionToken) -> TokenModel
    decreases t,
{
    match t {
        ExpressionToken::ArithmeticOperator(o) => TokenModel::Arithmetic(o),
        ExpressionToken::Expression(e) => TokenModel::Group(tokens_model(e@)),
        ExpressionToken::Function(f) => function_model(f),
        ExpressionToken::Literal(d) => TokenModel::Literal(d@),
        ExpressionToken::Parameter(p) => TokenModel::Parameter(p@),
    }
}

pub open spec fn function_model(f: Function) -> TokenModel
    decreases f,
{
    match f {
        Function::Abs(e) => TokenModel::Unary(FunctionName::Abs, tokens_model(e@)),
        Function::Acos(e) => TokenModel::Unary(FunctionName::Acos, tokens_model(e@)),
        Function::Asin(e) => TokenModel::Unary(FunctionName::Asin, tokens_model(e@)),
        Function::Atan((a, b)) => TokenModel::Atan(tokens_model(a@), tokens_model(b@)),
        Function::Cos(e) => TokenModel::Unary(FunctionName::Cos, tokens_model(e@)),
        Function::Exists(e) => TokenModel::Unary(FunctionName::Exists, tokens_model(e@)),
        Function::Exp(e) => TokenModel::Unary(FunctionName::Exp, tokens_model(e@)),
        Function::Fix(e) => TokenModel::Unary(FunctionName::Fix, tokens_model(e@)),
        Function::Fup(e) => TokenModel::Unary(FunctionName::Fup, tokens_model(e@)),
        Function::Ln(e) => TokenModel::Unary(FunctionName::Ln, tokens_model(e@)),
        Function::Round(e) => TokenModel::Unary(FunctionName::Round, tokens_model(e@)),
        Function::Sin(e) => TokenModel::Unary(FunctionName::Sin, tokens_model(e@)),
        Function::Sqrt(e) => TokenModel::Unary(FunctionName::Sqrt, tokens_model(e@)),
        Function::Tan(e) => TokenModel::Unary(FunctionName::Tan, tokens_model(e@)),
    }
}

pub open spec fn tokens_model(ts: Seq<ExpressionToken>) -> Seq<TokenModel>
    decreases ts,
{
    if ts.len() == 0 {
        Seq::empty()
    } else {
        tokens_model(ts.drop_last()).push(token_model(ts.last()))
    }
}

/// The arithmetic operator written at `p`.
pub open spec fn arith_at(s: Seq<u8>, p: int) -> Option<ArithmeticOperator> {
    if 0 <= p < s.len() {
        if s[p] == 0x2b {
            Some(ArithmeticOperator::Add)
        } else if s[p] == 0x2d {
            Some(ArithmeticOperator::Sub)
        } else if s[p] == 0x2a {
            Some(ArithmeticOperator::Mul)
        } else if s[p] == 0x2f {
            Some(ArithmeticOperator::Div)
        } else {
            None
        }
    } else {
        None
    }
}

/// The byte that writes an arithmetic operator.
pub open spec fn arith_byte(o: ArithmeticOperator) -> u8 {
    match o {
        ArithmeticOperator::Sub => 0x2d,
        ArithmeticOperator::Add => 0x2b,
        ArithmeticOperator::Mul => 0x2a,
        ArithmeticOperator::Div => 0x2f,
    }
}

/// The operator read at `p` is exactly the one whose byte stands there.
pub proof fn lemma_arith_byte(s: Seq<u8>, p: int, o: ArithmeticOperator)
    ensures
        arith_at(s, p) == Some(o) <==> (0 <= p < s.len() && s[p] == arith_byte(o)),
{
}

/// A call of a one-argument function is a call of the function whose name is written at
/// its start.
pub proof fn lemma_unary_name(s: Seq<u8>, p: int)
    ensures
        sp_unary(s, p) matches Some((TokenModel::Unary(n, _), _)) ==> tag_no_case_at(
            s,
            p,
            function_spelling(n),
        ),
{
    lemma_function_name_spelling(s, p, FunctionName::Abs);
}

fn arith(s: &[u8], p: usize) -> (r: Option<ArithmeticOperator>)
    ensures
        r == arith_at(s@, p as int),
        r is Some ==> p < s.len() && s@[p as int] < 0x80,
{
    if p < s.len() {
        if s[p] == 0x2b {
            Some(ArithmeticOperator::Add)
        } else if s[p] == 0x2d {
            Some(ArithmeticOperator::Sub)
        } else if s[p] == 0x2a {
            Some(ArithmeticOperator::Mul)
        } else if s[p] == 0x2f {
            Some(ArithmeticOperator::Div)
        } else {
            None
        }
    } else {
        None
    }
}

/// An expression at `p`: optional whitespace, `[`, one or more tokens, `]`, and the
/// whitespace after it.
pub open spec fn sp_expr(s: Seq<u8>, p: int) -> Option<(Seq<TokenModel>, int)>
    decreases s.len() - p, 0int,
{
    let q = ws_end(s, p);
    if 0 <= p <= q < s.len() && s[q] == 0x5b {  // '['
        sp_expr_tokens(s, q + 1, Seq::empty())
    } else {
        None
    }
}

/// The tokens of an expression from `q` on, after the tokens `acc` already read, up to
/// the closing `]` and the whitespace after it.
///
/// (The bounds tested before each step always hold; they keep the definition well-founded.)
pub open spec fn sp_expr_tokens(s: Seq<u8>, q: int, acc: Seq<TokenModel>) -> Option<
    (Seq<TokenModel>, int),
>
    decreases s.len() - q, 4int,
{
    let r = ws_end(s, q);
    if 0 <= r < s.len() && s[r] == 0x5d && acc.len() > 0 {  // ']'
        Some((acc, ws_end(s, r + 1)))
    } else if q <= r <= s.len() {
        match sp_expr_token(s, r) {
            Some((t, e)) => if r < e <= s.len() {
                sp_expr_tokens(s, e, acc.push(t))
            } else {
                None
            },
            None => None,
        }
    } else {
        None
    }
}

/// One token at `p`: a function call, a number, an arithmetic operator, a parameter or a
/// nested expression, tried in this order.
pub open spec fn sp_expr_token(s: Seq<u8>, p: int) -> Option<(TokenModel, int)>
    decreases s.len() - p, 3int,
{
    match sp_call(s, p) {
        Some(f) => Some(f),
        None => match sp_number(s, p, true) {
            Some((d, e)) => Some((TokenModel::Literal(d), e)),
            None => match arith_at(s, p) {
                Some(o) => Some((TokenModel::Arithmetic(o), p + 1)),
                None => match sp_parameter(s, p) {
                    Some((m, e)) => Some((TokenModel::Parameter(m), e)),
                    None => match sp_expr(s, p) {
                        Some((x, e)) => Some((TokenModel::Group(x), e)),
                        None => None,
                    },
                },
            },
        },
    }
}

/// A function call at `p`: `ATAN[y]/[x]`, or a function name and its bracketed argument.
pub open spec fn sp_call(s: Seq<u8>, p: int) -> Option<(TokenModel, int)>
    decreases s.len() - p, 2int,
{
    if tag_no_case_at(s, p, seq![0x41, 0x54, 0x41, 0x4e]) {  // ATAN
        sp_atan_call(s, p)
    } else {
        sp_unary(s, p)
    }
}

/// `ATAN`, an expression, optional whitespace, `/` and another expression.
pub open spec fn sp_atan_call(s: Seq<u8>, p: int) -> Option<(TokenModel, int)>
    decreases s.len() - p, 1int,
{
    if 0 <= p && p + 4 <= s.len() {
        match sp_expr(s, p + 4) {
            Some((a, e1)) => {
                let q = ws_end(s, e1);
                if p < q < s.len() && s[q] == 0x2f {  // '/'
                    match sp_expr(s, q + 1) {
                        Some((b, e2)) => Some((TokenModel::Atan(a, b), e2)),
                        None => None,
                    }
                } else {
                    None
                }
            },
            None => None,
        }
    } else {
        None
    }
}

/// A one-argument function name and its bracketed argument.
pub open spec fn sp_unary(s: Seq<u8>, p: int) -> Option<(TokenModel, int)>
    decreases s.len() - p, 1int,
{
    match function_name_at(s, p) {
        Some((name, k)) => if 0 <= p && 0 < k && p + k <= s.len() {
            match sp_expr(s, p + k) {
                Some((a, e)) => Some((TokenModel::Unary(name, a), e)),
                None => None,
            }
        } else {
            None
        },
        None => None,
    }
}

/// The name of the function a call calls, by the call's variant; `ATAN` has two
/// arguments and no name of this kind.
pub open spec fn called_name(f: Function) -> Option<FunctionName> {
    match f {
        Function::Abs(_) => Some(FunctionName::Abs),
        Function::Acos(_) => Some(FunctionName::Acos),
        Function::Asin(_) => Some(FunctionName::Asin),
        Function::Cos(_) => Some(FunctionName::Cos),
        Function::Exists(_) => Some(FunctionName::Exists),
        Function::Exp(_) => Some(FunctionName::Exp),
        Function::Fix(_) => Some(FunctionName::Fix),
        Function::Fup(_) => Some(FunctionName::Fup),
        Function::Ln(_) => Some(FunctionName::Ln),
        Function::Round(_) => Some(FunctionName::Round),
        Function::Sin(_) => Some(FunctionName::Sin),
        Function::Sqrt(_) => Some(FunctionName::Sqrt),
        Function::Tan(_) => Some(FunctionName::Tan),
        Function::Atan(..) => None,
    }
}

/// The model of a call names the function of the call's own variant: a `Function::Cos`
/// call is a call of `COS`.
pub proof fn lemma_call_model_name(f: Function)
    ensures
        function_model(f) matches TokenModel::Unary(n, _) ==> called_name(f) == Some(n),
        called_name(f) is None <==> f is Atan,
{
}

impl View for ExpressionToken {
    type V = TokenModel;

    open spec fn view(&self) -> TokenModel {
        token_model(*self)
    }
}

/// What an expression parser returned, compared with what its spec function describes.
pub open spec fn expr_parsed_as(r: Option<(Expression, usize)>, m: Option<(Seq<TokenModel>, int)>) -> bool {
    match m {
        Some((v, e)) => r matches Some((x, k)) && tokens_model(x@) == v && k == e,
        None => r is None,
    }
}

/// What a function-call parser returned, compared with what its spec function describes.
pub open spec fn call_parsed_as(r: Option<(Function, usize)>, m: Option<(TokenModel, int)>) -> bool {
    match m {
        Some((v, e)) => r matches Some((f, k)) && function_model(f) == v && k == e,
        None => r is None,
    }
}

proof fn lemma_tokens_model_len(ts: Seq<ExpressionToken>)
    ensures
        tokens_model(ts).len() == ts.len(),
    decreases ts.len(),
{
    if ts.len() > 0 {
        lemma_tokens_model_len(ts.drop_last());
    }
}

/// Parses an expression at `p` (see [`sp_expr`]).
pub fn parse_expr(i: &str, p: usize) -> (r: Option<(Expression, usize)>)
    requires
        p <= i.spec_bytes().len(),
    ensures
        expr_parsed_as(r, sp_expr(i.spec_bytes(), p as int)),
        r matches Some((_, e)) ==> p < e <= i.spec_bytes().len() && i.spec_bytes()[e - 1] < 0x80,
    decreases i.spec_bytes().len() - p, 0int,
{
    let s = i.as_bytes();
    let q0 = skip_ws(s, p);
    if !(q0 < s.len() && s[q0] == 0x5b) {
        return None;
    }
    let mut tokens: Vec<ExpressionToken> = Vec::new();
    let mut q = q0 + 1;
    loop
        invariant
            p < q <= s.len(),
            s@ == i.spec_bytes(),
            sp_expr(s@, p as int) == sp_expr_tokens(s@, q as int, tokens_model(tokens@)),
        decreases s.len() - q,
    {
        let r = skip_ws(s, q);
        proof {
            lemma_tokens_model_len(tokens@);
        }
        if r < s.len() && s[r] == 0x5d && tokens.len() > 0 {
            let e = skip_ws(s, r + 1);
            return Some((tokens, e));
        }
        match parse_expr_token(i, r) {
            Some((t, e)) => {
                let ghost old_tokens = tokens@;
                tokens.push(t);
                proof {
                    assert(tokens@.drop_last() =~= old_tokens);
                }
                q = e;
            },
            None => {
                return None;
            },
        }
    }
}

/// Parses one token at `p` (see [`sp_expr_token`]).
fn parse_expr_token(i: &str, p: usize) -> (r: Option<(ExpressionToken, usize)>)
    requires
        p <= i.spec_bytes().len(),
    ensures
        parsed_as(r, sp_expr_token(i.spec_bytes(), p as int)),
        r matches Some((_, e)) ==> p < e <= i.spec_bytes().len() && i.spec_bytes()[e - 1] < 0x80,
    decreases i.spec_bytes().len() - p, 3int,
{
    let s = i.as_bytes();
    if let Some((f, e)) = parse_call(i, p) {
        return Some((ExpressionToken::Function(f), e));
    }
    if let Some((d, e)) = parse_number(s, p, true) {
        return Some((ExpressionToken::Literal(d), e));
    }
    if let Some(o) = arith(s, p) {
        return Some((ExpressionToken::ArithmeticOperator(o), p + 1));
    }
    if let Some((m, e)) = parse_parameter(i, p) {
        return Some((ExpressionToken::Parameter(m), e));
    }
    if let Some((x, e)) = parse_expr(i, p) {
        return Some((ExpressionToken::Expression(x), e));
    }
    None
}

/// Parses a function call at `p` (see [`sp_call`]).
fn parse_call(i: &str, p: usize) -> (r: Option<(Function, usize)>)
    requires
        p <= i.spec_bytes().len(),
    ensures
        call_parsed_as(r, sp_call(i.spec_bytes(), p as int)),
        r matches Some((_, e)) ==> p < e <= i.spec_bytes().len() && i.spec_bytes()[e - 1] < 0x80,
    decreases i.spec_bytes().len() - p, 2int,
{
    let s = i.as_bytes();
    if tag_no_case(s, p, &[0x41, 0x54, 0x41, 0x4e]) {  // ATAN
        parse_atan_call(i, p)
    } else {
        parse_unary(i, p)
    }
}

fn parse_atan_call(i: &str, p: usize) -> (r: Option<(Function, usize)>)
    requires
        p <= i.spec_bytes().len(),
    ensures
        call_parsed_as(r, sp_atan_call(i.spec_bytes(), p as int)),
        r matches Some((_, e)) ==> p < e <= i.spec_bytes().len() && i.spec_bytes()[e - 1] < 0x80,
    decreases i.spec_bytes().len() - p, 1int,
{
    let s = i.as_bytes();
    if s.len() < 4 || p > s.len() - 4 {
        return None;
    }
    match parse_expr(i, p + 4) {
        Some((a, e1)) => {
            let q = skip_ws(s, e1);
            if q < s.len() && s[q] == 0x2f {
                match parse_expr(i, q + 1) {
                    Some((b, e2)) => Some((Function::Atan((a, b)), e2)),
                    None => None,
                }
            } else {
                None
            }
        },
        None => None,
    }
}

fn make_call(name: FunctionName, arg: Expression) -> (f: Function)
    ensures
        function_model(f) == TokenModel::Unary(name, tokens_model(arg@)),
{
    match name {
        FunctionName::Abs => Function::Abs(arg),
        FunctionName::Acos => Function::Acos(arg),
        FunctionName::Asin => Function::Asin(arg),
        FunctionName::Cos => Function::Cos(arg),
        FunctionName::Exp => Function::Exp(arg),
        FunctionName::Fix => Function::Fix(arg),
        FunctionName::Fup => Function::Fup(arg),
        FunctionName::Round => Function::Round(arg),
        FunctionName::Ln => Function::Ln(arg),
        FunctionName::Sin => Function::Sin(arg),
        FunctionName::Sqrt => Function::Sqrt(arg),
        FunctionName::Tan => Function::Tan(arg),
        FunctionName::Exists => Function::Exists(arg),
    }
}

fn parse_unary(i: &str, p: usize) -> (r: Option<(Function, usize)>)
    requires
        p <= i.spec_bytes().len(),
    ensures
        call_parsed_as(r, sp_unary(i.spec_bytes(), p as int)),
        r matches Some((_, e)) ==> p < e <= i.spec_bytes().len() && i.spec_bytes()[e - 1] < 0x80,
    decreases i.spec_bytes().len() - p, 1int,
{
    let s = i.as_bytes();
    match function_name(s, p) {
        Some((name, k)) => match parse_expr(i, p + k) {
            Some((a, e)) => Some((make_call(name, a), e)),
            None => None,
        },
        None => None,
    }
}

/// Parse an expression (`[1 + 2]`), with the whitespace around it
pub fn expression(i: &str) -> (r: ParseResult<Expression>)
    ensures
        match sp_expr(i.spec_bytes(), 0) {
            Some((m, e)) => r matches Ok((rest, x)) && tokens_model(x@) == m && rest.spec_bytes()
                == i.spec_bytes().subrange(e, i.spec_bytes().len() as int),
            None => r is Err,
        },
{
    match parse_expr(i, 0) {
        Some((x, e)) => Ok((rest_from(i, e), x)),
        None => Err(ParseError),
    }
}

} // verus!
