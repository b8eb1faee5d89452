//! Expressions in square brackets, such as `[#1 + 2 * SIN[30]]`.
//!
//! An expression is kept as the flat list of tokens it was written with; nested brackets and
//! function arguments are nested expressions.
use crate::text::{
    agree_from, lemma_space0_end, lemma_tag_bytes, lemma_space0_end_frame, lemma_tag_no_case_end,
    lemma_tag_frame, parsed_as, skip_space, space0_end, tag_no_case, tag_no_case_at,
};
use crate::value::{
    lemma_number_bounds, lemma_number_frame, lemma_parameter_bounds, lemma_parameter_frame,
    parse_number, parse_parameter, sp_number, sp_parameter, Decimal, DecimalModel, Parameter,
    ParameterModel,
};
use vstd::prelude::*;
use vstd::string::StringSliceAdditionalSpecFns;

verus! {

broadcast use vstd::seq::group_seq_axioms, vstd::array::group_array_axioms, lemma_tag_no_case_end;

/// An arithmetic operator
#[derive(Debug, Clone, Copy, PartialEq, Eq)]
pub enum ArithmeticOperator {
    /// `+`
    Add,
    /// `-`
    Sub,
    /// `*`
    Mul,
    /// `/`
    Div,
    /// `MOD`
    Mod,
    /// `**`
    Pow,
}

/// A comparison or logical operator
#[derive(Debug, Clone, Copy, PartialEq, Eq)]
pub enum BinaryOperator {
    /// `EQ`
    Equal,
    /// `NE`
    NotEqual,
    /// `GT`
    GreaterThan,
    /// `GE`
    GreaterThanOrEqual,
    /// `LT`
    LessThan,
    /// `LE`
    LessThanOrEqual,
    /// `AND`
    And,
    /// `OR`
    Or,
    /// `XOR`
    Xor,
}

/// The name of a function that takes one bracketed argument
#[derive(Debug, Clone, Copy, PartialEq, Eq)]
pub enum FunctionName {
    Abs,
    Acos,
    Asin,
    Cos,
    Exists,
    Exp,
    Fix,
    Fup,
    Ln,
    Round,
    Sin,
    Sqrt,
    Tan,
}

/// A function call inside an expression
#[derive(Debug, PartialEq)]
pub enum Function {
    /// `ABS[x]`
    Abs(Expression),
    /// `ACOS[x]`
    Acos(Expression),
    /// `ASIN[x]`
    Asin(Expression),
    /// `ATAN[y]/[x]`
    Atan(Expression, Expression),
    /// `COS[x]`
    Cos(Expression),
    /// `EXISTS[x]`
    Exists(Expression),
    /// `EXP[x]`
    Exp(Expression),
    /// `FIX[x]`
    Fix(Expression),
    /// `FUP[x]`
    Fup(Expression),
    /// `LN[x]`
    Ln(Expression),
    /// `ROUND[x]`
    Round(Expression),
    /// `SIN[x]`
    Sin(Expression),
    /// `SQRT[x]`
    Sqrt(Expression),
    /// `TAN[x]`
    Tan(Expression),
}

/// One token of an expression
#[derive(Debug, PartialEq)]
pub enum ExpressionToken {
    /// A literal number
    Literal(Decimal),
    /// An arithmetic operator
    ArithmeticOperator(ArithmeticOperator),
    /// A comparison or logical operator
    BinaryOperator(BinaryOperator),
    /// A parameter
    Parameter(Parameter),
    /// A function call
    Function(Function),
    /// A nested bracketed expression
    Expression(Expression),
}

/// A bracketed expression: the tokens between `[` and `]`
#[derive(Debug, PartialEq)]
pub struct Expression {
    /// The tokens in the order they were written
    pub tokens: Vec<ExpressionToken>,
}

impl Expression {
    /// An expression of one token
    pub fn single(t: ExpressionToken) -> (r: Expression)
        ensures
            r@ == seq![token_model(t)],
    {
        let mut tokens: Vec<ExpressionToken> = Vec::new();
        tokens.push(t);
        proof {
            assert(tokens@.drop_last() =~= Seq::<ExpressionToken>::empty());
            assert(tokens_model(Seq::<ExpressionToken>::empty()) =~= Seq::empty());
            assert(tokens_model(tokens@) =~= seq![token_model(t)]);
        }
        Expression { tokens }
    }

    /// An expression made of the given tokens
    pub fn from_tokens(tokens: Vec<ExpressionToken>) -> (r: Expression)
        ensures
            r.tokens == tokens,
    {
        Expression { tokens }
    }
}

/// The mathematical content of an expression token.
pub enum ExprTokenModel {
    Literal(DecimalModel),
    Arithmetic(ArithmeticOperator),
    Binary(BinaryOperator),
    Parameter(ParameterModel),
    Unary(FunctionName, Seq<ExprTokenModel>),
    Atan(Seq<ExprTokenModel>, Seq<ExprTokenModel>),
    Group(Seq<ExprTokenModel>),
}

pub open spec fn token_model(t: ExpressionToken) -> ExprTokenModel
    decreases t,
{
    match t {
        ExpressionToken::Literal(d) => ExprTokenModel::Literal(d@),
        ExpressionToken::ArithmeticOperator(o) => ExprTokenModel::Arithmetic(o),
        ExpressionToken::BinaryOperator(o) => ExprTokenModel::Binary(o),
        ExpressionToken::Parameter(p) => ExprTokenModel::Parameter(p@),
        ExpressionToken::Function(f) => function_model(f),
        ExpressionToken::Expression(e) => ExprTokenModel::Group(tokens_model(e.tokens@)),
    }
}

pub open spec fn function_model(f: Function) -> ExprTokenModel
    decreases f,
{
    match f {
        Function::Abs(e) => ExprTokenModel::Unary(FunctionName::Abs, tokens_model(e.tokens@)),
        Function::Acos(e) => ExprTokenModel::Unary(FunctionName::Acos, tokens_model(e.tokens@)),
        Function::Asin(e) => ExprTokenModel::Unary(FunctionName::Asin, tokens_model(e.tokens@)),
        Function::Atan(a, b) => ExprTokenModel::Atan(tokens_model(a.tokens@), tokens_model(b.tokens@)),
        Function::Cos(e) => ExprTokenModel::Unary(FunctionName::Cos, tokens_model(e.tokens@)),
        Function::Exists(e) => ExprTokenModel::Unary(FunctionName::Exists, tokens_model(e.tokens@)),
        Function::Exp(e) => ExprTokenModel::Unary(FunctionName::Exp, tokens_model(e.tokens@)),
        Function::Fix(e) => ExprTokenModel::Unary(FunctionName::Fix, tokens_model(e.tokens@)),
        Function::Fup(e) => ExprTokenModel::Unary(FunctionName::Fup, tokens_model(e.tokens@)),
        Function::Ln(e) => ExprTokenModel::Unary(FunctionName::Ln, tokens_model(e.tokens@)),
        Function::Round(e) => ExprTokenModel::Unary(FunctionName::Round, tokens_model(e.tokens@)),
        Function::Sin(e) => ExprTokenModel::Unary(FunctionName::Sin, tokens_model(e.tokens@)),
        Function::Sqrt(e) => ExprTokenModel::Unary(FunctionName::Sqrt, tokens_model(e.tokens@)),
        Function::Tan(e) => ExprTokenModel::Unary(FunctionName::Tan, tokens_model(e.tokens@)),
    }
}

pub open spec fn tokens_model(ts: Seq<ExpressionToken>) -> Seq<ExprTokenModel>
    decreases ts,
{
    if ts.len() == 0 {
        Seq::empty()
    } else {
        tokens_model(ts.drop_last()).push(token_model(ts.last()))
    }
}

impl View for Expression {
    type V = Seq<ExprTokenModel>;

    open spec fn view(&self) -> Seq<ExprTokenModel> {
        tokens_model(self.tokens@)
    }
}

impl View for ExpressionToken {
    type V = ExprTokenModel;

    open spec fn view(&self) -> ExprTokenModel {
        token_model(*self)
    }
}

/// The name of a one-argument function written at `p` (any case), and its length.
pub open spec fn function_name_at(s: Seq<u8>, p: int) -> Option<(FunctionName, int)> {
    if tag_no_case_at(s, p, seq![0x41, 0x42, 0x53]) {  // ABS
        Some((FunctionName::Abs, 3))
    } else if tag_no_case_at(s, p, seq![0x41, 0x43, 0x4f, 0x53]) {  // ACOS
        Some((FunctionName::Acos, 4))
    } else if tag_no_case_at(s, p, seq![0x41, 0x53, 0x49, 0x4e]) {  // ASIN
        Some((FunctionName::Asin, 4))
    } else if tag_no_case_at(s, p, seq![0x43, 0x4f, 0x53]) {  // COS
        Some((FunctionName::Cos, 3))
    } else if tag_no_case_at(s, p, seq![0x45, 0x58, 0x50]) {  // EXP
        Some((FunctionName::Exp, 3))
    } else if tag_no_case_at(s, p, seq![0x46, 0x49, 0x58]) {  // FIX
        Some((FunctionName::Fix, 3))
    } else if tag_no_case_at(s, p, seq![0x46, 0x55, 0x50]) {  // FUP
        Some((FunctionName::Fup, 3))
    } else if tag_no_case_at(s, p, seq![0x52, 0x4f, 0x55, 0x4e, 0x44]) {  // ROUND
        Some((FunctionName::Round, 5))
    } else if tag_no_case_at(s, p, seq![0x4c, 0x4e]) {  // LN
        Some((FunctionName::Ln, 2))
    } else if tag_no_case_at(s, p, seq![0x53, 0x49, 0x4e]) {  // SIN
        Some((FunctionName::Sin, 3))
    } else if tag_no_case_at(s, p, seq![0x53, 0x51, 0x52, 0x54]) {  // SQRT
        Some((FunctionName::Sqrt, 4))
    } else if tag_no_case_at(s, p, seq![0x54, 0x41, 0x4e]) {  // TAN
        Some((FunctionName::Tan, 3))
    } else if tag_no_case_at(s, p, seq![0x45, 0x58, 0x49, 0x53, 0x54, 0x53]) {  // EXISTS
        Some((FunctionName::Exists, 6))
    } else {
        None
    }
}

pub(crate) fn function_name(s: &[u8], p: usize) -> (r: Option<(FunctionName, usize)>)
    ensures
        match function_name_at(s@, p as int) {
            Some((n, k)) => r matches Some((n2, k2)) && n2 == n && k2 == k && 2 <= k <= 6,
            None => r is None,
        },
        r matches Some((_, k)) ==> p + k <= s.len() && s@[p + k - 1] < 0x80,
{
    if tag_no_case(s, p, &[0x41, 0x42, 0x53]) {  // ABS
        Some((FunctionName::Abs, 3))
    } else if tag_no_case(s, p, &[0x41, 0x43, 0x4f, 0x53]) {  // ACOS
        Some((FunctionName::Acos, 4))
    } else if tag_no_case(s, p, &[0x41, 0x53, 0x49, 0x4e]) {  // ASIN
        Some((FunctionName::Asin, 4))
    } else if tag_no_case(s, p, &[0x43, 0x4f, 0x53]) {  // COS
        Some((FunctionName::Cos, 3))
    } else if tag_no_case(s, p, &[0x45, 0x58, 0x50]) {  // EXP
        Some((FunctionName::Exp, 3))
    } else if tag_no_case(s, p, &[0x46, 0x49, 0x58]) {  // FIX
        Some((FunctionName::Fix, 3))
    } else if tag_no_case(s, p, &[0x46, 0x55, 0x50]) {  // FUP
        Some((FunctionName::Fup, 3))
    } else if tag_no_case(s, p, &[0x52, 0x4f, 0x55, 0x4e, 0x44]) {  // ROUND
        Some((FunctionName::Round, 5))
    } else if tag_no_case(s, p, &[0x4c, 0x4e]) {  // LN
        Some((FunctionName::Ln, 2))
    } else if tag_no_case(s, p, &[0x53, 0x49, 0x4e]) {  // SIN
        Some((FunctionName::Sin, 3))
    } else if tag_no_case(s, p, &[0x53, 0x51, 0x52, 0x54]) {  // SQRT
        Some((FunctionName::Sqrt, 4))
    } else if tag_no_case(s, p, &[0x54, 0x41, 0x4e]) {  // TAN
        Some((FunctionName::Tan, 3))
    } else if tag_no_case(s, p, &[0x45, 0x58, 0x49, 0x53, 0x54, 0x53]) {  // EXISTS
        Some((FunctionName::Exists, 6))
    } else {
        None
    }
}

/// The name of the function a call calls, by the call's variant; `ATAN` has two
/// arguments and no name of this kind.
pub open spec fn called_name(f: Function) -> Option<FunctionName> {
    match f {
        Function::Abs(_) => Some(FunctionName::Abs),
        Function::Acos(_) => Some(FunctionName::Acos),
        Function::Asin(_) => Some(FunctionName::Asin),
        Function::Cos(_) => Some(FunctionName::Cos),
        Function::Exists(_) => Some(FunctionName::Exists),
        Function::Exp(_) => Some(FunctionName::Exp),
        Function::Fix(_) => Some(FunctionName::Fix),
        Function::Fup(_) => Some(FunctionName::Fup),
        Function::Ln(_) => Some(FunctionName::Ln),
        Function::Round(_) => Some(FunctionName::Round),
        Function::Sin(_) => Some(FunctionName::Sin),
        Function::Sqrt(_) => Some(FunctionName::Sqrt),
        Function::Tan(_) => Some(FunctionName::Tan),
        Function::Atan(..) => None,
    }
}

/// The model of a call names the function of the call's own variant: a `Function::Cos`
/// call is a call of `COS`.
pub proof fn lemma_call_model_name(f: Function)
    ensures
        function_model(f) matches ExprTokenModel::Unary(n, _) ==> called_name(f) == Some(n),
        called_name(f) is None <==> f is Atan,
{
}

fn make_function(name: FunctionName, arg: Expression) -> (f: Function)
    ensures
        function_model(f) == ExprTokenModel::Unary(name, arg@),
{
    match name {
        FunctionName::Abs => Function::Abs(arg),
        FunctionName::Acos => Function::Acos(arg),
        FunctionName::Asin => Function::Asin(arg),
        FunctionName::Cos => Function::Cos(arg),
        FunctionName::Exp => Function::Exp(arg),
        FunctionName::Fix => Function::Fix(arg),
        FunctionName::Fup => Function::Fup(arg),
        FunctionName::Round => Function::Round(arg),
        FunctionName::Ln => Function::Ln(arg),
        FunctionName::Sin => Function::Sin(arg),
        FunctionName::Sqrt => Function::Sqrt(arg),
        FunctionName::Tan => Function::Tan(arg),
        FunctionName::Exists => Function::Exists(arg),
    }
}

/// A comparison or logical operator word at `p` (any case), and its length.
pub open spec fn binary_op_at(s: Seq<u8>, p: int) -> Option<(BinaryOperator, int)> {
    if tag_no_case_at(s, p, seq![0x45, 0x51]) {  // EQ
        Some((BinaryOperator::Equal, 2))
    } else if tag_no_case_at(s, p, seq![0x4e, 0x45]) {  // NE
        Some((BinaryOperator::NotEqual, 2))
    } else if tag_no_case_at(s, p, seq![0x47, 0x54]) {  // GT
        Some((BinaryOperator::GreaterThan, 2))
    } else if tag_no_case_at(s, p, seq![0x47, 0x45]) {  // GE
        Some((BinaryOperator::GreaterThanOrEqual, 2))
    } else if tag_no_case_at(s, p, seq![0x4c, 0x54]) {  // LT
        Some((BinaryOperator::LessThan, 2))
    } else if tag_no_case_at(s, p, seq![0x4c, 0x45]) {  // LE
        Some((BinaryOperator::LessThanOrEqual, 2))
    } else if tag_no_case_at(s, p, seq![0x41, 0x4e, 0x44]) {  // AND
        Some((BinaryOperator::And, 3))
    } else if tag_no_case_at(s, p, seq![0x4f, 0x52]) {  // OR
        Some((BinaryOperator::Or, 2))
    } else if tag_no_case_at(s, p, seq![0x58, 0x4f, 0x52]) {  // XOR
        Some((BinaryOperator::Xor, 3))
    } else {
        None
    }
}

fn binary_op(s: &[u8], p: usize) -> (r: Option<(BinaryOperator, usize)>)
    ensures
        match binary_op_at(s@, p as int) {
            Some((o, k)) => r matches Some((o2, k2)) && o2 == o && k2 == k && 2 <= k <= 3,
            None => r is None,
        },
        r matches Some((_, k)) ==> p + k <= s.len() && s@[p + k - 1] < 0x80,
{
    if tag_no_case(s, p, &[0x45, 0x51]) {  // EQ
        Some((BinaryOperator::Equal, 2))
    } else if tag_no_case(s, p, &[0x4e, 0x45]) {  // NE
        Some((BinaryOperator::NotEqual, 2))
    } else if tag_no_case(s, p, &[0x47, 0x54]) {  // GT
        Some((BinaryOperator::GreaterThan, 2))
    } else if tag_no_case(s, p, &[0x47, 0x45]) {  // GE
        Some((BinaryOperator::GreaterThanOrEqual, 2))
    } else if tag_no_case(s, p, &[0x4c, 0x54]) {  // LT
        Some((BinaryOperator::LessThan, 2))
    } else if tag_no_case(s, p, &[0x4c, 0x45]) {  // LE
        Some((BinaryOperator::LessThanOrEqual, 2))
    } else if tag_no_case(s, p, &[0x41, 0x4e, 0x44]) {  // AND
        Some((BinaryOperator::And, 3))
    } else if tag_no_case(s, p, &[0x4f, 0x52]) {  // OR
        Some((BinaryOperator::Or, 2))
    } else if tag_no_case(s, p, &[0x58, 0x4f, 0x52]) {  // XOR
        Some((BinaryOperator::Xor, 3))
    } else {
        None
    }
}

/// An arithmetic operator at `p`, and its length (`MOD` in any case).
pub open spec fn arith_op_at(s: Seq<u8>, p: int) -> Option<(ArithmeticOperator, int)> {
    if tag_no_case_at(s, p, seq![0x2a, 0x2a]) {  // **
        Some((ArithmeticOperator::Pow, 2))
    } else if tag_no_case_at(s, p, seq![0x2a]) {  // *
        Some((ArithmeticOperator::Mul, 1))
    } else if tag_no_case_at(s, p, seq![0x2f]) {  // /
        Some((ArithmeticOperator::Div, 1))
    } else if tag_no_case_at(s, p, seq![0x2b]) {  // +
        Some((ArithmeticOperator::Add, 1))
    } else if tag_no_case_at(s, p, seq![0x2d]) {  // -
        Some((ArithmeticOperator::Sub, 1))
    } else if tag_no_case_at(s, p, seq![0x4d, 0x4f, 0x44]) {  // MOD
        Some((ArithmeticOperator::Mod, 3))
    } else {
        None
    }
}

fn arith_op(s: &[u8], p: usize) -> (r: Option<(ArithmeticOperator, usize)>)
    ensures
        match arith_op_at(s@, p as int) {
            Some((o, k)) => r matches Some((o2, k2)) && o2 == o && k2 == k && 1 <= k <= 3,
            None => r is None,
        },
        r matches Some((_, k)) ==> p + k <= s.len() && s@[p + k - 1] < 0x80,
{
    if tag_no_case(s, p, &[0x2a, 0x2a]) {  // **
        Some((ArithmeticOperator::Pow, 2))
    } else if tag_no_case(s, p, &[0x2a]) {  // *
        Some((ArithmeticOperator::Mul, 1))
    } else if tag_no_case(s, p, &[0x2f]) {  // /
        Some((ArithmeticOperator::Div, 1))
    } else if tag_no_case(s, p, &[0x2b]) {  // +
        Some((ArithmeticOperator::Add, 1))
    } else if tag_no_case(s, p, &[0x2d]) {  // -
        Some((ArithmeticOperator::Sub, 1))
    } else if tag_no_case(s, p, &[0x4d, 0x4f, 0x44]) {  // MOD
        Some((ArithmeticOperator::Mod, 3))
    } else {
        None
    }
}

/// The upper-case spelling of a function name.
pub open spec fn function_spelling(n: FunctionName) -> Seq<u8> {
    match n {
        FunctionName::Abs => seq![0x41u8, 0x42, 0x53],
        FunctionName::Acos => seq![0x41u8, 0x43, 0x4f, 0x53],
        FunctionName::Asin => seq![0x41u8, 0x53, 0x49, 0x4e],
        FunctionName::Cos => seq![0x43u8, 0x4f, 0x53],
        FunctionName::Exists => seq![0x45u8, 0x58, 0x49, 0x53, 0x54, 0x53],
        FunctionName::Exp => seq![0x45u8, 0x58, 0x50],
        FunctionName::Fix => seq![0x46u8, 0x49, 0x58],
        FunctionName::Fup => seq![0x46u8, 0x55, 0x50],
        FunctionName::Ln => seq![0x4cu8, 0x4e],
        FunctionName::Round => seq![0x52u8, 0x4f, 0x55, 0x4e, 0x44],
        FunctionName::Sin => seq![0x53u8, 0x49, 0x4e],
        FunctionName::Sqrt => seq![0x53u8, 0x51, 0x52, 0x54],
        FunctionName::Tan => seq![0x54u8, 0x41, 0x4e],
    }
}

/// The upper-case spelling of a comparison or logical operator.
pub open spec fn binary_op_spelling(o: BinaryOperator) -> Seq<u8> {
    match o {
        BinaryOperator::Equal => seq![0x45u8, 0x51],
        BinaryOperator::NotEqual => seq![0x4eu8, 0x45],
        BinaryOperator::GreaterThan => seq![0x47u8, 0x54],
        BinaryOperator::GreaterThanOrEqual => seq![0x47u8, 0x45],
        BinaryOperator::LessThan => seq![0x4cu8, 0x54],
        BinaryOperator::LessThanOrEqual => seq![0x4cu8, 0x45],
        BinaryOperator::And => seq![0x41u8, 0x4e, 0x44],
        BinaryOperator::Or => seq![0x4fu8, 0x52],
        BinaryOperator::Xor => seq![0x58u8, 0x4f, 0x52],
    }
}

/// The spelling of an arithmetic operator (`MOD` in upper case).
pub open spec fn arith_op_spelling(o: ArithmeticOperator) -> Seq<u8> {
    match o {
        ArithmeticOperator::Add => seq![0x2bu8],
        ArithmeticOperator::Sub => seq![0x2du8],
        ArithmeticOperator::Mul => seq![0x2au8],
        ArithmeticOperator::Div => seq![0x2fu8],
        ArithmeticOperator::Mod => seq![0x4du8, 0x4f, 0x44],
        ArithmeticOperator::Pow => seq![0x2au8, 0x2a],
    }
}

/// A function name is read where its spelling is written, in any case: the name read at
/// `p` is the one whose spelling stands there, as long as that spelling; and wherever the
/// spelling of `n` stands, `n` is read.
pub proof fn lemma_function_name_spelling(s: Seq<u8>, p: int, n: FunctionName)
    ensures
        function_name_at(s, p) matches Some((m, k)) ==> tag_no_case_at(s, p, function_spelling(m))
            && k == function_spelling(m).len(),
        tag_no_case_at(s, p, function_spelling(n)) ==> function_name_at(s, p) == Some(
            (n, function_spelling(n).len() as int),
        ),
{
    lemma_tag_bytes(s, p, function_spelling(n));
}

/// An operator word is read where its spelling is written, in any case: the operator read
/// at `p` is the one whose spelling stands there, as long as that spelling; and wherever
/// the spelling of `o` stands, `o` is read.
pub proof fn lemma_binary_op_spelling(s: Seq<u8>, p: int, o: BinaryOperator)
    ensures
        binary_op_at(s, p) matches Some((m, k)) ==> tag_no_case_at(s, p, binary_op_spelling(m))
            && k == binary_op_spelling(m).len(),
        tag_no_case_at(s, p, binary_op_spelling(o)) ==> binary_op_at(s, p) == Some(
            (o, binary_op_spelling(o).len() as int),
        ),
{
    lemma_tag_bytes(s, p, binary_op_spelling(BinaryOperator::Equal));
    lemma_tag_bytes(s, p, binary_op_spelling(BinaryOperator::NotEqual));
    lemma_tag_bytes(s, p, binary_op_spelling(BinaryOperator::GreaterThan));
    lemma_tag_bytes(s, p, binary_op_spelling(BinaryOperator::GreaterThanOrEqual));
    lemma_tag_bytes(s, p, binary_op_spelling(BinaryOperator::LessThan));
    lemma_tag_bytes(s, p, binary_op_spelling(BinaryOperator::LessThanOrEqual));
    lemma_tag_bytes(s, p, binary_op_spelling(BinaryOperator::And));
    lemma_tag_bytes(s, p, binary_op_spelling(BinaryOperator::Or));
    lemma_tag_bytes(s, p, binary_op_spelling(BinaryOperator::Xor));
}

/// An arithmetic operator is read where its spelling is written: the operator read at `p`
/// is the one whose spelling stands there, as long as that spelling; wherever the spelling
/// of `o` stands, `o` is read, except that `**` is a power and not a product.
pub proof fn lemma_arith_op_spelling(s: Seq<u8>, p: int, o: ArithmeticOperator)
    ensures
        arith_op_at(s, p) matches Some((m, k)) ==> tag_no_case_at(s, p, arith_op_spelling(m))
            && k == arith_op_spelling(m).len(),
        tag_no_case_at(s, p, arith_op_spelling(o)) && !(o == ArithmeticOperator::Mul
            && tag_no_case_at(s, p, arith_op_spelling(ArithmeticOperator::Pow))) ==> arith_op_at(
            s,
            p,
        ) == Some((o, arith_op_spelling(o).len() as int)),
{
    lemma_tag_bytes(s, p, arith_op_spelling(ArithmeticOperator::Add));
    lemma_tag_bytes(s, p, arith_op_spelling(ArithmeticOperator::Sub));
    lemma_tag_bytes(s, p, arith_op_spelling(ArithmeticOperator::Mul));
    lemma_tag_bytes(s, p, arith_op_spelling(ArithmeticOperator::Div));
    lemma_tag_bytes(s, p, arith_op_spelling(ArithmeticOperator::Mod));
    lemma_tag_bytes(s, p, arith_op_spelling(ArithmeticOperator::Pow));
}

/// A call of a one-argument function is a call of the function whose name is written at
/// its start.
pub proof fn lemma_unary_call_name(s: Seq<u8>, p: int)
    ensures
        sp_unary_call(s, p) matches Some((ExprTokenModel::Unary(n, _), _)) ==> tag_no_case_at(
            s,
            p,
            function_spelling(n),
        ),
{
    lemma_function_name_spelling(s, p, FunctionName::Abs);
}

/// A bracketed expression at `p`: `[`, one or more tokens separated by optional spaces,
/// then `]`.
pub open spec fn sp_expression(s: Seq<u8>, p: int) -> Option<(Seq<ExprTokenModel>, int)>
    decreases s.len() - p, 0int,
{
    if 0 <= p < s.len() && s[p] == 0x5b {  // '['
        sp_tokens(s, p + 1, Seq::empty())
    } else {
        None
    }
}

/// The tokens of an expression from `q` on, after the tokens `acc` already read, up to
/// the closing `]`.
///
/// (The bounds tested before each step always hold; they keep the definition well-founded.)
pub open spec fn sp_tokens(s: Seq<u8>, q: int, acc: Seq<ExprTokenModel>) -> Option<
    (Seq<ExprTokenModel>, int),
>
    decreases s.len() - q, 4int,
{
    let r = space0_end(s, q);
    if 0 <= r < s.len() && s[r] == 0x5d && acc.len() > 0 {  // ']'
        Some((acc, r + 1))
    } else if q <= r <= s.len() {
        match sp_token(s, r) {
            Some((t, e)) => if r < e <= s.len() {
                sp_tokens(s, e, acc.push(t))
            } else {
                None
            },
            None => None,
        }
    } else {
        None
    }
}

/// A token that contains no expression: a number, an operator word, an arithmetic
/// operator or a parameter, tried in this order.
pub open spec fn sp_atom(s: Seq<u8>, p: int) -> Option<(ExprTokenModel, int)> {
    match sp_number(s, p, true) {
        Some((d, e)) => Some((ExprTokenModel::Literal(d), e)),
        None => match binary_op_at(s, p) {
            Some((o, k)) => Some((ExprTokenModel::Binary(o), p + k)),
            None => match arith_op_at(s, p) {
                Some((o, k)) => Some((ExprTokenModel::Arithmetic(o), p + k)),
                None => match sp_parameter(s, p) {
                    Some((m, e)) => Some((ExprTokenModel::Parameter(m), e)),
                    None => None,
                },
            },
        },
    }
}

/// One expression token at `p`: a function call, else an atom, else a nested expression.
pub open spec fn sp_token(s: Seq<u8>, p: int) -> Option<(ExprTokenModel, int)>
    decreases s.len() - p, 3int,
{
    match sp_function(s, p) {
        Some(f) => Some(f),
        None => match sp_atom(s, p) {
            Some(a) => Some(a),
            None => match sp_expression(s, p) {
                Some((x, e)) => Some((ExprTokenModel::Group(x), e)),
                None => None,
            },
        },
    }
}

/// A function call at `p`: `ATAN[y]/[x]`, or a function name and a bracketed argument.
pub open spec fn sp_function(s: Seq<u8>, p: int) -> Option<(ExprTokenModel, int)>
    decreases s.len() - p, 2int,
{
    if tag_no_case_at(s, p, seq![0x41, 0x54, 0x41, 0x4e]) {  // ATAN
        sp_atan(s, p)
    } else {
        sp_unary_call(s, p)
    }
}

/// `ATAN`, optional spaces, an expression, optional spaces, `/`, optional spaces and
/// another expression.
pub open spec fn sp_atan(s: Seq<u8>, p: int) -> Option<(ExprTokenModel, int)>
    decreases s.len() - p, 1int,
{
    let a0 = space0_end(s, p + 4);
    if p < a0 <= s.len() {
        match sp_expression(s, a0) {
            Some((a, e1)) => {
                let q = space0_end(s, e1);
                if p < q < s.len() && s[q] == 0x2f {  // '/'
                    let b0 = space0_end(s, q + 1);
                    if p < b0 <= s.len() {
                        match sp_expression(s, b0) {
                            Some((b, e2)) => Some((ExprTokenModel::Atan(a, b), e2)),
                            None => None,
                        }
                    } else {
                        None
                    }
                } else {
                    None
                }
            },
            None => None,
        }
    } else {
        None
    }
}

/// A one-argument function name, optional spaces and a bracketed argument.
pub open spec fn sp_unary_call(s: Seq<u8>, p: int) -> Option<(ExprTokenModel, int)>
    decreases s.len() - p, 1int,
{
    match function_name_at(s, p) {
        Some((name, k)) => {
            let a0 = space0_end(s, p + k);
            if p < a0 <= s.len() {
                match sp_expression(s, a0) {
                    Some((a, e)) => Some((ExprTokenModel::Unary(name, a), e)),
                    None => None,
                }
            } else {
                None
            }
        },
        None => None,
    }
}

/// Parses a bracketed expression at `p` (see [`sp_expression`]).
pub fn parse_expression(i: &str, p: usize) -> (r: Option<(Expression, usize)>)
    requires
        p <= i.spec_bytes().len(),
    ensures
        parsed_as(r, sp_expression(i.spec_bytes(), p as int)),
        r matches Some((_, e)) ==> p < e <= i.spec_bytes().len() && i.spec_bytes()[e - 1] < 0x80,
    decreases i.spec_bytes().len() - p, 0int,
{
    let s = i.as_bytes();
    if !(p < s.len() && s[p] == 0x5b) {
        return None;
    }
    let mut tokens: Vec<ExpressionToken> = Vec::new();
    let mut q = p + 1;
    loop
        invariant
            p < q <= s.len(),
            s@ == i.spec_bytes(),
            sp_expression(s@, p as int) == sp_tokens(s@, q as int, tokens_model(tokens@)),
        decreases s.len() - q,
    {
        let r = skip_space(s, q);
        proof {
            lemma_tokens_model_len(tokens@);
        }
        if r < s.len() && s[r] == 0x5d && tokens.len() > 0 {
            return Some((Expression { tokens }, r + 1));
        }
        match parse_token(i, r) {
            Some((t, e)) => {
                let ghost old_tokens = tokens@;
                tokens.push(t);
                proof {
                    assert(tokens@.drop_last() =~= old_tokens);
                }
                q = e;
            },
            None => {
                return None;
            },
        }
    }
}

proof fn lemma_tokens_model_len(ts: Seq<ExpressionToken>)
    ensures
        tokens_model(ts).len() == ts.len(),
    decreases ts.len(),
{
    if ts.len() > 0 {
        lemma_tokens_model_len(ts.drop_last());
    }
}

/// Parses a token that holds no expression (see [`sp_atom`]).
fn parse_atom(i: &str, p: usize) -> (r: Option<(ExpressionToken, usize)>)
    requires
        p <= i.spec_bytes().len(),
    ensures
        parsed_as(r, sp_atom(i.spec_bytes(), p as int)),
        r matches Some((_, e)) ==> p < e <= i.spec_bytes().len() && i.spec_bytes()[e - 1] < 0x80,
{
    let s = i.as_bytes();
    if let Some((d, e)) = parse_number(s, p, true) {
        return Some((ExpressionToken::Literal(d), e));
    }
    if let Some((o, k)) = binary_op(s, p) {
        return Some((ExpressionToken::BinaryOperator(o), p + k));
    }
    if let Some((o, k)) = arith_op(s, p) {
        return Some((ExpressionToken::ArithmeticOperator(o), p + k));
    }
    if let Some((m, e)) = parse_parameter(i, p) {
        return Some((ExpressionToken::Parameter(m), e));
    }
    None
}

/// Parses one expression token at `p` (see [`sp_token`]).
fn parse_token(i: &str, p: usize) -> (r: Option<(ExpressionToken, usize)>)
    requires
        p <= i.spec_bytes().len(),
    ensures
        parsed_as(r, sp_token(i.spec_bytes(), p as int)),
        r matches Some((_, e)) ==> p < e <= i.spec_bytes().len() && i.spec_bytes()[e - 1] < 0x80,
    decreases i.spec_bytes().len() - p, 3int,
{
    if let Some((f, e)) = parse_function(i, p) {
        return Some((ExpressionToken::Function(f), e));
    }
    if let Some(a) = parse_atom(i, p) {
        return Some(a);
    }
    if let Some((x, e)) = parse_expression(i, p) {
        return Some((ExpressionToken::Expression(x), e));
    }
    None
}

/// What a function parser returned, compared with what its spec function describes.
pub open spec fn function_parsed_as(r: Option<(Function, usize)>, m: Option<(ExprTokenModel, int)>) -> bool {
    match m {
        Some((v, e)) => r matches Some((f, k)) && function_model(f) == v && k == e,
        None => r is None,
    }
}

/// Parses a function call at `p` (see [`sp_function`]).
pub fn parse_function(i: &str, p: usize) -> (r: Option<(Function, usize)>)
    requires
        p <= i.spec_bytes().len(),
    ensures
        function_parsed_as(r, sp_function(i.spec_bytes(), p as int)),
        r matches Some((_, e)) ==> p < e <= i.spec_bytes().len() && i.spec_bytes()[e - 1] < 0x80,
    decreases i.spec_bytes().len() - p, 2int,
{
    let s = i.as_bytes();
    if tag_no_case(s, p, &[0x41, 0x54, 0x41, 0x4e]) {  // ATAN
        parse_atan(i, p)
    } else {
        parse_unary_call(i, p)
    }
}

fn parse_atan(i: &str, p: usize) -> (r: Option<(Function, usize)>)
    requires
        p + 4 <= i.spec_bytes().len(),
    ensures
        function_parsed_as(r, sp_atan(i.spec_bytes(), p as int)),
        r matches Some((_, e)) ==> p < e <= i.spec_bytes().len() && i.spec_bytes()[e - 1] < 0x80,
    decreases i.spec_bytes().len() - p, 1int,
{
    let s = i.as_bytes();
    assert(s@.len() == s.len());
    let a0 = skip_space(s, p + 4);
    match parse_expression(i, a0) {
        Some((a, e1)) => {
            let q = skip_space(s, e1);
            if q < s.len() && s[q] == 0x2f {
                let b0 = skip_space(s, q + 1);
                match parse_expression(i, b0) {
                    Some((b, e2)) => Some((Function::Atan(a, b), e2)),
                    None => None,
                }
            } else {
                None
            }
        },
        None => None,
    }
}

#[verifier::rlimit(40)]
fn parse_unary_call(i: &str, p: usize) -> (r: Option<(Function, usize)>)
    requires
        p <= i.spec_bytes().len(),
    ensures
        function_parsed_as(r, sp_unary_call(i.spec_bytes(), p as int)),
        r matches Some((_, e)) ==> p < e <= i.spec_bytes().len() && i.spec_bytes()[e - 1] < 0x80,
    decreases i.spec_bytes().len() - p, 1int,
{
    let s = i.as_bytes();
    match function_name(s, p) {
        Some((name, k)) => {
            let a0 = skip_space(s, p + k);
            match parse_expression(i, a0) {
                Some((a, e)) => Some((make_function(name, a), e)),
                None => None,
            }
        },
        None => None,
    }
}

/// An expression, when there is one, ends after its start and within the text.
pub proof fn lemma_expression_bounds(s: Seq<u8>, p: int)
    requires
        0 <= p <= s.len(),
    ensures
        sp_expression(s, p) matches Some((_, e)) ==> p < e <= s.len(),
    decreases s.len() - p, 0int,
{
    if p < s.len() && s[p] == 0x5b {
        lemma_tokens_bounds(s, p + 1, Seq::empty());
    }
}

proof fn lemma_tokens_bounds(s: Seq<u8>, r: int, acc: Seq<ExprTokenModel>)
    requires
        0 <= r <= s.len(),
    ensures
        sp_tokens(s, r, acc) matches Some((_, e)) ==> r < e <= s.len(),
    decreases s.len() - r, 4int,
{
    lemma_space0_end(s, r);
    let r2 = space0_end(s, r);
    lemma_token_bounds(s, r2);
    if let Some((tk, e)) = sp_token(s, r2) {
        if r2 < e <= s.len() {
            lemma_tokens_bounds(s, e, acc.push(tk));
        }
    }
}

proof fn lemma_token_bounds(s: Seq<u8>, p: int)
    requires
        0 <= p <= s.len(),
    ensures
        sp_token(s, p) matches Some((_, e)) ==> p < e <= s.len(),
    decreases s.len() - p, 3int,
{
    lemma_function_bounds(s, p);
    lemma_atom_bounds(s, p);
    lemma_expression_bounds(s, p);
}

proof fn lemma_atom_bounds(s: Seq<u8>, p: int)
    requires
        0 <= p <= s.len(),
    ensures
        sp_atom(s, p) matches Some((_, e)) ==> p < e <= s.len(),
{
    lemma_number_bounds(s, p, true);
    lemma_parameter_bounds(s, p);
    if let Some((o, k)) = binary_op_at(s, p) {
        assert(2 <= k <= 3 && p + k <= s.len());
    }
    if let Some((o, k)) = arith_op_at(s, p) {
        assert(1 <= k <= 3 && p + k <= s.len());
    }
}

proof fn lemma_function_bounds(s: Seq<u8>, p: int)
    requires
        0 <= p <= s.len(),
    ensures
        sp_function(s, p) matches Some((_, e)) ==> p < e <= s.len(),
    decreases s.len() - p, 2int,
{
    if tag_no_case_at(s, p, seq![0x41, 0x54, 0x41, 0x4e]) {
        lemma_atan_bounds(s, p);
    } else {
        lemma_unary_call_bounds(s, p);
    }
}

proof fn lemma_atan_bounds(s: Seq<u8>, p: int)
    requires
        0 <= p <= s.len(),
    ensures
        sp_atan(s, p) matches Some((_, e)) ==> p < e <= s.len(),
    decreases s.len() - p, 1int,
{
    if p + 4 <= s.len() {
        lemma_space0_end(s, p + 4);
    }
    let a0 = space0_end(s, p + 4);
    if p < a0 <= s.len() {
        lemma_expression_bounds(s, a0);
        if let Some((a, e1)) = sp_expression(s, a0) {
            lemma_space0_end(s, e1);
            let q2 = space0_end(s, e1);
            if p < q2 < s.len() {
                lemma_space0_end(s, q2 + 1);
                let b0 = space0_end(s, q2 + 1);
                if p < b0 <= s.len() {
                    lemma_expression_bounds(s, b0);
                }
            }
        }
    }
}

proof fn lemma_unary_call_bounds(s: Seq<u8>, p: int)
    requires
        0 <= p <= s.len(),
    ensures
        sp_unary_call(s, p) matches Some((_, e)) ==> p < e <= s.len(),
    decreases s.len() - p, 1int,
{
    if let Some((name, k)) = function_name_at(s, p) {
        let a0 = space0_end(s, p + k);
        if p < a0 <= s.len() {
            lemma_expression_bounds(s, a0);
        }
    }
}

/// An expression is read from the bytes at and after its start only: two texts that agree
/// from `q <= p` on read the same expression at `p`.
pub proof fn lemma_expression_frame(s: Seq<u8>, t: Seq<u8>, q: int, p: int)
    requires
        agree_from(s, t, q),
        0 <= q <= p <= s.len(),
    ensures
        sp_expression(s, p) == sp_expression(t, p),
    decreases s.len() - p, 0int,
{
    if p < s.len() {
        assert(s[p] == t[p]);
        if s[p] == 0x5b {
            lemma_tokens_frame(s, t, q, p + 1, Seq::empty());
        }
    }
}

proof fn lemma_tokens_frame(s: Seq<u8>, t: Seq<u8>, q: int, r: int, acc: Seq<ExprTokenModel>)
    requires
        agree_from(s, t, q),
        0 <= q <= r <= s.len(),
    ensures
        sp_tokens(s, r, acc) == sp_tokens(t, r, acc),
    decreases s.len() - r, 4int,
{
    lemma_space0_end_frame(s, t, q, r);
    lemma_space0_end(s, r);
    let r2 = space0_end(s, r);
    if r2 < s.len() {
        assert(s[r2] == t[r2]);
    }
    lemma_token_frame(s, t, q, r2);
    if let Some((tk, e)) = sp_token(s, r2) {
        if r2 < e <= s.len() {
            lemma_tokens_frame(s, t, q, e, acc.push(tk));
        }
    }
}

proof fn lemma_function_names_frame(s: Seq<u8>, t: Seq<u8>, q: int, p: int)
    requires
        agree_from(s, t, q),
        0 <= q <= p <= s.len(),
    ensures
        function_name_at(s, p) == function_name_at(t, p),
        tag_no_case_at(s, p, seq![0x41, 0x54, 0x41, 0x4e]) == tag_no_case_at(t, p, seq![0x41, 0x54, 0x41, 0x4e]),
{
    lemma_tag_frame(s, t, q, p, seq![0x41, 0x54, 0x41, 0x4e]);
    lemma_tag_frame(s, t, q, p, seq![0x41, 0x42, 0x53]);
    lemma_tag_frame(s, t, q, p, seq![0x41, 0x43, 0x4f, 0x53]);
    lemma_tag_frame(s, t, q, p, seq![0x41, 0x53, 0x49, 0x4e]);
    lemma_tag_frame(s, t, q, p, seq![0x43, 0x4f, 0x53]);
    lemma_tag_frame(s, t, q, p, seq![0x45, 0x58, 0x50]);
    lemma_tag_frame(s, t, q, p, seq![0x46, 0x49, 0x58]);
    lemma_tag_frame(s, t, q, p, seq![0x46, 0x55, 0x50]);
    lemma_tag_frame(s, t, q, p, seq![0x52, 0x4f, 0x55, 0x4e, 0x44]);
    lemma_tag_frame(s, t, q, p, seq![0x4c, 0x4e]);
    lemma_tag_frame(s, t, q, p, seq![0x53, 0x49, 0x4e]);
    lemma_tag_frame(s, t, q, p, seq![0x53, 0x51, 0x52, 0x54]);
    lemma_tag_frame(s, t, q, p, seq![0x54, 0x41, 0x4e]);
    lemma_tag_frame(s, t, q, p, seq![0x45, 0x58, 0x49, 0x53, 0x54, 0x53]);
}

proof fn lemma_operators_frame(s: Seq<u8>, t: Seq<u8>, q: int, p: int)
    requires
        agree_from(s, t, q),
        0 <= q <= p <= s.len(),
    ensures
        binary_op_at(s, p) == binary_op_at(t, p),
        arith_op_at(s, p) == arith_op_at(t, p),
{
    lemma_tag_frame(s, t, q, p, seq![0x45, 0x51]);
    lemma_tag_frame(s, t, q, p, seq![0x4e, 0x45]);
    lemma_tag_frame(s, t, q, p, seq![0x47, 0x54]);
    lemma_tag_frame(s, t, q, p, seq![0x47, 0x45]);
    lemma_tag_frame(s, t, q, p, seq![0x4c, 0x54]);
    lemma_tag_frame(s, t, q, p, seq![0x4c, 0x45]);
    lemma_tag_frame(s, t, q, p, seq![0x41, 0x4e, 0x44]);
    lemma_tag_frame(s, t, q, p, seq![0x4f, 0x52]);
    lemma_tag_frame(s, t, q, p, seq![0x58, 0x4f, 0x52]);
    lemma_tag_frame(s, t, q, p, seq![0x2a, 0x2a]);
    lemma_tag_frame(s, t, q, p, seq![0x2a]);
    lemma_tag_frame(s, t, q, p, seq![0x2f]);
    lemma_tag_frame(s, t, q, p, seq![0x2b]);
    lemma_tag_frame(s, t, q, p, seq![0x2d]);
    lemma_tag_frame(s, t, q, p, seq![0x4d, 0x4f, 0x44]);
}

proof fn lemma_atom_frame(s: Seq<u8>, t: Seq<u8>, q: int, p: int)
    requires
        agree_from(s, t, q),
        0 <= q <= p <= s.len(),
    ensures
        sp_atom(s, p) == sp_atom(t, p),
{
    lemma_number_frame(s, t, p, true);
    lemma_operators_frame(s, t, q, p);
    lemma_parameter_frame(s, t, q, p);
}

proof fn lemma_token_frame(s: Seq<u8>, t: Seq<u8>, q: int, p: int)
    requires
        agree_from(s, t, q),
        0 <= q <= p <= s.len(),
    ensures
        sp_token(s, p) == sp_token(t, p),
    decreases s.len() - p, 3int,
{
    lemma_function_frame(s, t, q, p);
    lemma_atom_frame(s, t, q, p);
    lemma_expression_frame(s, t, q, p);
}

proof fn lemma_function_frame(s: Seq<u8>, t: Seq<u8>, q: int, p: int)
    requires
        agree_from(s, t, q),
        0 <= q <= p <= s.len(),
    ensures
        sp_function(s, p) == sp_function(t, p),
    decreases s.len() - p, 2int,
{
    lemma_function_names_frame(s, t, q, p);
    if tag_no_case_at(s, p, seq![0x41, 0x54, 0x41, 0x4e]) {
        lemma_atan_frame(s, t, q, p);
    } else {
        lemma_unary_call_frame(s, t, q, p);
    }
}

#[verifier::rlimit(40)]
proof fn lemma_atan_frame(s: Seq<u8>, t: Seq<u8>, q: int, p: int)
    requires
        agree_from(s, t, q),
        0 <= q <= p <= s.len(),
        tag_no_case_at(s, p, seq![0x41, 0x54, 0x41, 0x4e]),
    ensures
        sp_atan(s, p) == sp_atan(t, p),
    decreases s.len() - p, 1int,
{
    lemma_space0_end_frame(s, t, q, p + 4);
    lemma_space0_end(s, p + 4);
    let a0 = space0_end(s, p + 4);
    if p < a0 <= s.len() {
        lemma_expression_frame(s, t, q, a0);
        lemma_expression_bounds(s, a0);
        if let Some((a, e1)) = sp_expression(s, a0) {
            if q <= e1 <= s.len() {
                lemma_space0_end_frame(s, t, q, e1);
                lemma_space0_end(s, e1);
                let q2 = space0_end(s, e1);
                if p < q2 < s.len() {
                    assert(s[q2] == t[q2]);
                    lemma_space0_end_frame(s, t, q, q2 + 1);
                    lemma_space0_end(s, q2 + 1);
                    let b0 = space0_end(s, q2 + 1);
                    if p < b0 <= s.len() {
                        lemma_expression_frame(s, t, q, b0);
                    }
                }
            }
        }
    }
}

proof fn lemma_unary_call_frame(s: Seq<u8>, t: Seq<u8>, q: int, p: int)
    requires
        agree_from(s, t, q),
        0 <= q <= p <= s.len(),
    ensures
        sp_unary_call(s, p) == sp_unary_call(t, p),
    decreases s.len() - p, 1int,
{
    lemma_function_names_frame(s, t, q, p);
    if let Some((name, k)) = function_name_at(s, p) {
        if p + k <= s.len() {
            lemma_space0_end_frame(s, t, q, p + k);
            lemma_space0_end(s, p + k);
            let a0 = space0_end(s, p + k);
            if p < a0 <= s.len() {
                lemma_expression_frame(s, t, q, a0);
            }
        }
    }
}

} // verus!
