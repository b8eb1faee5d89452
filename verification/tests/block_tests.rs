use gcode_parser::expression::{
    ArithmeticOperator, BinaryOperator, Expression, ExpressionToken, Function,
};
use gcode_parser::token::assignment::{assignment, Assignment};
use gcode_parser::token::block::{
    conditional, do_while_block, repeat_block, while_block, BlockIdent, Branch, BranchType,
    Conditional, DoWhile, IdentType, Repeat, While,
};
use gcode_parser::token::call::{call, Call};
use gcode_parser::token::gcode::{gcode, GCode};
use gcode_parser::token::othercode::Feedrate;
use gcode_parser::token::polar::PolarCoord;
use gcode_parser::token::return_stmt::{return_stmt, Return};
use gcode_parser::token::{token_type, Line, Token, TokenType, Unknown};
use gcode_parser::value::{Decimal, Parameter, Value};

/// The canonical decimal written as `text` (test-side construction, by hand).
fn dec(text: &str) -> Decimal {
    let (negative, digits) = match text.strip_prefix('-') {
        Some(rest) => (true, rest),
        None => (false, text),
    };
    let (int, frac) = match digits.split_once('.') {
        Some((a, b)) => (a, b),
        None => (digits, ""),
    };
    let int = int.trim_start_matches('0');
    let frac = frac.trim_end_matches('0');
    Decimal {
        negative: negative && !(int.is_empty() && frac.is_empty()),
        integer: int.as_bytes().to_vec(),
        fraction: frac.as_bytes().to_vec(),
    }
}

fn lit(text: &str) -> Value {
    Value::Literal(dec(text))
}

fn num(text: &str) -> ExpressionToken {
    ExpressionToken::Literal(dec(text))
}

fn numbered(n: u16) -> BlockIdent {
    BlockIdent { ident: IdentType::Numbered(n) }
}

fn named(name: &str) -> BlockIdent {
    BlockIdent { ident: IdentType::Named(name.to_string()) }
}

fn one_plus_two() -> Expression {
    Expression::from_tokens(vec![
        num("1.0"),
        ExpressionToken::ArithmeticOperator(ArithmeticOperator::Add),
        num("2.0"),
    ])
}

fn param_gt_param(a: u32, b: u32) -> Expression {
    Expression::from_tokens(vec![
        ExpressionToken::Parameter(Parameter::Numbered(a)),
        ExpressionToken::BinaryOperator(BinaryOperator::GreaterThan),
        ExpressionToken::Parameter(Parameter::Numbered(b)),
    ])
}

fn compare(a: &str, op: BinaryOperator, b: &str) -> Expression {
    Expression::from_tokens(vec![num(a), ExpressionToken::BinaryOperator(op), num(b)])
}

fn line_of(tokens: Vec<TokenType>) -> Line {
    Line { tokens: tokens.into_iter().map(|token| Token { token }).collect() }
}

fn feed_line(rate: &str) -> Line {
    line_of(vec![TokenType::Feedrate(Feedrate { feedrate: lit(rate) })])
}

#[test]
fn unknown_code() {
    assert_eq!(
        token_type("M61"),
        Ok(("", TokenType::Unknown(Unknown { code_letter: 'M', code_number: lit("61.0") })))
    );
    assert_eq!(
        token_type("g33"),
        Ok(("", TokenType::Unknown(Unknown { code_letter: 'g', code_number: lit("33.0") })))
    );
}

#[test]
fn parse_rapid() {
    assert_eq!(gcode("G0"), Ok(("", GCode::Rapid)));
    assert_eq!(gcode("G00"), Ok(("", GCode::Rapid)));
}

#[test]
fn parse_feed() {
    assert_eq!(gcode("G1"), Ok(("", GCode::Feed)));
    assert_eq!(gcode("G01"), Ok(("", GCode::Feed)));
}

#[test]
fn parse_arc() {
    assert_eq!(gcode("G2"), Ok(("", GCode::ClockwiseArc)));
    assert_eq!(gcode("G3"), Ok(("", GCode::CounterclockwiseArc)));
}

#[test]
fn parse_assignment() {
    assert_eq!(
        assignment("#1000 = 1.0"),
        Ok(("", Assignment { lhs: Parameter::Numbered(1000), rhs: lit("1.0") }))
    );
    assert_eq!(
        assignment("#<named> = [1 + 2]"),
        Ok((
            "",
            Assignment {
                lhs: Parameter::Local("named".to_string()),
                rhs: Value::Expression(one_plus_two()),
            }
        ))
    );
}

#[test]
fn parse_function_assignment() {
    assert_eq!(
        assignment("#1000 = sin[1.0]"),
        Ok((
            "",
            Assignment {
                lhs: Parameter::Numbered(1000),
                rhs: Value::Expression(Expression::from_tokens(vec![ExpressionToken::Function(
                    Function::Sin(Expression::from_tokens(vec![num("1.0")]))
                )])),
            }
        ))
    );
}

#[test]
fn parse_call_no_args() {
    assert_eq!(
        call("o100 call"),
        Ok(("", Call { subroutine_ident: numbered(100), arguments: Vec::new() }))
    );
}

#[test]
fn realworld() {
    assert_eq!(
        call("o<touchoff> call [0.100] [0] [0.08] (Touchoff and start cutting)"),
        Ok((
            " (Touchoff and start cutting)",
            Call {
                subroutine_ident: named("touchoff"),
                arguments: vec![
                    Expression::from_tokens(vec![num("0.1")]),
                    Expression::from_tokens(vec![num("0.0")]),
                    Expression::from_tokens(vec![num("0.08")]),
                ],
            }
        ))
    );
}

#[test]
fn parse_call() {
    assert_eq!(
        call("o100 call [100] [1 + 2]"),
        Ok((
            "",
            Call {
                subroutine_ident: numbered(100),
                arguments: vec![Expression::from_tokens(vec![num("100.0")]), one_plus_two()],
            }
        ))
    );
}

#[test]
fn parse_call_no_spaces() {
    assert_eq!(
        call("o<arc2>call[100][1 + 2]"),
        Ok((
            "",
            Call {
                subroutine_ident: named("arc2"),
                arguments: vec![Expression::from_tokens(vec![num("100.0")]), one_plus_two()],
            }
        ))
    );
}

#[test]
fn parse_return() {
    assert_eq!(
        return_stmt("o100 return [1 + 2]"),
        Ok(("", Return { ident: numbered(100), value: Some(one_plus_two()) }))
    );
}

#[test]
fn parse_return_no_value() {
    assert_eq!(return_stmt("o100 return"), Ok(("", Return { ident: numbered(100), value: None })));
}

#[test]
fn repeat() {
    assert_eq!(
        repeat_block("o100 repeat [800]\ng91 g1 @-.0025 ^4.5\no100 endrepeat"),
        Ok((
            "",
            Repeat {
                identifier: numbered(100),
                condition: Expression::from_tokens(vec![num("800.0")]),
                lines: vec![line_of(vec![
                    TokenType::Unknown(Unknown { code_letter: 'g', code_number: lit("91.0") }),
                    TokenType::GCode(GCode::Feed),
                    TokenType::PolarCoord(PolarCoord {
                        distance: Some(lit("-0.0025")),
                        angle: Some(lit("4.5")),
                    }),
                ])],
                trailing_comment: None,
            }
        ))
    );
}

#[test]
fn test_while() {
    assert_eq!(
        while_block("o101 while [#8 GT #4]\ng0\no101 endwhile"),
        Ok((
            "",
            While {
                identifier: numbered(101),
                condition: param_gt_param(8, 4),
                lines: vec![line_of(vec![TokenType::GCode(GCode::Rapid)])],
                trailing_comment: None,
            }
        ))
    );
}

#[test]
fn while_indented() {
    assert_eq!(
        while_block("    o101 while [#8 GT #4]\n        g0\n    o101 endwhile"),
        Ok((
            "",
            While {
                identifier: numbered(101),
                condition: param_gt_param(8, 4),
                lines: vec![line_of(vec![TokenType::GCode(GCode::Rapid)])],
                trailing_comment: None,
            }
        ))
    );
}

#[test]
fn no_spaces() {
    assert_eq!(
        do_while_block("o<ident>do\ng0\no<ident>while [#8 GT #4]"),
        Ok((
            "",
            DoWhile {
                identifier: named("ident"),
                condition: param_gt_param(8, 4),
                lines: vec![line_of(vec![TokenType::GCode(GCode::Rapid)])],
            }
        ))
    );
}

#[test]
fn offsets_ngc() {
    assert_eq!(
        do_while_block("o10 do\ng0\no10 while [5 gt 2]"),
        Ok((
            "",
            DoWhile {
                identifier: numbered(10),
                condition: compare("5.0", BinaryOperator::GreaterThan, "2.0"),
                lines: vec![line_of(vec![TokenType::GCode(GCode::Rapid)])],
            }
        ))
    );
}

fn if_branch(comment: Option<&str>, rate: &str) -> Branch {
    Branch {
        trailing_comment: comment.map(|text| gcode_parser::token::Comment { text: text.to_string() }),
        branch_type: BranchType::If,
        condition: Some(compare("1.0", BinaryOperator::GreaterThan, "0.0")),
        lines: vec![feed_line(rate)],
    }
}

fn elseif_branch(rate: &str) -> Branch {
    Branch {
        trailing_comment: None,
        branch_type: BranchType::ElseIf,
        condition: Some(compare("2.0", BinaryOperator::LessThan, "3.0")),
        lines: vec![feed_line(rate)],
    }
}

fn else_branch(rate: &str) -> Branch {
    Branch {
        trailing_comment: None,
        branch_type: BranchType::Else,
        condition: None,
        lines: vec![feed_line(rate)],
    }
}

#[test]
fn trailing_comment() {
    assert_eq!(
        conditional("o1 if [1 gt 0] ; comment here\nf500\no1 endif"),
        Ok((
            "",
            Conditional {
                identifier: numbered(1),
                branches: vec![if_branch(Some("comment here"), "500.0")],
            }
        ))
    );
}

#[test]
fn conditional_parse_if() {
    assert_eq!(
        conditional("o1 if [1 gt 0]\nf500\no1 endif"),
        Ok(("", Conditional { identifier: numbered(1), branches: vec![if_branch(None, "500.0")] }))
    );
}

#[test]
fn parse_indented_if() {
    assert_eq!(
        conditional("    o1 if [1 gt 0]\n        f500\n    o1 endif"),
        Ok(("", Conditional { identifier: numbered(1), branches: vec![if_branch(None, "500.0")] }))
    );
}

#[test]
fn parse_if_else() {
    assert_eq!(
        conditional("o1 if [1 gt 0]\nf500\no1 else\nf400\no1 endif"),
        Ok((
            "",
            Conditional {
                identifier: numbered(1),
                branches: vec![if_branch(None, "500.0"), else_branch("400.0")],
            }
        ))
    );
}

#[test]
fn parse_if_elseif() {
    assert_eq!(
        conditional("o1 if [1 gt 0]\nf500\no1 elseif [2 lt 3]\nf400\no1 endif"),
        Ok((
            "",
            Conditional {
                identifier: numbered(1),
                branches: vec![if_branch(None, "500.0"), elseif_branch("400.0")],
            }
        ))
    );
}

#[test]
fn parse_if_elseif_else() {
    assert_eq!(
        conditional("o1 if [1 gt 0]\nf500\no1 elseif [2 lt 3]\nf400\no1 else\nf200\no1 endif"),
        Ok((
            "",
            Conditional {
                identifier: numbered(1),
                branches: vec![
                    if_branch(None, "500.0"),
                    elseif_branch("400.0"),
                    else_branch("200.0"),
                ],
            }
        ))
    );
}
