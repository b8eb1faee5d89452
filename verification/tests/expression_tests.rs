use gcode_parser::text::ParseError;
use gcode_parser::tokenizer::expression::{
    expression, ArithmeticOperator, Expression, ExpressionToken, Function,
};
use gcode_parser::value::{Decimal, Parameter};

/// The canonical decimal written as `text` (test-side construction, by hand).
fn dec(text: &str) -> Decimal {
    let (negative, digits) = match text.strip_prefix('-') {
        Some(rest) => (true, rest),
        None => (false, text),
    };
    let (int, frac) = match digits.split_once('.') {
        Some((a, b)) => (a, b),
        None => (digits, ""),
    };
    let int = int.trim_start_matches('0');
    let frac = frac.trim_end_matches('0');
    Decimal {
        negative: negative && !(int.is_empty() && frac.is_empty()),
        integer: int.as_bytes().to_vec(),
        fraction: frac.as_bytes().to_vec(),
    }
}

fn literal(text: &str) -> ExpressionToken {
    ExpressionToken::Literal(dec(text))
}

fn check_expression(to_check: Result<(&str, Expression), ParseError>, against: Expression) {
    assert_eq!(to_check, Ok(("", against)))
}

#[test]
fn arithmetic_operators_have_the_right_precedence() {
    assert!(ArithmeticOperator::Div > ArithmeticOperator::Mul);
    assert!(ArithmeticOperator::Mul > ArithmeticOperator::Add);
    assert!(ArithmeticOperator::Add > ArithmeticOperator::Sub);
    assert!(ArithmeticOperator::Add == ArithmeticOperator::Add);
}

#[test]
fn it_parses_simple_expressions() {
    check_expression(expression("[1]"), vec![literal("1.0")]);
}

#[test]
fn it_parses_arithmetic() {
    check_expression(
        expression("[1 + 2 * 3 / 4 - 5]"),
        vec![
            literal("1.0"),
            ExpressionToken::ArithmeticOperator(ArithmeticOperator::Add),
            literal("2.0"),
            ExpressionToken::ArithmeticOperator(ArithmeticOperator::Mul),
            literal("3.0"),
            ExpressionToken::ArithmeticOperator(ArithmeticOperator::Div),
            literal("4.0"),
            ExpressionToken::ArithmeticOperator(ArithmeticOperator::Sub),
            literal("5.0"),
        ],
    );
}

#[test]
fn it_parses_nested_expressions() {
    check_expression(
        expression("[1 + [[2 - 3] * 4]]"),
        vec![
            literal("1.0"),
            ExpressionToken::ArithmeticOperator(ArithmeticOperator::Add),
            ExpressionToken::Expression(vec![
                ExpressionToken::Expression(vec![
                    literal("2.0"),
                    ExpressionToken::ArithmeticOperator(ArithmeticOperator::Sub),
                    literal("3.0"),
                ]),
                ExpressionToken::ArithmeticOperator(ArithmeticOperator::Mul),
                literal("4.0"),
            ]),
        ],
    );
}

#[test]
fn it_parses_atan() {
    check_expression(
        expression("[ATAN[3 + 4]/[5]]"),
        vec![ExpressionToken::Function(Function::Atan((
            vec![
                literal("3.0"),
                ExpressionToken::ArithmeticOperator(ArithmeticOperator::Add),
                literal("4.0"),
            ],
            vec![literal("5.0")],
        )))],
    );
}

#[test]
fn it_parses_a_function() {
    check_expression(
        expression("[ABS[1.0]]"),
        vec![ExpressionToken::Function(Function::Abs(vec![literal("1.0")]))],
    );
}

#[test]
fn it_parses_functions() {
    let inputs: Vec<String> = vec![
        "[ABS[1.0]]".into(),
        "[ACOS[1.0]]".into(),
        "[ASIN[1.0]]".into(),
        "[COS[1.0]]".into(),
        "[EXP[1.0]]".into(),
        "[FIX[1.0]]".into(),
        "[FUP[1.0]]".into(),
        "[ROUND[1.0]]".into(),
        "[LN[1.0]]".into(),
        "[SIN[1.0]]".into(),
        "[SQRT[1.0]]".into(),
        "[TAN[1.0]]".into(),
        "[EXISTS[1.0]]".into(),
    ];

    for input in inputs.into_iter() {
        let parsed = expression(input.as_str());

        assert!(parsed.is_ok());
        assert_eq!(parsed.unwrap().0, "");
    }
}

#[test]
fn it_parses_negative_numbers_as_negative_numbers() {
    check_expression(
        expression("[-10.0*-12]"),
        vec![
            literal("-10.0"),
            ExpressionToken::ArithmeticOperator(ArithmeticOperator::Mul),
            literal("-12.0"),
        ],
    );
}

#[test]
fn it_parses_expressions_with_parameters() {
    let input = "[1 + #1234 * #<named_param> / #<_global_param>]";
    check_expression(
        expression(input),
        vec![
            literal("1"),
            ExpressionToken::ArithmeticOperator(ArithmeticOperator::Add),
            ExpressionToken::Parameter(Parameter::Numbered(1234)),
            ExpressionToken::ArithmeticOperator(ArithmeticOperator::Mul),
            ExpressionToken::Parameter(Parameter::Local("named_param".to_string())),
            ExpressionToken::ArithmeticOperator(ArithmeticOperator::Div),
            ExpressionToken::Parameter(Parameter::Global("global_param".to_string())),
        ],
    );
}

#[test]
fn it_parses_function_calls() {
    let input = "[SIN[10]]";
    check_expression(
        expression(input),
        vec![ExpressionToken::Function(Function::Sin(vec![literal("10")]))],
    );
}

#[test]
fn whitespace_of_any_kind_surrounds_the_parts() {
    check_expression(
        expression(" [\t1\r\n+ 2 ]\n"),
        vec![
            literal("1"),
            ExpressionToken::ArithmeticOperator(ArithmeticOperator::Add),
            literal("2"),
        ],
    );
    check_expression(
        expression("[sin [1]]"),
        vec![ExpressionToken::Function(Function::Sin(vec![literal("1")]))],
    );
    assert_eq!(expression("[1] X2"), Ok(("X2", vec![literal("1")])));
}

#[test]
fn a_sign_before_a_digit_belongs_to_the_number() {
    // `-2` right after a space is read as a negative number, not as an operator.
    check_expression(expression("[1 -2]"), vec![literal("1"), literal("-2")]);
    check_expression(
        expression("[1 - 2]"),
        vec![
            literal("1"),
            ExpressionToken::ArithmeticOperator(ArithmeticOperator::Sub),
            literal("2"),
        ],
    );
}

#[test]
fn malformed_expressions_are_refused() {
    assert_eq!(expression("[]"), Err(ParseError));
    assert_eq!(expression("[1"), Err(ParseError));
    assert_eq!(expression("1]"), Err(ParseError));
    assert_eq!(expression("[1 GT 2]"), Err(ParseError));
    assert_eq!(expression("[1 MOD 2]"), Err(ParseError));
    assert_eq!(expression("[ATAN[1]]"), Err(ParseError));
    assert_eq!(expression("[FOO[1]]"), Err(ParseError));
}
