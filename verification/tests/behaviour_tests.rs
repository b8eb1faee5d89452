use gcode_parser::expression::{BinaryOperator, Expression, ExpressionToken};
use gcode_parser::token::arc::{radius_format_arc, RadiusFormatArc};
use gcode_parser::token::block::{
    block, block_close, block_close_expr, block_ident, block_open, block_open_expr, else_block,
    elseif_block, subroutine, while_block, Block, BlockIdent, BranchType, IdentType, Subroutine,
    While,
};
use gcode_parser::token::comment::{comment, Comment};
use gcode_parser::token::coord::coord;
use gcode_parser::token::gcode::GCode;
use gcode_parser::token::line::lines_with_newline;
use gcode_parser::token::mcode::{mcode, MCode};
use gcode_parser::token::othercode::{feedrate, spindle_speed, Feedrate, LineNumber};
use gcode_parser::token::{
    block_delete, line_number, token, token_type, unknown, Line, Token, TokenType, Unknown,
};
use gcode_parser::value::{Decimal, Value};

/// The canonical decimal written as `text` (test-side construction, by hand).
fn dec(text: &str) -> Decimal {
    let (negative, digits) = match text.strip_prefix('-') {
        Some(rest) => (true, rest),
        None => (false, text),
    };
    let (int, frac) = match digits.split_once('.') {
        Some((a, b)) => (a, b),
        None => (digits, ""),
    };
    let int = int.trim_start_matches('0');
    let frac = frac.trim_end_matches('0');
    Decimal {
        negative: negative && !(int.is_empty() && frac.is_empty()),
        integer: int.as_bytes().to_vec(),
        fraction: frac.as_bytes().to_vec(),
    }
}

fn lit(text: &str) -> Value {
    Value::Literal(dec(text))
}

fn line_of(tokens: Vec<TokenType>) -> Line {
    Line { tokens: tokens.into_iter().map(|token| Token { token }).collect() }
}

#[test]
fn comment_text_is_trimmed() {
    assert_eq!(comment("(\t spaced out \t)"), Ok(("", Comment { text: "spaced out".to_string() })));
    assert_eq!(comment("(   )"), Ok(("", Comment { text: String::new() })));
    assert_eq!(comment("; to the end  \nG0"), Ok(("\nG0", Comment { text: "to the end".to_string() })));
    assert!(comment("( never closed").is_err());
}

#[test]
fn a_coordinate_needs_a_component() {
    assert!(coord("").is_err());
    assert!(coord("Q1").is_err());
    let (rest, c) = coord("X1 X2").unwrap();
    assert_eq!(rest, " X2");
    assert_eq!(c.x, Some(lit("1")));
}

#[test]
fn speeds_and_feeds_take_no_sign() {
    assert!(spindle_speed("S-100").is_err());
    assert!(feedrate("F-5").is_err());
    assert_eq!(feedrate("F500"), Ok(("", Feedrate { feedrate: lit("500") })));
}

#[test]
fn numbers_are_kept_in_canonical_form() {
    assert_eq!(coord("X01.50").unwrap().1.x, Some(lit("1.5")));
    assert_eq!(coord("X1.5").unwrap().1.x, Some(lit("1.5")));
    let zero = coord("X-0.000").unwrap().1.x;
    assert_eq!(zero, Some(Value::Literal(Decimal { negative: false, integer: vec![], fraction: vec![] })));
    assert_eq!(coord("X+2").unwrap().1.x, Some(lit("2")));
}

#[test]
fn m_codes_ignore_the_case_of_their_letter() {
    assert_eq!(mcode("m3"), mcode("M3"));
    assert_eq!(mcode("m30"), Ok(("", MCode::EndProgramSwapPallets)));
    assert_eq!(mcode("M61"), Err(gcode_parser::text::ParseError));
}

#[test]
fn m_codes_are_words_that_stand_alone() {
    assert_eq!(mcode("M02"), Ok(("", MCode::EndProgram)));
    assert_eq!(mcode("M2.0"), Ok((".0", MCode::EndProgram)));
    assert_eq!(mcode("M6 T1"), Ok((" T1", MCode::ToolChange)));
    assert!(mcode("M01").is_err());
    assert!(mcode("M03").is_err());
    assert!(mcode("M10").is_err());
    assert!(mcode("M7").is_err());
}

#[test]
fn identifier_text_reads_back() {
    for ident in [
        BlockIdent::from(0u16),
        BlockIdent::from(7u16),
        BlockIdent::from(65535u16),
        BlockIdent { ident: IdentType::Named("touch off".to_string()) },
        BlockIdent::from("touchoff"),
    ] {
        let text = String::from_utf8(ident.text()).unwrap();
        assert_eq!(block_ident(&text), Ok(("", ident)));
    }
    assert_eq!(String::from_utf8(BlockIdent::from(100u16).text()).unwrap(), "O100");
    assert_eq!(BlockIdent::from("x"), BlockIdent { ident: IdentType::from("x") });
    assert_eq!(IdentType::from("x"), IdentType::Named("x".to_string()));
    assert_eq!(
        String::from_utf8(BlockIdent { ident: IdentType::Named("x".to_string()) }.text()).unwrap(),
        "O<x>"
    );
}

#[test]
fn block_identifiers() {
    assert_eq!(block_ident("o100"), Ok(("", BlockIdent::from(100u16))));
    assert_eq!(block_ident("o<a b>"), block_ident("O<a b>"));
    assert_eq!(block_ident("O<a b>"), Ok(("", BlockIdent::from("a b"))));
    assert_eq!(block_ident("O007 sub"), Ok((" sub", BlockIdent::from(7u16))));
    assert!(block_ident("o65536").is_err());
    assert!(block_ident("o<unclosed").is_err());
    assert!(block_ident("x100").is_err());
}

#[test]
fn lines_never_fail() {
    assert_eq!(gcode_parser::token::line::line(""), Ok(("", Line { tokens: vec![] })));
    assert_eq!(gcode_parser::token::line::line("   \n"), Ok(("\n", Line { tokens: vec![] })));
    assert_eq!(lines_with_newline("G0"), Ok(("G0", vec![])));
    assert_eq!(lines_with_newline(""), Ok(("", vec![])));
}

#[test]
fn lines_keep_block_delete_and_line_numbers() {
    assert_eq!(
        gcode_parser::token::line::line("/ N10 G0 $"),
        Ok((
            "$",
            line_of(vec![
                TokenType::BlockDelete,
                TokenType::LineNumber(LineNumber { line_number: 10 }),
                TokenType::GCode(GCode::Rapid),
            ])
        ))
    );
    assert_eq!(
        lines_with_newline("G0\r\nG1\n\nrest"),
        Ok((
            "rest",
            vec![
                line_of(vec![TokenType::GCode(GCode::Rapid)]),
                line_of(vec![TokenType::GCode(GCode::Feed)]),
                line_of(vec![]),
            ]
        ))
    );
}

#[test]
fn tokens_consume_input() {
    assert_eq!(token("%"), Ok(("", Token { token: TokenType::ProgramDelimiter })));
    assert_eq!(token_type("G0 X1"), Ok((" X1", TokenType::GCode(GCode::Rapid))));
    assert!(token_type("").is_err());
    assert!(token_type(" G0").is_err());
    assert!(token_type("$").is_err());
}

#[test]
fn block_delete_and_line_number_tokens() {
    assert_eq!(block_delete("/G0"), Ok(("G0", Token { token: TokenType::BlockDelete })));
    assert!(block_delete("G0").is_err());
    assert_eq!(
        line_number("N25 G1"),
        Ok((" G1", Token { token: TokenType::LineNumber(LineNumber { line_number: 25 }) }))
    );
    assert!(line_number("N").is_err());
}

#[test]
fn unknown_codes_take_a_signed_value() {
    assert_eq!(
        unknown("Q-2.5"),
        Ok(("", Unknown { code_letter: 'Q', code_number: lit("-2.5") }))
    );
    assert!(unknown("1Q").is_err());
}

fn gt(a: &str, b: &str) -> Expression {
    Expression::from_tokens(vec![
        ExpressionToken::Literal(dec(a)),
        ExpressionToken::BinaryOperator(BinaryOperator::GreaterThan),
        ExpressionToken::Literal(dec(b)),
    ])
}

#[test]
fn blocks_close_with_their_own_identifier() {
    assert!(while_block("o1 while [1 gt 0]\ng0\no2 endwhile").is_err());
    assert!(while_block("o1 while [1 gt 0]\ng0\no1 endwhile").is_ok());
    // The closing identifier is compared with the identifier's text, `O7` here.
    assert!(while_block("o007 while [1 gt 0]\ng0\no007 endwhile").is_err());
    assert!(while_block("o007 while [1 gt 0]\ng0\nO7 endwhile").is_ok());
    // Keywords are case-sensitive.
    assert!(while_block("o1 WHILE [1 gt 0]\ng0\no1 endwhile").is_err());
}

#[test]
fn nested_blocks() {
    let text = "o1 while [2 gt 1]\no2 while [3 gt 2]\ng0\no2 endwhile\no1 endwhile";
    let inner = While {
        identifier: BlockIdent::from(2u16),
        condition: gt("3", "2"),
        lines: vec![line_of(vec![TokenType::GCode(GCode::Rapid)])],
        trailing_comment: None,
    };
    assert_eq!(
        block(text),
        Ok((
            "",
            Block::While(While {
                identifier: BlockIdent::from(1u16),
                condition: gt("2", "1"),
                lines: vec![line_of(vec![TokenType::Block(Block::While(inner))])],
                trailing_comment: None,
            })
        ))
    );
}

#[test]
fn subroutines_may_return_a_value() {
    assert_eq!(
        subroutine("o<s> sub (doc)\ng1\no<s> endsub [1 gt 0]"),
        Ok((
            "",
            Subroutine {
                identifier: BlockIdent { ident: IdentType::Named("s".to_string()) },
                lines: vec![line_of(vec![TokenType::GCode(GCode::Feed)])],
                trailing_comment: Some(Comment { text: "doc".to_string() }),
                returns: Some(gt("1", "0")),
            }
        ))
    );
    assert_eq!(
        subroutine("o9 sub\no9 endsub").map(|(rest, s)| (rest, s.returns)),
        Ok(("", None))
    );
}

#[test]
fn block_lines_open_and_close() {
    let (rest, (ident, c)) = block_open("o5 sub ; note\nG0", "sub").unwrap();
    assert_eq!((rest, ident, c), ("G0", BlockIdent::from(5u16), Some(Comment { text: "note".to_string() })));
    assert!(block_open("o5 sub", "sub").is_err());
    let (rest, (ident, x, c)) = block_open_expr("o6 repeat [2 gt 1]\n", "repeat").unwrap();
    assert_eq!((rest, ident, x, c), ("", BlockIdent::from(6u16), gt("2", "1"), None));
    assert_eq!(block_close("  O5 endsub\n", &BlockIdent::from(5u16), "endsub"), Ok(("\n", None)));
    assert!(block_close("o6 endsub", &BlockIdent::from(5u16), "endsub").is_err());
    let (rest, (x, c)) = block_close_expr("o7 while [2 gt 1] (x)", &BlockIdent::from(7u16), "while").unwrap();
    assert_eq!((rest, x, c), ("", gt("2", "1"), Some(Comment { text: "x".to_string() })));
}

#[test]
fn branches_of_a_conditional() {
    let ident = BlockIdent::from(3u16);
    let (rest, branch) = elseif_block("o3 elseif [2 gt 1]\ng0\no3 endif", &ident).unwrap();
    assert_eq!(rest, "o3 endif");
    assert_eq!(branch.branch_type, BranchType::ElseIf);
    assert_eq!(branch.condition, Some(gt("2", "1")));
    let (rest, branch) = else_block("o3 else\ng1\no3 endif", &ident).unwrap();
    assert_eq!(rest, "o3 endif");
    assert_eq!(branch.branch_type, BranchType::Else);
    assert_eq!(branch.lines, vec![line_of(vec![TokenType::GCode(GCode::Feed)])]);
    assert!(else_block("o4 else\n", &ident).is_err());
}

#[test]
fn radius_format_arcs() {
    assert_eq!(
        radius_format_arc("X10 Y15 R20 P2"),
        Ok((
            "",
            RadiusFormatArc {
                x: Some(lit("10")),
                y: Some(lit("15")),
                z: None,
                radius: lit("20"),
                turns: lit("2"),
            }
        ))
    );
    assert_eq!(
        radius_format_arc("Z-1 R2.5"),
        Ok(("", RadiusFormatArc { x: None, y: None, z: Some(lit("-1")), radius: lit("2.5"), turns: lit("1") }))
    );
    assert!(radius_format_arc("R5").is_err());
    assert!(radius_format_arc("X1 Y1").is_err());
    // `P` gives the number of turns.
    assert_eq!(
        radius_format_arc("X1 R2 P3"),
        Ok(("", RadiusFormatArc { x: Some(lit("1")), y: None, z: None, radius: lit("2"), turns: lit("3") }))
    );
    // A `P` word may stand right before the radius.
    assert_eq!(
        radius_format_arc("X1 P3R2"),
        Ok(("", RadiusFormatArc { x: Some(lit("1")), y: None, z: None, radius: lit("2"), turns: lit("3") }))
    );
    // The end point words come before the radius, in the order X, Y, Z.
    assert!(radius_format_arc("R2 X1").is_err());
    assert!(radius_format_arc("P3 R2 Y-4").is_err());
    assert_eq!(
        radius_format_arc("X1 R2 X3"),
        Ok(("X3", RadiusFormatArc { x: Some(lit("1")), y: None, z: None, radius: lit("2"), turns: lit("1") }))
    );
    assert!(radius_format_arc("R2 F100 X1").is_err());
}

#[test]
fn keywords_may_end_in_any_character() {
    let one = BlockIdent::from(1u16);
    assert_eq!(block_close("o1 fin\u{e9} (done)", &one, "fin\u{e9}"), Ok(("", Some(Comment { text: "done".to_string() }))));
    assert_eq!(block_close("o1 fin\u{e9}\u{e9}", &one, "fin\u{e9}"), Ok(("\u{e9}", None)));
    assert!(block_close("o1 fin", &one, "fin\u{e9}").is_err());
}

#[test]
fn coordinate_words_in_any_order_each_axis_once() {
    let (rest, c) = coord("Y1 X2").unwrap();
    assert_eq!(rest, "");
    assert_eq!(Ok(("", c)), coord("X2 Y1"));
    let (rest, c) = coord("X1 x2").unwrap();
    assert_eq!(rest, " x2");
    assert_eq!(c.x, Some(lit("1")));
}

#[test]
fn a_token_is_its_first_reading_alternative() {
    assert!(matches!(token_type("X0 Y1 I2 J3"), Ok(("", TokenType::CenterFormatArc(_)))));
    assert!(matches!(token_type("X0 Y1 R2"), Ok(("", TokenType::RadiusFormatArc(_)))));
    assert!(matches!(token_type("X0 Y1 Z2"), Ok(("", TokenType::Coord(_)))));
    assert!(matches!(token_type("%"), Ok(("", TokenType::ProgramDelimiter))));
}

#[test]
fn comment_forms() {
    assert_eq!(comment("  ( a (b ) rest"), Ok((" rest", Comment { text: "a (b".to_string() })));
    assert_eq!(comment("; note \nG0"), Ok(("\nG0", Comment { text: "note".to_string() })));
    assert!(comment("; no line feed").is_err());
}

#[test]
fn trimming_takes_unicode_white_space() {
    assert_eq!(gcode_parser::text::trim("\u{3000} a b\u{a0}\t"), "a b");
    assert_eq!(gcode_parser::text::trim("  "), "");
    assert_eq!(gcode_parser::text::trim("é"), "é");
    assert_eq!(comment("(\u{2003}note\u{85})"), Ok(("", Comment { text: "note".to_string() })));
}
