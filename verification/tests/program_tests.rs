use gcode_parser::text::ParseError;
use gcode_parser::token::comment::Comment;
use gcode_parser::token::coord::Coord;
use gcode_parser::tokenizer::gcode::GCode;
use gcode_parser::tokenizer::{
    block_delete, program, token, tokens, MCode, OtherCode, SpindleRotation, Token, Tokenizer,
};
use gcode_parser::value::{Decimal, Value};

fn dec(text: &str) -> Decimal {
    let (negative, digits) = match text.strip_prefix('-') {
        Some(rest) => (true, rest),
        None => (false, text),
    };
    let (int, frac) = match digits.split_once('.') {
        Some((a, b)) => (a, b),
        None => (digits, ""),
    };
    let int = int.trim_start_matches('0');
    let frac = frac.trim_end_matches('0');
    Decimal {
        negative: negative && !(int.is_empty() && frac.is_empty()),
        integer: int.as_bytes().to_vec(),
        fraction: frac.as_bytes().to_vec(),
    }
}

fn lit(text: &str) -> Option<Value> {
    Some(Value::Literal(dec(text)))
}

#[test]
fn a_program_between_percent_markers() {
    let text = "%\nG0 X1 Y2\n/ M3\n(comment)\nT2\n%\n";
    assert_eq!(
        program(text),
        Ok((
            "",
            vec![
                Token::GCode(GCode::RapidMove),
                Token::Coord(Coord { x: lit("1"), y: lit("2"), ..Coord::default() }),
                Token::BlockDelete(vec![Token::MCode(MCode::SpindleRotation(SpindleRotation::Cw))]),
                Token::Comment(Comment { text: "comment".to_string() }),
                Token::OtherCode(OtherCode::ToolSelect(2)),
            ]
        ))
    );
    assert_eq!(Tokenizer::new_from_str(text).tokenize(), program(text));
}

#[test]
fn a_program_without_markers_stops_before_what_it_cannot_read() {
    assert_eq!(program("G1\nM2"), Ok(("", vec![Token::GCode(GCode::LinearMove), Token::MCode(MCode::EndProgram)])));
    assert_eq!(program("G1 !G0"), Ok(("!G0", vec![Token::GCode(GCode::LinearMove)])));
    assert_eq!(program(""), Ok(("", vec![])));
    assert_eq!(tokens("  "), Ok(("", vec![])));
}

#[test]
fn lines_to_delete() {
    assert_eq!(
        block_delete("/G0 X1\r\nG1"),
        Ok(("G1", Token::BlockDelete(vec![
            Token::GCode(GCode::RapidMove),
            Token::Coord(Coord { x: lit("1"), ..Coord::default() }),
        ])))
    );
    assert_eq!(block_delete("/\n"), Ok(("", Token::BlockDelete(vec![]))));
    // The line needs its line ending.
    assert_eq!(block_delete("/G0"), Err(ParseError));
    assert_eq!(block_delete("G0\n"), Err(ParseError));
    assert_eq!(token("/M5\n"), Ok(("", Token::BlockDelete(vec![Token::MCode(MCode::SpindleRotation(SpindleRotation::Stop))]))));
}
