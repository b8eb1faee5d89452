use gcode_parser::tokenizer::gcode::GCode;
use gcode_parser::tokenizer::{
    canned_cycle, ccw_arc, coordinate_system_offset, cw_arc, dwell, feedrate, gcode, global_move,
    linear_move, othercode, path_blending, preceded_u32, rapid_move, spindle_speed,
    take_until_line_ending, tool_number, OtherCode, PathBlendingMode, Plane, Units,
};
use gcode_parser::text::ParseError;
use gcode_parser::value::{Decimal, Value};

/// The canonical decimal written as `text` (test-side construction, by hand).
fn dec(text: &str) -> Decimal {
    let (negative, digits) = match text.strip_prefix('-') {
        Some(rest) => (true, rest),
        None => (false, text),
    };
    let (int, frac) = match digits.split_once('.') {
        Some((a, b)) => (a, b),
        None => (digits, ""),
    };
    let int = int.trim_start_matches('0');
    let frac = frac.trim_end_matches('0');
    Decimal {
        negative: negative && !(int.is_empty() && frac.is_empty()),
        integer: int.as_bytes().to_vec(),
        fraction: frac.as_bytes().to_vec(),
    }
}

fn num(text: &str) -> Value {
    Value::Literal(dec(text))
}

fn check_token(to_check: Result<(&str, GCode), ParseError>, against: GCode) {
    assert_eq!(to_check, Ok(("", against)))
}

fn check_other(to_check: Result<(&str, OtherCode), ParseError>, against: OtherCode) {
    assert_eq!(to_check, Ok(("", against)))
}

fn check_dwells() {
    check_token(dwell("G04 P10"), GCode::Dwell(num("10")));
    check_token(dwell("G04 P3"), GCode::Dwell(num("3")));
    check_token(dwell("G04 P0.5"), GCode::Dwell(num("0.5")));
    check_token(dwell("G4 P0.5"), GCode::Dwell(num("0.5")));
    check_token(dwell("g4p0.5"), GCode::Dwell(num("0.5")));
}

#[test]
fn gcodes_it_parses_dwells() {
    check_dwells();
}

#[test]
fn g4_dwell_it_parses_dwells() {
    check_dwells();
}

fn check_rapids() {
    check_token(rapid_move("G0"), GCode::RapidMove);
    check_token(rapid_move("G00"), GCode::RapidMove);
}

#[test]
fn gcodes_it_parses_rapids() {
    check_rapids();
}

#[test]
fn g0_rapid_move_it_parses_rapids() {
    check_rapids();
}

fn check_linear_moves() {
    check_token(linear_move("G1"), GCode::LinearMove);
    check_token(linear_move("G01"), GCode::LinearMove);
}

#[test]
fn gcodes_it_parses_linear_moves() {
    check_linear_moves();
}

#[test]
fn g1_linear_move_it_parses_linear_moves() {
    check_linear_moves();
}

#[test]
fn gcodes_it_parses_arcs() {
    check_token(cw_arc("G2"), GCode::ClockwiseArc);
    check_token(cw_arc("G02"), GCode::ClockwiseArc);
    check_token(ccw_arc("G3"), GCode::CounterclockwiseArc);
    check_token(ccw_arc("G03"), GCode::CounterclockwiseArc);
}

#[test]
fn g2_g3_arc_it_parses_arcs() {
    use_arc_word("G2", GCode::ClockwiseArc);
    use_arc_word("G02", GCode::ClockwiseArc);
    use_arc_word("G3", GCode::CounterclockwiseArc);
    use_arc_word("G03", GCode::CounterclockwiseArc);
}

fn use_arc_word(text: &str, against: GCode) {
    check_token(gcode_parser::tokenizer::gcode::arc(text), against);
}

fn check_blending_mode() {
    check_token(path_blending("G64"), GCode::PathBlendingMode(PathBlendingMode::Blended((None, None))));
    check_token(
        path_blending("G64 P0.01"),
        GCode::PathBlendingMode(PathBlendingMode::Blended((Some(num("0.01")), None))),
    );
    check_token(
        path_blending("G64 P0.01 Q0.02"),
        GCode::PathBlendingMode(PathBlendingMode::Blended((Some(num("0.01")), Some(num("0.02"))))),
    );
}

#[test]
fn gcodes_it_parses_blending_mode() {
    check_blending_mode();
}

#[test]
fn g61_g64_path_blending_it_parses_blending_mode() {
    check_blending_mode();
}

#[test]
fn gcodes_it_parses_canned_cycles() {
    check_token(canned_cycle("G80"), GCode::CancelCannedCycle);
}

#[test]
fn g80_canned_cycle_it_parses_canned_cycles() {
    check_token(canned_cycle("G80"), GCode::CancelCannedCycle);
}

#[test]
fn it_parses_global_moves() {
    check_token(global_move("G53"), GCode::GlobalMove);
}

#[test]
fn it_parses_coord_system_hard_resets() {
    check_token(coordinate_system_offset("G92.1"), GCode::CoordinateSystemOffsetHardReset);
}

#[test]
fn it_parses_coord_system_soft_resets() {
    check_token(coordinate_system_offset("G92.2"), GCode::CoordinateSystemOffsetSoftReset);
}

#[test]
fn it_takes_until_any_line_ending() {
    assert_eq!(
        take_until_line_ending(b"Unix line endings\n"),
        Ok((&b"\n"[..], &b"Unix line endings"[..]))
    );
    assert_eq!(
        take_until_line_ending(b"Windows line endings\r\n"),
        Ok((&b"\r\n"[..], &b"Windows line endings"[..]))
    );
}

#[test]
fn it_parses_preceded_unsigned_integers() {
    assert_eq!(preceded_u32(b"x123", "X"), Ok((&b""[..], 123u32)));
    assert_eq!(preceded_u32(b"X123", "X"), Ok((&b""[..], 123u32)));

    assert!(preceded_u32(b"y-123", "Y").is_err());
    assert!(preceded_u32(b"Y-123", "Y").is_err());
}

#[test]
fn it_parses_feed_rate() {
    check_other(feedrate("F100"), OtherCode::FeedRate(dec("100")));
    check_other(feedrate("F36.4"), OtherCode::FeedRate(dec("36.4")));
    check_other(feedrate("F-200"), OtherCode::FeedRate(dec("-200")));
}

#[test]
fn it_parses_spindle_speed() {
    check_other(spindle_speed("S0"), OtherCode::SpindleSpeed(0i32));
    check_other(spindle_speed("S1000"), OtherCode::SpindleSpeed(1000i32));
    check_other(spindle_speed("S-250"), OtherCode::SpindleSpeed(-250i32));
}

#[test]
fn it_parses_tool_number() {
    check_other(tool_number("T0"), OtherCode::ToolSelect(0u32));
    check_other(tool_number("T99"), OtherCode::ToolSelect(99u32));
}

#[test]
fn the_gcode_table_tries_each_entry() {
    check_token(gcode("G0"), GCode::RapidMove);
    check_token(gcode("g1"), GCode::LinearMove);
    check_token(gcode("G3"), GCode::CounterclockwiseArc);
    check_token(gcode("G17"), GCode::PlaneSelect(Plane::Xy));
    check_token(gcode("G19.1"), GCode::PlaneSelect(Plane::Vw));
    check_token(gcode("G21"), GCode::Units(Units::Mm));
    check_token(gcode("G4 P2"), GCode::Dwell(num("2")));
    check_token(gcode("G53"), GCode::GlobalMove);
    check_token(gcode("G61"), GCode::PathBlendingMode(PathBlendingMode::ExactPath));
    check_token(gcode("G80"), GCode::CancelCannedCycle);
    check_token(gcode("G92"), GCode::CoordinateSystemOffset);
    check_token(gcode("G 92.2"), GCode::CoordinateSystemOffsetSoftReset);
    assert_eq!(gcode("G99"), Err(ParseError));
    assert_eq!(gcode("M3"), Err(ParseError));
}

#[test]
fn the_gcode_table_takes_the_first_entry_that_reads_a_word() {
    // `G0` is read as a rapid move before anything else gets to look at the number.
    assert_eq!(gcode("G0.5"), Ok((".5", GCode::RapidMove)));
    assert_eq!(gcode("G1 X2"), Ok((" X2", GCode::LinearMove)));
}

#[test]
fn a_dwell_needs_its_time() {
    assert_eq!(dwell("G4"), Err(ParseError));
    assert_eq!(dwell("G5 P1"), Err(ParseError));
    check_token(dwell("G4 P#3"), GCode::Dwell(Value::Parameter(gcode_parser::value::Parameter::Numbered(3))));
}

#[test]
fn blending_tolerances_come_in_order() {
    // Either tolerance may be left out; a `Q` alone is the second one.
    check_token(
        path_blending("G64 Q0.02"),
        GCode::PathBlendingMode(PathBlendingMode::Blended((None, Some(num("0.02"))))),
    );
    assert_eq!(
        path_blending("G64 Q1 P2"),
        Ok(("P2", GCode::PathBlendingMode(PathBlendingMode::Blended((None, Some(num("1")))))))
    );
    assert_eq!(path_blending("G63"), Err(ParseError));
}

#[test]
fn other_codes_and_their_limits() {
    check_other(spindle_speed("S-2147483648"), OtherCode::SpindleSpeed(i32::MIN));
    check_other(spindle_speed("S+2147483647"), OtherCode::SpindleSpeed(i32::MAX));
    assert_eq!(spindle_speed("S2147483648"), Err(ParseError));
    assert_eq!(tool_number("T4294967296"), Err(ParseError));
    assert_eq!(tool_number("T-1"), Err(ParseError));
    check_other(feedrate("f 12.50"), OtherCode::FeedRate(dec("12.5")));
    check_other(othercode("t7"), OtherCode::ToolSelect(7));
    check_other(othercode("S12"), OtherCode::SpindleSpeed(12));
    check_other(othercode("F3"), OtherCode::FeedRate(dec("3")));
    assert_eq!(othercode("X3"), Err(ParseError));
}

#[test]
fn line_endings_and_prefixes_at_their_edges() {
    // A `\r\n` anywhere wins over an earlier lone `\n`.
    assert_eq!(take_until_line_ending(b"a\nb\r\n"), Ok((&b"\r\n"[..], &b"a\nb"[..])));
    assert_eq!(take_until_line_ending(b"\n"), Ok((&b"\n"[..], &b""[..])));
    assert_eq!(take_until_line_ending(b"no ending"), Err(ParseError));
    assert_eq!(preceded_u32(b"G54 X", "g"), Ok((&b" X"[..], 54u32)));
    assert_eq!(preceded_u32(b"X4294967296", "X"), Err(ParseError));
    assert_eq!(preceded_u32(b"X", "X"), Err(ParseError));
}

#[test]
fn words_that_bring_their_whitespace_take_it_along() {
    check_token(dwell(" G4\r\nP1 \n"), GCode::Dwell(num("1")));
    check_token(coordinate_system_offset("\tG 92.1 "), GCode::CoordinateSystemOffsetHardReset);
    check_token(
        path_blending(" G64\nP1\tQ2\n"),
        GCode::PathBlendingMode(PathBlendingMode::Blended((Some(num("1")), Some(num("2"))))),
    );
    check_token(path_blending("G64 "), GCode::PathBlendingMode(PathBlendingMode::Blended((None, None))));
    check_other(feedrate(" F 7 "), OtherCode::FeedRate(dec("7")));
    // Words read without their own whitespace leave it in the rest.
    assert_eq!(rapid_move("G0 "), Ok((" ", GCode::RapidMove)));
    assert_eq!(path_blending("G61 "), Ok((" ", GCode::PathBlendingMode(PathBlendingMode::ExactPath))));
    assert_eq!(path_blending(" G61"), Err(ParseError));
    assert_eq!(tool_number(" T1"), Err(ParseError));
}
