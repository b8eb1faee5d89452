use gcode_parser::token::arc::{center_format_arc, CenterFormatArc};
use gcode_parser::token::comment::{comment, Comment};
use gcode_parser::token::coord::{coord, Coord};
use gcode_parser::token::gcode::{
    cutter_compensation, dwell, plane_select, work_offset, CutterCompensation, Dwell, PlaneSelect,
    WorkOffset,
};
use gcode_parser::token::mcode::{mcode, MCode};
use gcode_parser::token::othercode::{
    feedrate, raw_line_number, spindle_speed, tool_number, Feedrate, LineNumber, SpindleSpeed,
    ToolNumber,
};
use gcode_parser::token::polar::{polar, PolarCoord};
use gcode_parser::value::{Decimal, Parameter, UnsignedValue, Value};

/// The canonical decimal written as `text` (test-side construction, by hand).
fn dec(text: &str) -> Decimal {
    let (negative, digits) = match text.strip_prefix('-') {
        Some(rest) => (true, rest),
        None => (false, text),
    };
    let (int, frac) = match digits.split_once('.') {
        Some((a, b)) => (a, b),
        None => (digits, ""),
    };
    let int = int.trim_start_matches('0');
    let frac = frac.trim_end_matches('0');
    Decimal {
        negative: negative && !(int.is_empty() && frac.is_empty()),
        integer: int.as_bytes().to_vec(),
        fraction: frac.as_bytes().to_vec(),
    }
}

fn lit(text: &str) -> Value {
    Value::Literal(dec(text))
}

fn xyz(x: &str, y: &str, z: &str) -> Coord {
    Coord { x: Some(lit(x)), y: Some(lit(y)), z: Some(lit(z)), ..Coord::default() }
}

#[test]
fn parse_center_format_arc() {
    assert_eq!(
        center_format_arc("X0 Y1 I2 J3"),
        Ok((
            "",
            CenterFormatArc {
                x: Some(lit("0.0")),
                y: Some(lit("1.0")),
                i: Some(lit("2.0")),
                j: Some(lit("3.0")),
                ..CenterFormatArc::default()
            }
        ))
    );
}

#[test]
fn arc_center_format_arc_num_turns() {
    assert_eq!(
        center_format_arc("X0 Y1 I2 J3 P5"),
        Ok((
            "",
            CenterFormatArc {
                x: Some(lit("0.0")),
                y: Some(lit("1.0")),
                i: Some(lit("2.0")),
                j: Some(lit("3.0")),
                turns: UnsignedValue::Literal(5),
                ..CenterFormatArc::default()
            }
        ))
    );
}

#[test]
fn arc_arc_real_world() {
    assert_eq!(
        center_format_arc("X0 Y0 z 20 I20 J0"),
        Ok((
            "",
            CenterFormatArc {
                x: Some(lit("0.0")),
                y: Some(lit("0.0")),
                z: Some(lit("20.0")),
                i: Some(lit("20.0")),
                j: Some(lit("0.0")),
                ..CenterFormatArc::default()
            }
        ))
    );
    assert_eq!(
        center_format_arc("X-2.4438 Y-0.2048 I-0.0766 J0.2022"),
        Ok((
            "",
            CenterFormatArc {
                x: Some(lit("-2.4438")),
                y: Some(lit("-0.2048")),
                i: Some(lit("-0.0766")),
                j: Some(lit("0.2022")),
                ..CenterFormatArc::default()
            }
        ))
    );
}

#[test]
fn full_circle() {
    assert_eq!(
        center_format_arc("I -20"),
        Ok(("", CenterFormatArc { i: Some(lit("-20.0")), ..CenterFormatArc::default() }))
    );
}

#[test]
fn parse_parens_comment() {
    assert_eq!(
        comment("( some comment text )"),
        Ok(("", Comment { text: "some comment text".into() }))
    );
    assert_eq!(
        comment("(some comment text)"),
        Ok(("", Comment { text: "some comment text".into() }))
    );
}

#[test]
fn parse_line_comment() {
    assert_eq!(
        comment("; Some comment text\n"),
        Ok(("\n", Comment { text: "Some comment text".into() }))
    );
    assert_eq!(
        comment(";Some comment text\n"),
        Ok(("\n", Comment { text: "Some comment text".into() }))
    );
}

#[test]
fn parse_windows_line_endings() {
    assert_eq!(
        comment("; Some comment text\r\n"),
        Ok(("\n", Comment { text: "Some comment text".into() }))
    );
}

#[test]
fn parse_xxyz() {
    assert_eq!(
        coord("X0.0 X3.0 Y1.0 Z2.0"),
        Ok((" X3.0 Y1.0 Z2.0", Coord { x: Some(lit("0.0")), ..Coord::default() }))
    );
}

#[test]
fn parse_var() {
    assert_eq!(
        coord("X#3"),
        Ok(("", Coord { x: Some(Value::Parameter(Parameter::Numbered(3))), ..Coord::default() }))
    );
}

#[test]
fn parse_xyz() {
    assert_eq!(coord("X0.0 Y1.0 Z2.0"), Ok(("", xyz("0.0", "1.0", "2.0"))));
}

#[test]
fn parse_xyz_integer() {
    assert_eq!(coord("X0 Y1 Z2"), Ok(("", xyz("0.0", "1.0", "2.0"))));
}

#[test]
fn parse_wbx() {
    assert_eq!(
        coord("W0.0 B1.0 X2.0"),
        Ok((
            "",
            Coord {
                w: Some(lit("0.0")),
                b: Some(lit("1.0")),
                x: Some(lit("2.0")),
                ..Coord::default()
            }
        ))
    );
}

#[test]
fn parse_lowercase() {
    assert_eq!(coord("x0.0 y1.0 z2.0"), Ok(("", xyz("0.0", "1.0", "2.0"))));
}

#[test]
fn parse_lowercase_integers() {
    assert_eq!(coord("x12 y34 z56"), Ok(("", xyz("12.0", "34.0", "56.0"))));
}

#[test]
fn parse_no_whitespace() {
    assert_eq!(coord("x12y34z56"), Ok(("", xyz("12.0", "34.0", "56.0"))));
}

#[test]
fn parse_real_world() {
    assert_eq!(coord("X0 Y0 z 20"), Ok(("", xyz("0.0", "0.0", "20.0"))));
    assert_eq!(coord("Z5."), Ok(("", Coord { z: Some(lit("5.0")), ..Coord::default() })));
}

#[test]
fn parse_cutter_compensation() {
    assert_eq!(cutter_compensation("G40"), Ok(("", CutterCompensation::Off)));
    assert_eq!(cutter_compensation("G41"), Ok(("", CutterCompensation::Left(None))));
    assert_eq!(cutter_compensation("G42"), Ok(("", CutterCompensation::Right(None))));
}

#[test]
fn parse_offsets() {
    assert_eq!(
        cutter_compensation("G41 D5.0"),
        Ok(("", CutterCompensation::Left(Some(lit("5.0")))))
    );
    assert_eq!(
        cutter_compensation("G42d10.1"),
        Ok(("", CutterCompensation::Right(Some(lit("10.1")))))
    );
}

#[test]
fn dwell_decimal() {
    assert_eq!(dwell("G4 P0.01"), Ok(("", Dwell { time: lit("0.01") })));
}

#[test]
fn leading_zero() {
    assert_eq!(dwell("G04P3"), Ok(("", Dwell { time: lit("3.0") })));
}

#[test]
fn dwell_integer() {
    assert_eq!(dwell("G4 P3"), Ok(("", Dwell { time: lit("3.0") })));
}

#[test]
#[should_panic]
fn dwell_p_value_required() {
    dwell("G4").unwrap();
}

#[test]
fn parse_integer_plane_select() {
    assert_eq!(plane_select("G17"), Ok(("", PlaneSelect::XY)));
}

#[test]
fn parse_decimal_plane_select() {
    assert_eq!(plane_select("G17.1"), Ok(("", PlaneSelect::UV)));
}

#[test]
fn parse_integer_work_offset() {
    assert_eq!(work_offset("G54"), Ok(("", WorkOffset::G54)));
}

#[test]
fn parse_decimal_work_offset() {
    assert_eq!(work_offset("G59.1"), Ok(("", WorkOffset::G59_1)));
}

#[test]
fn parse_end_program() {
    assert_eq!(mcode("M2"), Ok(("", MCode::EndProgram)));
    assert_eq!(mcode("M02"), Ok(("", MCode::EndProgram)));
    assert_eq!(mcode("M30"), Ok(("", MCode::EndProgramSwapPallets)));
}

#[test]
fn parse_spindle_commands() {
    assert_eq!(mcode("M3"), Ok(("", MCode::SpindleForward)));
    assert_eq!(mcode("M4"), Ok(("", MCode::SpindleReverse)));
    assert_eq!(mcode("M5"), Ok(("", MCode::SpindleStop)));
}

#[test]
fn parse_feedrate_decimal() {
    assert_eq!(feedrate("F500.3"), Ok(("", Feedrate { feedrate: lit("500.3") })));
}

#[test]
fn parse_feedrate() {
    assert_eq!(feedrate("f500"), Ok(("", Feedrate { feedrate: lit("500.0") })));
}

#[test]
fn parse_spindle_rpm() {
    assert_eq!(spindle_speed("S1000"), Ok(("", SpindleSpeed { rpm: lit("1000.0") })));
    assert_eq!(spindle_speed("S1234.5678"), Ok(("", SpindleSpeed { rpm: lit("1234.5678") })));
}

#[test]
fn parse_tool_number() {
    assert_eq!(
        tool_number("T32"),
        Ok(("", ToolNumber { tool_number: UnsignedValue::Literal(32) }))
    );
}

#[test]
fn parse_line_number() {
    assert_eq!(raw_line_number("N1234"), Ok(("", LineNumber { line_number: 1234u32 })));
}

#[test]
fn parse_no_trailing_number() {
    assert_eq!(feedrate("F5."), Ok(("", Feedrate { feedrate: lit("5.0") })));
}

#[test]
fn parse_space_sep_spindle() {
    assert_eq!(
        spindle_speed("s #<rpm> m3 (spindle cw)"),
        Ok((
            " m3 (spindle cw)",
            SpindleSpeed { rpm: Value::Parameter(Parameter::Local("rpm".to_string())) }
        ))
    );
}

#[test]
fn parse_space_sep() {
    assert_eq!(
        feedrate("f #<feedrate>"),
        Ok(("", Feedrate { feedrate: Value::Parameter(Parameter::Local("feedrate".to_string())) }))
    );
}

#[test]
fn parse_polar() {
    assert_eq!(
        polar("@.5 ^90"),
        Ok(("", PolarCoord { distance: Some(lit("0.5")), angle: Some(lit("90.0")) }))
    );
}

#[test]
fn parse_polar_optional() {
    assert_eq!(polar("@.5"), Ok(("", PolarCoord { distance: Some(lit("0.5")), angle: None })));
    assert_eq!(polar("^90"), Ok(("", PolarCoord { distance: None, angle: Some(lit("90.0")) })));
}

#[test]
fn parse_polar_empty() {
    assert!(polar("").is_err());
}

#[test]
fn backwards_center_format() {
    assert_eq!(
        center_format_arc("I-2.070552 J-7.727407 X36.817108 Y-8.797959 Z-3.500000"),
        Ok((
            "",
            CenterFormatArc {
                x: Some(lit("36.817108")),
                y: Some(lit("-8.797959")),
                z: Some(lit("-3.500000")),
                i: Some(lit("-2.070552")),
                j: Some(lit("-7.727407")),
                ..CenterFormatArc::default()
            }
        ))
    );
}

#[test]
fn center_format_words_in_any_order_each_once() {
    let arc = center_format_arc("P3 j1 X2").unwrap();
    assert_eq!(arc.0, "");
    assert_eq!(arc.1.j, Some(lit("1")));
    assert_eq!(arc.1.x, Some(lit("2")));
    assert_eq!(arc.1.turns, gcode_parser::value::UnsignedValue::Literal(3));
    // A repeated word ends the arc; what follows stays in the rest.
    let arc = center_format_arc("I1 X2 I3").unwrap();
    assert_eq!(arc.0, "I3");
    assert_eq!(arc.1.i, Some(lit("1")));
    assert!(center_format_arc("X1 Y2 P3").is_err());
}
