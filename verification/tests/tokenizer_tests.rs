use gcode_parser::token::coord::Coord;
use gcode_parser::tokenizer::mcodes::{end_program, modal_state, pause, tool_change, user_command};
use gcode_parser::tokenizer::{
    arc, center_arc, coolant, cutter_compensation, distance_mode, feedrate_mode, lathe_measurement_mode,
    mcode, one_of_no_case, plane_select, predefined_position, spindle_rotation, straight_probe,
    radius_arc, tool_length_compensation, units, work_offset, Arc, CenterArc, Coolant, CutterCompensation,
    DistanceMode, FeedrateMode, LatheMeasurementMode, MCode, Plane, PredefinedPosition,
    PredefinedPositionCommand, RadiusArc, SpindleRotation, StraightProbe, ToolLengthCompensation,
    Units, WorkOffset,
};
use gcode_parser::value::{Decimal, UnsignedValue, Value};

/// The canonical decimal written as `text` (test-side construction, by hand).
fn dec(text: &str) -> Decimal {
    let (negative, digits) = match text.strip_prefix('-') {
        Some(rest) => (true, rest),
        None => (false, text),
    };
    let (int, frac) = match digits.split_once('.') {
        Some((a, b)) => (a, b),
        None => (digits, ""),
    };
    let int = int.trim_start_matches('0');
    let frac = frac.trim_end_matches('0');
    Decimal {
        negative: negative && !(int.is_empty() && frac.is_empty()),
        integer: int.as_bytes().to_vec(),
        fraction: frac.as_bytes().to_vec(),
    }
}

fn lit(text: &str) -> Option<Value> {
    Some(Value::Literal(dec(text)))
}

fn center(arc: CenterArc) -> Result<(&'static str, Arc), gcode_parser::text::ParseError> {
    Ok(("", Arc::Center(arc)))
}

#[test]
fn it_ignores_linear_moves() {
    assert!(arc("X0Y0Z0").is_err());
    assert!(arc("Y0Z0").is_err());
}

#[test]
fn it_handles_no_whitespace() {
    assert_eq!(
        arc("X5.0417Y1.9427I-0.3979J0.3028"),
        center(CenterArc {
            x: lit("5.0417"),
            y: lit("1.9427"),
            k: None,
            i: lit("-0.3979"),
            j: lit("0.3028"),
            z: None,
            p: None,
        })
    );
}

#[test]
fn it_parses_xy_center_format_arcs() {
    assert_eq!(
        arc("X1 Y2 I3 J4"),
        center(CenterArc {
            x: lit("1.0"),
            y: lit("2.0"),
            z: None,
            i: lit("3.0"),
            j: lit("4.0"),
            k: None,
            p: None,
        })
    );
    assert_eq!(
        arc("X1 Y2 Z5 I3 J4 P6"),
        center(CenterArc {
            x: lit("1.0"),
            y: lit("2.0"),
            z: lit("5.0"),
            i: lit("3.0"),
            j: lit("4.0"),
            k: None,
            p: Some(UnsignedValue::Literal(6)),
        })
    );
    assert_eq!(
        arc("X1 Y1 z 20 I20 J0"),
        center(CenterArc {
            x: lit("1.0"),
            y: lit("1.0"),
            z: lit("20.0"),
            i: lit("20.0"),
            j: lit("0.0"),
            k: None,
            p: None,
        })
    );
}

#[test]
fn it_parses_xz_center_format_arcs() {
    assert_eq!(
        arc("X1 Z2 I3 K4"),
        center(CenterArc {
            x: lit("1.0"),
            y: None,
            z: lit("2.0"),
            i: lit("3.0"),
            j: None,
            k: lit("4.0"),
            p: None,
        })
    );
    assert_eq!(
        arc("X1 Z2 Y5 I3 K4 P6"),
        center(CenterArc {
            x: lit("1.0"),
            y: lit("5.0"),
            z: lit("2.0"),
            i: lit("3.0"),
            j: None,
            k: lit("4.0"),
            p: Some(UnsignedValue::Literal(6)),
        })
    );
}

#[test]
fn it_parses_yz_center_format_arcs() {
    assert_eq!(
        arc("Y1 Z2 J3 K4"),
        center(CenterArc {
            x: None,
            y: lit("1.0"),
            z: lit("2.0"),
            i: None,
            j: lit("3.0"),
            k: lit("4.0"),
            p: None,
        })
    );
    assert_eq!(
        arc("Y1 Z2 X5 J3 K4 P6"),
        center(CenterArc {
            x: lit("5.0"),
            y: lit("1.0"),
            z: lit("2.0"),
            i: None,
            j: lit("3.0"),
            k: lit("4.0"),
            p: Some(UnsignedValue::Literal(6)),
        })
    );
    assert_eq!(
        arc("Y20.9595 Z-0.5838 I-1.5875 J0.0066"),
        center(CenterArc {
            x: None,
            y: lit("20.9595"),
            z: lit("-0.5838"),
            i: lit("-1.5875"),
            j: lit("0.0066"),
            k: None,
            p: None,
        })
    );
}

#[test]
fn it_parses_optional_coords() {
    assert_eq!(
        arc("i.5 j.5"),
        center(CenterArc { i: lit("0.5"), j: lit("0.5"), ..CenterArc::default() })
    );
}

#[test]
fn it_parses_radius_format_arcs() {
    assert_eq!(
        arc("r1.997999 x1.613302 y-1.178668"),
        Ok((
            "",
            Arc::Radius(RadiusArc {
                x: lit("1.613302"),
                y: lit("-1.178668"),
                r: lit("1.997999"),
                ..RadiusArc::default()
            })
        ))
    );
    assert_eq!(
        arc("X10 Y15 R20 Z5"),
        Ok((
            "",
            Arc::Radius(RadiusArc {
                x: lit("10.0"),
                y: lit("15.0"),
                z: lit("5.0"),
                r: lit("20.0"),
                ..RadiusArc::default()
            })
        ))
    );
}

fn check_plane_select() {
    assert_eq!(plane_select("G17"), Ok(("", Plane::Xy)));
    assert_eq!(plane_select("G18"), Ok(("", Plane::Zx)));
    assert_eq!(plane_select("G19"), Ok(("", Plane::Yz)));
    assert_eq!(plane_select("G17.1"), Ok(("", Plane::Uv)));
    assert_eq!(plane_select("G18.1"), Ok(("", Plane::Wu)));
    assert_eq!(plane_select("G19.1"), Ok(("", Plane::Vw)));
}

#[test]
fn gcodes_it_parses_plane_select() {
    check_plane_select();
}

#[test]
fn g17_g19_plane_select_it_parses_plane_select() {
    check_plane_select();
}

#[test]
fn gcodes_it_parses_work_offsets() {
    assert_eq!(work_offset("G54"), Ok(("", WorkOffset::G54)));
}

#[test]
fn g54_g55_work_offset_it_parses_work_offsets() {
    assert_eq!(work_offset("G54"), Ok(("", WorkOffset::G54)));
    assert_eq!(work_offset("G55"), Ok(("", WorkOffset::G55)));
}

#[test]
fn gcodes_it_parses_cutter_comp() {
    assert_eq!(cutter_compensation("G40"), Ok(("", CutterCompensation::Off)));
}

#[test]
fn g40_g41_g42_cutter_compensation_it_parses_cutter_comp() {
    assert_eq!(cutter_compensation("G40"), Ok(("", CutterCompensation::Off)));
    assert_eq!(
        cutter_compensation("G41 D1"),
        Ok(("", CutterCompensation::Left(Some(UnsignedValue::Literal(1u32)))))
    );
    assert_eq!(
        cutter_compensation("G42 D1"),
        Ok(("", CutterCompensation::Right(Some(UnsignedValue::Literal(1u32)))))
    );
    assert_eq!(
        cutter_compensation("G42 D0"),
        Ok(("", CutterCompensation::Right(Some(UnsignedValue::Literal(0u32)))))
    );
    assert_eq!(cutter_compensation("G42"), Ok(("", CutterCompensation::Right(None))));
}

fn check_distance_mode() {
    assert_eq!(distance_mode("G90"), Ok(("", DistanceMode::Absolute)));
    assert_eq!(distance_mode("G91"), Ok(("", DistanceMode::Incremental)));
}

#[test]
fn gcodes_it_parses_distance_mode() {
    check_distance_mode();
}

#[test]
fn g90_g91_distance_mode_it_parses_distance_mode() {
    check_distance_mode();
}

fn check_units() {
    assert_eq!(units("G20"), Ok(("", Units::Inch)));
    assert_eq!(units("G21"), Ok(("", Units::Mm)));
}

#[test]
fn gcodes_it_parses_units() {
    check_units();
}

#[test]
fn g20_g21_units_it_parses_units() {
    check_units();
}

#[test]
fn it_goes_to_predefined_position() {
    assert_eq!(
        predefined_position("G28"),
        Ok(("", PredefinedPositionCommand::GoTo(PredefinedPosition::G28)))
    );
    assert_eq!(
        predefined_position("G30"),
        Ok(("", PredefinedPositionCommand::GoTo(PredefinedPosition::G30)))
    );
}

#[test]
fn it_stores_predefined_position() {
    assert_eq!(
        predefined_position("G28.1"),
        Ok(("", PredefinedPositionCommand::Store(PredefinedPosition::G28)))
    );
    assert_eq!(
        predefined_position("G30.1"),
        Ok(("", PredefinedPositionCommand::Store(PredefinedPosition::G30)))
    );
}

#[test]
fn it_parses_straight_probes() {
    let cases: Vec<(&str, StraightProbe)> = vec![
        ("G38.2 X10", StraightProbe::Towards(Coord { x: lit("10.0"), ..Coord::default() })),
        (
            "G38.3 Y10 Z10",
            StraightProbe::TowardsWithError(Coord {
                y: lit("10.0"),
                z: lit("10.0"),
                ..Coord::default()
            }),
        ),
        ("G38.4 X10", StraightProbe::Away(Coord { x: lit("10.0"), ..Coord::default() })),
        (
            "G38.5 Y10 Z10",
            StraightProbe::AwayWithError(Coord {
                y: lit("10.0"),
                z: lit("10.0"),
                ..Coord::default()
            }),
        ),
    ];
    for (test, expected) in cases {
        assert_eq!(straight_probe(test), Ok(("", expected)));
    }
}

#[test]
fn it_parses_dynamic_tool_length_offset() {
    assert_eq!(
        tool_length_compensation("G43.1 Z0.250"),
        Ok(("", ToolLengthCompensation::Dynamic(Coord { z: lit("0.250"), ..Coord::default() })))
    );
}

#[test]
fn it_parses_lathe_measurement_mode() {
    assert_eq!(lathe_measurement_mode("G7"), Ok(("", LatheMeasurementMode::Diameter)));
    assert_eq!(lathe_measurement_mode("G8"), Ok(("", LatheMeasurementMode::Radius)));
}

#[test]
fn it_parses_feedrate_mode() {
    assert_eq!(feedrate_mode("G93"), Ok(("", FeedrateMode::InverseTime)));
    assert_eq!(feedrate_mode("G94"), Ok(("", FeedrateMode::UnitsPerMinute)));
    assert_eq!(feedrate_mode("G95"), Ok(("", FeedrateMode::UnitsPerRevolution)));
}

fn check_pauses() {
    assert_eq!(mcode("M0"), Ok(("", MCode::Pause)));
    assert_eq!(mcode("M00"), Ok(("", MCode::Pause)));
    assert_eq!(mcode("M1"), Ok(("", MCode::OptionalPause)));
    assert_eq!(mcode("M01"), Ok(("", MCode::OptionalPause)));
}

#[test]
fn mcodes_it_parses_pauses() {
    check_pauses();
}

#[test]
fn m0_m1_pause_it_parses_pauses() {
    assert_eq!(pause("M0"), Ok(("", MCode::Pause)));
    assert_eq!(pause("M00"), Ok(("", MCode::Pause)));
    assert_eq!(pause("M1"), Ok(("", MCode::OptionalPause)));
    assert_eq!(pause("M01"), Ok(("", MCode::OptionalPause)));
}

fn check_coolant() {
    assert_eq!(coolant("M7"), Ok(("", Coolant::Mist)));
    assert_eq!(coolant("M8"), Ok(("", Coolant::Flood)));
    assert_eq!(coolant("M9"), Ok(("", Coolant::Off)));
}

#[test]
fn mcodes_it_parses_coolant() {
    check_coolant();
}

#[test]
fn m7_m8_m9_coolant_it_parses_coolant() {
    check_coolant();
}

fn check_spindle_rotation() {
    assert_eq!(spindle_rotation("M3"), Ok(("", SpindleRotation::Cw)));
    assert_eq!(spindle_rotation("M4"), Ok(("", SpindleRotation::Ccw)));
    assert_eq!(spindle_rotation("M5"), Ok(("", SpindleRotation::Stop)));
    // It does not take M30 for M3
    assert!(spindle_rotation("M30").is_err());
}

#[test]
fn mcodes_it_parses_spindle_rotation() {
    check_spindle_rotation();
}

#[test]
fn m3_m4_m5_spindle_rotation_it_parses_spindle_rotation() {
    check_spindle_rotation();
}

#[test]
fn mcodes_it_parses_tool_changes() {
    assert_eq!(tool_change("M6"), Ok(("", MCode::ToolChange)));
}

#[test]
fn m6_tool_change_it_parses_tool_changes() {
    assert_eq!(tool_change("M6"), Ok(("", MCode::ToolChange)));
}

fn check_end_program() {
    assert_eq!(mcode("M2"), Ok(("", MCode::EndProgram)));
    assert_eq!(mcode("M30"), Ok(("", MCode::EndProgram)));
}

#[test]
fn mcodes_it_parses_end_program() {
    check_end_program();
}

#[test]
fn m2_m30_end_program_it_parses_end_program() {
    assert_eq!(end_program("M2"), Ok(("", MCode::EndProgram)));
    assert_eq!(end_program("M30"), Ok(("", MCode::EndProgram)));
}

#[test]
fn user_commands_take_their_number() {
    assert_eq!(mcode("M100"), Ok(("", MCode::UserCommand(100))));
    assert_eq!(mcode("m199"), Ok(("", MCode::UserCommand(199))));
    assert_eq!(mcode("M70"), Ok(("", MCode::ModalStateSave)));
    assert_eq!(mcode("M73"), Ok(("", MCode::ModalStateAutoRestore)));
    assert_eq!(mcode("M3"), Ok(("", MCode::SpindleRotation(SpindleRotation::Cw))));
    assert_eq!(mcode("M8"), Ok(("", MCode::Coolant(Coolant::Flood))));
    assert!(mcode("M200").is_err());
    assert!(mcode("G1").is_err());
}

#[test]
fn one_of_no_case_takes_either_case() {
    assert_eq!(one_of_no_case(b"x1", "XYZ"), Ok((&b"1"[..], 'x')));
    assert_eq!(one_of_no_case(b"Z", "xyz"), Ok((&b""[..], 'Z')));
    assert!(one_of_no_case(b"A", "XYZ").is_err());
    assert!(one_of_no_case(b"", "XYZ").is_err());
}

#[test]
fn modal_words_with_their_own_whitespace() {
    assert_eq!(plane_select(" G 17.1\n"), Ok(("", Plane::Uv)));
    assert_eq!(cutter_compensation(" G41\tD1 "), Ok(("", CutterCompensation::Left(Some(UnsignedValue::Literal(1))))));
    assert_eq!(cutter_compensation("G42 "), Ok(("", CutterCompensation::Right(None))));
    // `G40` is read without whitespace of its own.
    assert_eq!(cutter_compensation("G40 "), Ok((" ", CutterCompensation::Off)));
    assert_eq!(cutter_compensation(" G40"), Err(gcode_parser::text::ParseError));
    assert_eq!(units(" G21"), Err(gcode_parser::text::ParseError));
    assert_eq!(
        tool_length_compensation(" G43.1\r\nZ1 "),
        Ok(("", ToolLengthCompensation::Dynamic(Coord { z: lit("1"), ..Coord::default() })))
    );
    assert_eq!(tool_length_compensation("G43 "), Ok((" ", ToolLengthCompensation::ToolNumberOffset)));
}

#[test]
fn arcs_take_the_whitespace_after_their_words() {
    let arc = center_arc("X1 Y1\nI1 ").unwrap();
    assert_eq!(arc.0, "");
    assert_eq!(arc.1.i, lit("1"));
    let arc = radius_arc("X1\tY1 R2\n").unwrap();
    assert_eq!(arc.0, "");
    assert_eq!(arc.1.r, lit("2"));
}

#[test]
fn each_entry_of_the_m_code_table_reads_its_own_words() {
    assert_eq!(user_command("M150"), Ok(("", MCode::UserCommand(150))));
    assert_eq!(user_command("M150.5"), Ok(("", MCode::UserCommand(150))));
    assert!(user_command("M99").is_err());
    assert!(user_command("M200").is_err());
    assert_eq!(modal_state("M72"), Ok(("", MCode::ModalStateRestore)));
    assert!(modal_state("M74").is_err());
    assert!(tool_change("M60").is_err());
    assert!(end_program("M3").is_err());
    assert!(pause("M2").is_err());
    assert_eq!(pause("M0.0"), Ok(("", MCode::Pause)));
    // The table and its entries agree.
    for text in ["M0", "M1", "M2", "M3", "M6", "M7", "M30", "M70", "M100", "M199"] {
        let entry = pause(text)
            .or_else(|_| user_command(text))
            .or_else(|_| end_program(text))
            .or_else(|_| spindle_rotation(text).map(|(rest, r)| (rest, MCode::SpindleRotation(r))))
            .or_else(|_| tool_change(text))
            .or_else(|_| modal_state(text))
            .or_else(|_| coolant(text).map(|(rest, c)| (rest, MCode::Coolant(c))));
        assert_eq!(mcode(text), entry);
    }
}
