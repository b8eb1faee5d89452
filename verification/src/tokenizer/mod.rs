//! Word tables of G-code: each modal group of G- and M-codes as an enum of its own, with
//! a parser that reads one word of the group; the whole G- and M-code tables; tool number,
//! spindle speed and feed rate words; bracketed expressions; lettered arcs; and whole
//! programs of these tokens.
pub mod arc;
pub mod expression;
pub mod gcode;
pub mod gcodes;
pub mod helpers;
pub mod mcodes;
pub mod othercodes;
pub mod prelude;
pub mod program;

pub use self::arc::{arc, center_arc, radius_arc, Arc, CenterArc, RadiusArc};
pub use self::gcodes::{
    cutter_compensation, distance_mode, feedrate_mode, lathe_measurement_mode, plane_select,
    predefined_position, straight_probe, tool_length_compensation, units, work_offset,
    CutterCompensation, DistanceMode, FeedrateMode, LatheMeasurementMode, Plane,
    PredefinedPosition, PredefinedPositionCommand, StraightProbe, ToolLengthCompensation, Units,
    WorkOffset,
};
pub use self::gcode::{
    canned_cycle, ccw_arc, coordinate_system_offset, cw_arc, dwell, gcode, global_move,
    linear_move, path_blending, rapid_move, GCode, PathBlendingMode,
};
pub use self::helpers::{one_of_no_case, preceded_u32, take_until_line_ending};
pub use self::mcodes::{
    coolant, end_program, mcode, modal_state, pause, spindle_rotation, tool_change, user_command,
    Coolant, MCode, SpindleRotation,
};
pub use self::othercodes::{feedrate, othercode, spindle_speed, tool_number, OtherCode};
pub use self::program::{block_delete, program, token, tokens, ProgramTokens, Token, Tokenizer};
