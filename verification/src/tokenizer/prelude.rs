//! The types of the word-table token set, in one place.
pub use super::arc::CenterArc;
pub use super::gcode::{GCode, PathBlendingMode};
pub use super::gcodes::{
    CutterCompensation, DistanceMode, FeedrateMode, Plane, ToolLengthCompensation, Units,
    WorkOffset,
};
pub use super::mcodes::{Coolant, MCode, SpindleRotation};
pub use crate::value::{Parameter, Value};
pub use super::program::{ProgramTokens, Token};
