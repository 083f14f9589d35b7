//! Core decision points of a log-output pipeline: a size-limit expression
//! parser feeding a size-based rotation trigger, and a style model rendered
//! as ANSI escape sequences by a style-aware byte writer.

pub mod ansi;
pub mod encode;
pub mod size;
pub mod style;
