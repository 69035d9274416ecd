//! Translation of a user-typed ffmpeg preset string into the argument lists
//! handed to ffmpeg before and after its input.
//!
//! A preset is either predefined (a codec, an optional hardware acceleration
//! and a quality tier, checked against a catalog of supported combinations)
//! or custom (shell-style arguments passed on as they are).

pub mod axes;
pub mod preset;
pub mod args;
pub mod parse;
pub mod laws;
