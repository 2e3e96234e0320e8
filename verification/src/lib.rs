//! Settings of a terminal emulator: colour-scheme presets, the settings
//! model, and the flat `key = value` text in which the settings are kept.
//!
//! - [`config`] holds the settings model, the catalogue of presets and the
//!   place of the settings file;
//! - [`color_schemes`] holds the colours of each built-in scheme;
//! - [`codec`] reads settings from the lines of a text and writes one scope
//!   of them into the lines, leaving every other line as it is;
//! - [`store`] does the same on a text as a whole;
//! - [`text`] and [`numeral`] hold what these need of characters, lines and
//!   numbers.

pub mod codec;
pub mod color_schemes;
pub mod config;
pub mod numeral;
pub mod store;
pub mod text;
