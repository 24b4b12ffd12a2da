//! A command-line file-format converter: extension-driven dispatch to
//! format-specific converters, argument parsing and settings handling.

pub mod arguments;
pub mod converters;
pub mod dispatcher;
pub mod errors;
pub mod path;
pub mod requirements;
pub mod results;
pub mod settings;
pub mod text;
