//! A parser for screenplays written in the Fountain plain-text markup.
//!
//! The crate splits a document into position-tagged lines, assigns a
//! screenplay element type to every line, and resolves the invisible ranges
//! (notes and boneyards) that may span several lines.

pub mod fountain_enums;
pub mod fountain_line;
pub mod fountain_partial_line_range;
pub mod helper_funcs;
pub mod location_and_length;
pub mod partial_line_resolver;
pub mod static_fountain_parser;
pub mod text;
