//! A parser-combinator engine.
//!
//! Small matchers (a literal text, a regular expression, fixed and bounded
//! repetition, alternation, sequencing, transformation) are composed into a
//! tree, and the tree is evaluated against an input text: it accepts a
//! prefix and leaves the rest, or fails and says what was left.
//!
//! * [`parser`] holds the tree as it is built: the node kinds, the builders,
//!   evaluation and the printed outline.
//! * [`shape`] is the mathematical model of a tree and defines what
//!   evaluation comes to; [`render`] defines its outline.
//! * [`outcome`] holds the verdicts of an evaluation.
//! * [`pattern`], [`encoding`] and [`transform`] are where the engine meets
//!   regular expressions, the list notation of composite results, and
//!   user-supplied functions.
//! * [`text`] relates texts to the byte offsets of their UTF-8 form.
//! * [`laws`] states what holds of every tree and every input.

pub mod text;
pub mod pattern;
pub mod encoding;
pub mod transform;
pub mod outcome;
pub mod shape;
pub mod render;
pub mod parser;
pub mod laws;

pub use crate::outcome::Outcome;
pub use crate::parser::{Parser, ParserKind};
