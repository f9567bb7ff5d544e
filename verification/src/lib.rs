//! A rule-driven output generator.
//!
//! A rule pairs a divisibility condition with a text fragment. For a given
//! integer, the fragments of the satisfied rules are folded into a linear
//! program of output instructions through a hole-bearing composer, and the
//! closed program renders either the fragments in rule order or, when no rule
//! matches, the decimal form of the number itself.

pub mod compile;
pub mod hole;
pub mod instr;
pub mod laws;
pub mod program;
pub mod rules;

pub use program::Program;
pub use rules::Condition;
pub use rules::Rule;
pub use rules::satisfy;
