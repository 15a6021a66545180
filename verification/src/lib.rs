//! A verified interpreter for a minimal Turing-machine description language.
//!
//! A program is a whitespace-separated rule table; a tape is a
//! whitespace-separated list of cell symbols.  The machine applies the first
//! rule that matches its current state and the symbol under the head, one
//! rule per step, until no rule matches.

pub mod machine;
pub mod model;
pub mod parse;
pub mod token;
