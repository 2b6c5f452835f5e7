//! A minimal command-line argument parser.
//!
//! A `Clappers` value is configured with the argument shapes a program cares
//! about — flags, single-value options and multi-value options, each declared
//! as `|`-separated alias lists such as `"h|help"` — and then run once over a
//! raw token sequence.  Afterwards four read-only queries report which flags
//! were seen, which value a single-value option got, which values a
//! multi-value option accumulated, and which tokens were left over.
//!
//! Every operation carries a contract that pins its result down to a
//! mathematical model of the registry and the parse pass; the model and the
//! parsing algorithm live in [`model`].

pub mod laws;
pub mod model;
mod parser;
mod tables;

pub use parser::Clappers;
