//! A parser-combinator toolkit: primitive matchers (literal, single-character
//! predicate, predicate run, quoted string) and combinators (sequence,
//! alternative, repetition, mapping) that compose into recursive-descent
//! parsers.  Every parser carries a mathematical model of its behaviour
//! (`Parser::spec_result`), and `parse` is proved to return exactly what the
//! model says, for every input.

pub mod errors;
pub mod parsers;
pub mod traits;
pub mod type_alias;
