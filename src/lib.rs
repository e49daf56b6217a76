//! The bridge between a dependently typed language and the graph-reduction
//! evaluator that runs its type checker.
//!
//! Encoding turns a resolved book into the evaluator's rewrite rules: terms
//! in quoted or evaluated form, pattern rules as query and apply rules, and
//! per-entry metadata and coverage data for the checker program. Decoding
//! turns the evaluator's answers back into expressions and diagnostics.
pub mod book;
pub mod cli;
pub mod compile;
pub mod diagnostic;
pub mod encode;
pub mod expr;
pub mod ident;
pub mod lexer;
pub mod pat;
pub mod range;
pub mod report;
pub mod roundtrip;
pub mod tags;
pub mod term;
pub mod text;
