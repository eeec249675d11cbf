//! Terminal output for a tool to practise programming puzzles.
//!
//! A statement that is written in a small markup is turned into styled text
//! ([`formatter`]), and the output of a solution is held against the output
//! that a test case asks for and shown as a difference, line by line and
//! within a line word by word ([`solution::diff`]). Both make whitespace
//! visible where it matters.
//!
//! Texts are modelled as sequences of characters. Every function says in its
//! contract which sequence it returns; nothing here reads or writes a file
//! or a terminal.

pub mod clash;
pub mod formatter;
pub mod markup;
pub mod outputstyle;
pub mod scan;
pub mod solution;
pub mod text;
