//! Verified core of a testing and fuzzing toolkit for Anchor programs:
//! the code generators that turn a program description into fuzzing
//! sources, and the small decisions taken by the command-line front end.

pub mod tester;
pub mod text;
pub mod idl;
pub mod syntax;
pub mod fuzzer_generator;
pub mod syntax_model;
pub mod source;
pub mod snapshot_generator;
pub mod fuzz_command;
