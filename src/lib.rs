//! Runs a program with a modified environment.
//!
//! The library holds the argument classifier: a pure function that splits the
//! raw argument list into environment edits (clear, unset, set) and the command
//! line of the child to run. Launching the child is left to the caller.
pub mod args;
pub mod laws;
pub mod text;
