//! Constrained decoding for served text completions: which token ids a
//! language model may emit next, given what it has generated so far.

pub mod boundary;
pub mod cleanup;
pub mod config;
pub mod matcher;
pub mod policy;
pub mod request;
pub mod tokens;
