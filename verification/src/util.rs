//! Small shared pieces: the shell's error type and helpers around captured
//! process output and executable lookup.
pub mod error;
pub mod output;
pub mod path;
