//! The five builtin commands.
pub mod cd;
pub mod echo;
pub mod exit;
pub mod pwd;
pub mod type_;
