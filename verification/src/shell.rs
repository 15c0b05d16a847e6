//! The narrow interfaces the shell core is built around: the lexer,
//! interpreter, command-provider and per-command traits the components
//! implement, and the host capability trait through which all process,
//! filesystem and environment effects are reached.
//!
//! The host trait carries no contract: what an environment variable holds,
//! whether a file exists or what a spawned process prints depends on the
//! machine, so nothing is assumed of it; every caller states only what
//! holds whatever the host answers.
use crate::tokenizer::token::LexError;
use crate::util::error::ShellError;
use crate::util::output::CapturedOutput;
use vstd::prelude::*;

verus! {

/// The host process/filesystem capability: environment variables, file
/// probes and transfers, the working directory, and synchronous process
/// execution. Implemented outside the core, next to `main`.
pub trait ShellHost {
    /// The value of the named environment variable, if set.
    fn env_var(name: &str) -> Option<String>;

    /// Whether a file exists at the given path.
    fn file_exists(path: &str) -> bool;

    /// Changes the working directory; `true` on success.
    fn set_current_dir(path: &str) -> bool;

    /// The current working directory, when it can be read.
    fn current_dir() -> Option<String>;

    /// Runs the executable to completion with the given arguments and
    /// captures its exit status and both output streams.
    fn spawn(cmd: &str, args: &Vec<String>) -> Result<CapturedOutput, ShellError>;

    /// The contents of the file at the path, or `None` when it cannot be
    /// read.
    fn read_file(path: &str) -> Option<Vec<u8>>;

    /// Writes the bytes to the path, replacing what was there.
    fn write_file(path: &str, data: &Vec<u8>) -> Result<(), ShellError>;
}

/// A lexer: splits one input line into tokens.
pub trait ShellTokenizer<T> {
    /// Tokenizes one input line into a flat token sequence.
    fn tokenize(input: &str) -> Result<Vec<T>, LexError>;
}

/// An interpreter: routes a token sequence to a builtin or an external
/// executable and returns the response bytes.
pub trait ShellInterpreter<T> {
    /// Dispatches one tokenized line.
    fn run<CP: ShellCommandProvider<T>, H: ShellHost>(tokens: &[T]) -> Result<Vec<u8>, ShellError>;
}

/// A registry of builtin commands, resolved by name.
pub trait ShellCommandProvider<T> {
    /// Runs the named builtin against the tokens.
    fn run<H: ShellHost>(cmd: &str, tokens: &[T]) -> Result<String, ShellError>;

    /// The names of the supported builtins.
    fn get_commands() -> Vec<String>;
}

/// One builtin command.
pub trait ShellCommand<T> {
    /// Runs the builtin against the full token sequence of the line.
    fn run<H: ShellHost>(tokens: &[T]) -> Result<String, ShellError>;
}

} // verus!
