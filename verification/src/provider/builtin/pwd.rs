//! The `pwd` builtin: reports the host's working directory.
use crate::shell::ShellCommand;
use crate::shell::ShellHost;
use crate::tokenizer::token::Token;
use crate::util::error::ShellError;
use vstd::prelude::*;
use vstd::string::StringExecFns;

verus! {

/// The `pwd` builtin.
pub struct Pwd {}

impl ShellCommand<Token> for Pwd {
    /// Answers with whatever the host names as the working directory; when
    /// the host cannot read it, the command fails.
    fn run<H: ShellHost>(_tokens: &[Token]) -> (r: Result<String, ShellError>)
        ensures
            r matches Err(e) ==> (e matches ShellError::InvalidData(m) && m@
                == "failed to get current directory"@),
    {
        match H::current_dir() {
            Option::Some(path) => Ok(path),
            Option::None => Err(
                ShellError::InvalidData(String::from_str("failed to get current directory")),
            ),
        }
    }
}

} // verus!
