//! The `exit` builtin: the one command that terminates the shell, and only
//! when invoked as `exit 0`.
use crate::shell::ShellCommand;
use crate::shell::ShellHost;
use crate::tokenizer::parser::token_views;
use crate::tokenizer::token::spec_serialize;
use crate::tokenizer::token::SpecToken;
use crate::tokenizer::token::Token;
use crate::util::error::ShellError;
use vstd::prelude::*;
use vstd::string::StringExecFns;

verus! {

/// The `exit` builtin.
pub struct Exit {}

impl ShellCommand<Token> for Exit {
    /// With the single argument `0` this reports the `Interrupted`
    /// condition, the control-flow signal the surrounding read loop
    /// terminates on; any other invocation is refused as not-found.
    fn run<H: ShellHost>(tokens: &[Token]) -> (r: Result<String, ShellError>)
        ensures
            (tokens@.len() > 2 && tokens@[2]@ == SpecToken::Value("0"@)) <==> r == Err::<
                String,
                ShellError,
            >(ShellError::Interrupted),
            !(tokens@.len() > 2 && tokens@[2]@ == SpecToken::Value("0"@)) ==> (r matches Err(e)
                && e matches ShellError::InvalidInput(m) && m@ == (if tokens@.len() >= 1 {
                spec_serialize(tokens@[0]@)
            } else {
                Seq::<char>::empty()
            }) + ": command not found"@),
    {
        let is_zero: bool = if tokens.len() > 2 {
            match &tokens[2] {
                Token::Value(s) => *s == String::from_str("0"),
                _ => false,
            }
        } else {
            false
        };
        if is_zero {
            Err(ShellError::Interrupted)
        } else {
            let head: String = if tokens.len() >= 1 {
                tokens[0].serialize()
            } else {
                String::new()
            };
            Err(ShellError::InvalidInput(head.concat(": command not found")))
        }
    }
}

} // verus!
