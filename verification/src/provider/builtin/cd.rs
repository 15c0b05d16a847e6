//! The `cd` builtin: changes the host's working directory, with `~`
//! standing for the home directory.
use crate::shell::ShellCommand;
use crate::shell::ShellHost;
use crate::tokenizer::token::SpecToken;
use crate::tokenizer::token::Token;
use crate::util::error::ShellError;
use vstd::prelude::*;
use vstd::string::StringExecFns;

verus! {

/// The `cd` builtin.
pub struct Cd {}

impl ShellCommand<Token> for Cd {
    /// Changes the working directory to the bareword argument; `~` goes to
    /// the home directory named by the `HOME` environment variable. A line
    /// without an argument, or with one that is no bareword, is refused; a
    /// directory the host cannot enter reports which path was tried.
    fn run<H: ShellHost>(tokens: &[Token]) -> (r: Result<String, ShellError>)
        ensures
            tokens@.len() < 3 <==> (r matches Err(e) && e matches ShellError::InvalidInput(m)
                && m@ == "cd: missing argument"@),
            (tokens@.len() >= 3 && !(tokens@[2]@ is Value)) <==> (r matches Err(e) && e matches
                ShellError::InvalidInput(m) && m@ == "cd: invalid input"@),
            r matches Ok(s) ==> s@ == Seq::<char>::empty(),
    {
        proof {
            reveal_strlit("cd: missing argument");
            reveal_strlit("cd: invalid input");
            assert("cd: missing argument"@ != "cd: invalid input"@) by {
                assert("cd: missing argument"@.len() != "cd: invalid input"@.len());
            }
        }
        if tokens.len() < 3 {
            return Err(ShellError::InvalidInput(String::from_str("cd: missing argument")));
        }
        match &tokens[2] {
            Token::Value(path) => {
                if *path == String::from_str("~") {
                    match H::env_var("HOME") {
                        Option::None => Err(
                            ShellError::InvalidData(String::from_str("HOME not set")),
                        ),
                        Option::Some(home) => {
                            if H::set_current_dir(home.as_str()) {
                                Ok(String::new())
                            } else {
                                Err(
                                    ShellError::InvalidData(
                                        home.concat(": No such file or directory"),
                                    ),
                                )
                            }
                        },
                    }
                } else {
                    if H::set_current_dir(path.as_str()) {
                        Ok(String::new())
                    } else {
                        Err(
                            ShellError::InvalidData(
                                path.clone().concat(": No such file or directory"),
                            ),
                        )
                    }
                }
            },
            _ => Err(ShellError::InvalidInput(String::from_str("cd: invalid input"))),
        }
    }
}

} // verus!
