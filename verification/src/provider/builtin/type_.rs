//! The `type` builtin: reports whether a name is a builtin or an
//! executable on the search path.
use crate::provider::is_builtin_name;
use crate::shell::ShellCommand;
use crate::shell::ShellHost;
use crate::tokenizer::token::Token;
use crate::util::error::ShellError;
use crate::util::path::ExecutionPath;
use vstd::prelude::*;
use vstd::string::StringExecFns;

verus! {

/// The shape of a host-resolved answer: the queried name, `" is "`, then
/// whatever path the host's search found.
pub open spec fn names_some_path(s: Seq<char>, n: Seq<char>) -> bool {
    exists|p: Seq<char>| s == n + " is "@ + p
}

/// The `type` builtin.
pub struct Type {}

impl Type {
    /// Whether the string names one of the five supported builtins.
    fn name_is_builtin(s: &String) -> (r: bool)
        ensures
            r == is_builtin_name(s@),
    {
        *s == String::from_str("echo") || *s == String::from_str("type") || *s == String::from_str(
            "exit",
        ) || *s == String::from_str("pwd") || *s == String::from_str("cd")
    }
}

impl ShellCommand<Token> for Type {
    /// For a builtin name the answer is fixed; for any other bareword or
    /// quoted name the host's search path decides between naming its path
    /// and not-found. A separator or operator in argument position is
    /// refused.
    fn run<H: ShellHost>(tokens: &[Token]) -> (r: Result<String, ShellError>)
        ensures
            tokens@.len() < 3 ==> (r matches Err(e) && e matches ShellError::InvalidInput(m)
                && m@ == "This command needs argument."@),
            tokens@.len() >= 3 ==> (match tokens@[2]@ {
                crate::tokenizer::token::SpecToken::Value(n) => is_builtin_name(n) ==> (r matches
                Ok(s) && s@ == n + " is a shell builtin"@),
                _ => true,
            }),
            tokens@.len() >= 3 ==> (match tokens@[2]@ {
                crate::tokenizer::token::SpecToken::Value(n) => !is_builtin_name(n) ==> {
                    &&& (r matches Ok(s) ==> names_some_path(s@, n))
                    &&& (r matches Err(e) ==> (e matches ShellError::InvalidInput(m) && m@ == n
                        + " not found"@))
                },
                crate::tokenizer::token::SpecToken::QuotedString(n, _) => {
                    &&& (r matches Ok(s) ==> names_some_path(s@, n))
                    &&& (r matches Err(e) ==> (e matches ShellError::InvalidInput(m) && m@ == n
                        + " not found"@))
                },
                _ => true,
            }),
            tokens@.len() >= 3 && tokens@[2]@ is Space ==> (r matches Err(e) && e is Other),
            tokens@.len() >= 3 && (tokens@[2]@ is Argument || tokens@[2]@ is Redirector
                || tokens@[2]@ is Appender) ==> (r matches Err(e) && e matches
                ShellError::InvalidInput(m) && m@
                == "bash: syntax error near unexpected token 'newline'"@),
    {
        if tokens.len() < 3 {
            return Err(ShellError::InvalidInput(String::from_str("This command needs argument.")));
        }
        match &tokens[2] {
            Token::Value(input) => {
                if Type::name_is_builtin(input) {
                    return Ok(input.clone().concat(" is a shell builtin"));
                }
                match input.get_exec_path::<H>() {
                    Option::Some(path) => {
                        let answer = input.clone().concat(" is ").concat(path.as_str());
                        proof {
                            assert(answer@ == input@ + " is "@ + path@);
                            assert(names_some_path(answer@, input@));
                        }
                        Ok(answer)
                    },
                    Option::None => Err(
                        ShellError::InvalidInput(input.clone().concat(" not found")),
                    ),
                }
            },
            Token::QuotedString(input, _) => {
                match input.get_exec_path::<H>() {
                    Option::Some(path) => {
                        let answer = input.clone().concat(" is ").concat(path.as_str());
                        proof {
                            assert(answer@ == input@ + " is "@ + path@);
                            assert(names_some_path(answer@, input@));
                        }
                        Ok(answer)
                    },
                    Option::None => Err(
                        ShellError::InvalidInput(input.clone().concat(" not found")),
                    ),
                }
            },
            Token::Space => Err(
                ShellError::Other(String::from_str("Third token shouldn't be a space. Fix this.")),
            ),
            _ => Err(
                ShellError::InvalidInput(
                    String::from_str("bash: syntax error near unexpected token 'newline'"),
                ),
            ),
        }
    }
}

} // verus!
