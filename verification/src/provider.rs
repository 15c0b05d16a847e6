//! The registry of builtin commands: resolves a command name to one of the
//! five builtins and runs it.
use crate::shell::ShellCommand;
use crate::shell::ShellCommandProvider;
use crate::shell::ShellHost;
use crate::tokenizer::token::Token;
use crate::util::error::ShellError;
use self::builtin::cd::Cd;
use self::builtin::echo::Echo;
use self::builtin::exit::Exit;
use self::builtin::pwd::Pwd;
use self::builtin::type_::Type;
use vstd::prelude::*;
use vstd::string::StringExecFns;

pub mod builtin;

verus! {

/// Whether the name is one of the five supported builtins.
pub open spec fn is_builtin_name(s: Seq<char>) -> bool {
    s == "echo"@ || s == "type"@ || s == "exit"@ || s == "pwd"@ || s == "cd"@
}

/// The provider of the five builtin commands.
pub struct CommandProvider {}

impl ShellCommandProvider<Token> for CommandProvider {
    /// Resolves the command name and runs the matching builtin; a name
    /// that is no builtin is refused as not found.
    fn run<H: ShellHost>(cmd: &str, tokens: &[Token]) -> (r: Result<String, ShellError>)
        ensures
            !is_builtin_name(cmd@) ==> (r matches Err(e) && e matches ShellError::NotFound(m)
                && m@ == "shell: command not found"@),
            cmd@ == "echo"@ ==> {
                &&& tokens@.len() < 3 ==> (r matches Err(e) && e matches ShellError::InvalidInput(
                    m,
                ) && m@ == "No string input found."@)
                &&& tokens@.len() >= 3 ==> (r matches Ok(s) && s@
                    == crate::provider::builtin::echo::echo_text(
                    crate::tokenizer::parser::token_views(tokens@),
                    tokens@.len() as int,
                ))
            },
            cmd@ == "exit"@ ==> {
                &&& (tokens@.len() > 2 && tokens@[2]@ == crate::tokenizer::token::SpecToken::Value(
                    "0"@,
                )) <==> r == Err::<String, ShellError>(ShellError::Interrupted)
                &&& !(tokens@.len() > 2 && tokens@[2]@
                    == crate::tokenizer::token::SpecToken::Value("0"@)) ==> (r matches Err(e)
                    && e matches ShellError::InvalidInput(m) && m@ == (if tokens@.len() >= 1 {
                    crate::tokenizer::token::spec_serialize(tokens@[0]@)
                } else {
                    Seq::<char>::empty()
                }) + ": command not found"@)
            },
            cmd@ == "type"@ ==> {
                &&& tokens@.len() < 3 ==> (r matches Err(e) && e matches ShellError::InvalidInput(
                    m,
                ) && m@ == "This command needs argument."@)
                &&& tokens@.len() >= 3 ==> (match tokens@[2]@ {
                    crate::tokenizer::token::SpecToken::Value(n) => is_builtin_name(n) ==> (
                    r matches Ok(s) && s@ == n + " is a shell builtin"@),
                    _ => true,
                })
                &&& tokens@.len() >= 3 && tokens@[2]@ is Space ==> (r matches Err(e) && e
                    is Other)
                &&& tokens@.len() >= 3 && (tokens@[2]@ is Argument || tokens@[2]@ is Redirector
                    || tokens@[2]@ is Appender) ==> (r matches Err(e) && e matches
                    ShellError::InvalidInput(m) && m@
                    == "bash: syntax error near unexpected token 'newline'"@)
            },
            cmd@ == "pwd"@ ==> (r matches Err(e) ==> (e matches ShellError::InvalidData(m) && m@
                == "failed to get current directory"@)),
            cmd@ == "cd"@ ==> {
                &&& (tokens@.len() < 3 <==> (r matches Err(e) && e matches
                    ShellError::InvalidInput(m) && m@ == "cd: missing argument"@))
                &&& ((tokens@.len() >= 3 && !(tokens@[2]@ is Value)) <==> (r matches Err(e)
                    && e matches ShellError::InvalidInput(m) && m@ == "cd: invalid input"@))
                &&& (r matches Ok(s) ==> s@ == Seq::<char>::empty())
            },
    {
        proof {
            reveal_strlit("echo");
            reveal_strlit("type");
            reveal_strlit("exit");
            reveal_strlit("pwd");
            reveal_strlit("cd");
            assert("echo"@ != "exit"@) by {
                assert("echo"@[1] != "exit"@[1]);
            }
            assert("type"@ != "exit"@) by {
                assert("type"@[0] != "exit"@[0]);
            }
            assert("echo"@ != "type"@) by {
                assert("echo"@[0] != "type"@[0]);
            }
            // the two short names differ from every four-letter name by
            // length alone
            assert("echo"@.len() == 4 && "type"@.len() == 4 && "exit"@.len() == 4 && "pwd"@.len()
                == 3 && "cd"@.len() == 2);
        }
        let name = String::from_str(cmd);
        if name == String::from_str("echo") {
            Echo::run::<H>(tokens)
        } else if name == String::from_str("type") {
            Type::run::<H>(tokens)
        } else if name == String::from_str("exit") {
            Exit::run::<H>(tokens)
        } else if name == String::from_str("pwd") {
            Pwd::run::<H>(tokens)
        } else if name == String::from_str("cd") {
            Cd::run::<H>(tokens)
        } else {
            Err(ShellError::NotFound(String::from_str("shell: command not found")))
        }
    }

    /// The names of the five supported builtins, in resolution order.
    fn get_commands() -> (r: Vec<String>)
        ensures
            r@.len() == 5,
            r@[0]@ == "echo"@,
            r@[1]@ == "type"@,
            r@[2]@ == "exit"@,
            r@[3]@ == "pwd"@,
            r@[4]@ == "cd"@,
    {
        let mut v: Vec<String> = Vec::new();
        v.push(String::from_str("echo"));
        v.push(String::from_str("type"));
        v.push(String::from_str("exit"));
        v.push(String::from_str("pwd"));
        v.push(String::from_str("cd"));
        v
    }
}

} // verus!
