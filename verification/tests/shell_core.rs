use shell_starter_rust::interpreter::Interpreter;
use shell_starter_rust::provider::builtin::cd::Cd;
use shell_starter_rust::provider::builtin::pwd::Pwd;
use shell_starter_rust::provider::CommandProvider;
use shell_starter_rust::shell::{ShellCommand, ShellCommandProvider, ShellHost, ShellInterpreter};
use shell_starter_rust::tokenizer::Token::{self, Appender, Argument, QuotedString, Redirector, Space, Value};
use shell_starter_rust::tokenizer::{LexError, QuoteKind, Tokenizer};
use shell_starter_rust::util::error::{AsBytes, ShellError};
use shell_starter_rust::util::output::CapturedOutput;
use shell_starter_rust::util::output::SplitOutput;
use shell_starter_rust::util::path::{split_string, ExecutionPath};

/// A host with no environment, no files and no processes: every builtin
/// resolves as a builtin, nothing external exists.
struct BareHost;

impl ShellHost for BareHost {
    fn env_var(_name: &str) -> Option<String> {
        None
    }
    fn file_exists(_path: &str) -> bool {
        false
    }
    fn set_current_dir(_path: &str) -> bool {
        false
    }
    fn current_dir() -> Option<String> {
        Some("/workdir".to_string())
    }
    fn spawn(_cmd: &str, _args: &Vec<String>) -> Result<CapturedOutput, ShellError> {
        Err(ShellError::Other("no processes on this host".to_string()))
    }
    fn read_file(_path: &str) -> Option<Vec<u8>> {
        None
    }
    fn write_file(_path: &str, _data: &Vec<u8>) -> Result<(), ShellError> {
        Ok(())
    }
}

/// A host whose writes always fail, echoing back the path and data: the
/// returned error shows exactly what would have been written.
struct RecordingHost;

impl ShellHost for RecordingHost {
    fn env_var(_name: &str) -> Option<String> {
        None
    }
    fn file_exists(_path: &str) -> bool {
        false
    }
    fn set_current_dir(_path: &str) -> bool {
        false
    }
    fn current_dir() -> Option<String> {
        None
    }
    fn spawn(_cmd: &str, _args: &Vec<String>) -> Result<CapturedOutput, ShellError> {
        Err(ShellError::Other("no processes on this host".to_string()))
    }
    fn read_file(_path: &str) -> Option<Vec<u8>> {
        None
    }
    fn write_file(path: &str, data: &Vec<u8>) -> Result<(), ShellError> {
        Err(ShellError::Other(format!(
            "write:{}:{}",
            path,
            String::from_utf8_lossy(data)
        )))
    }
}

/// A host with a two-entry search path on which only `/usr/bin/prog`
/// exists.
struct SecondDirHost;

impl ShellHost for SecondDirHost {
    fn env_var(name: &str) -> Option<String> {
        if name == "PATH" {
            Some("/bin:/usr/bin".to_string())
        } else {
            None
        }
    }
    fn file_exists(path: &str) -> bool {
        path == "/usr/bin/prog"
    }
    fn set_current_dir(_path: &str) -> bool {
        false
    }
    fn current_dir() -> Option<String> {
        None
    }
    fn spawn(_cmd: &str, _args: &Vec<String>) -> Result<CapturedOutput, ShellError> {
        Err(ShellError::Other("no processes on this host".to_string()))
    }
    fn read_file(_path: &str) -> Option<Vec<u8>> {
        None
    }
    fn write_file(_path: &str, _data: &Vec<u8>) -> Result<(), ShellError> {
        Ok(())
    }
}

/// A host on which every file exists: the first search-path entry wins.
struct EveryFileHost;

impl ShellHost for EveryFileHost {
    fn env_var(name: &str) -> Option<String> {
        if name == "PATH" {
            Some("/bin:/usr/bin".to_string())
        } else {
            None
        }
    }
    fn file_exists(_path: &str) -> bool {
        true
    }
    fn set_current_dir(_path: &str) -> bool {
        false
    }
    fn current_dir() -> Option<String> {
        None
    }
    fn spawn(_cmd: &str, _args: &Vec<String>) -> Result<CapturedOutput, ShellError> {
        Err(ShellError::Other("no processes on this host".to_string()))
    }
    fn read_file(_path: &str) -> Option<Vec<u8>> {
        None
    }
    fn write_file(_path: &str, _data: &Vec<u8>) -> Result<(), ShellError> {
        Ok(())
    }
}

// --- scenarios of the lexer ---

#[test]
fn whitespace_only_line_has_no_tokens() {
    let tokens = Tokenizer::tokenize("     ").unwrap();
    assert_eq!(tokens, Vec::<Token>::new());
}

#[test]
fn scenario_flag_arguments() {
    let tokens = Tokenizer::tokenize("cmd -a --arg1 'x'").unwrap();
    let expected = vec![
        Value("cmd".to_string()),
        Space,
        Argument("a".to_string(), false),
        Space,
        Argument("arg1".to_string(), true),
        Space,
        QuotedString("x".to_string(), false),
    ];
    assert_eq!(tokens, expected);
}

#[test]
fn scenario_redirection_split() {
    let mut t = Tokenizer::new();
    let primary = t.parse("echo \"hi\" > \"out.md\"").unwrap();
    assert_eq!(
        primary,
        vec![
            Value("echo".to_string()),
            Space,
            QuotedString("hi".to_string(), true),
            Space,
        ]
    );
    match t.get_redirection() {
        Some((op, target)) => {
            assert_eq!(*op, Redirector('1'));
            assert_eq!(
                *target,
                vec![Space, QuotedString("out.md".to_string(), true)]
            );
        }
        None => panic!("expected a redirection clause"),
    }
}

#[test]
fn redirection_split_is_idempotent() {
    let mut t = Tokenizer::new();
    let _primary = t.parse("CMD > FILE").unwrap();
    let target = match t.get_redirection() {
        Some((_op, target)) => target.clone(),
        None => panic!("expected a redirection clause"),
    };
    // tokenizing just the substring after `>` yields the same clause
    let independent = Tokenizer::tokenize(" FILE").unwrap();
    assert_eq!(target, independent);
}

#[test]
fn missing_redirection_target_is_a_lexical_error() {
    assert_eq!(
        Tokenizer::tokenize("echo >"),
        Err(LexError::MissingRedirectionTarget)
    );
    assert_eq!(
        Tokenizer::tokenize("echo 2>"),
        Err(LexError::MissingRedirectionTarget)
    );
    assert_eq!(
        Tokenizer::tokenize("echo >>"),
        Err(LexError::MissingRedirectionTarget)
    );
}

#[test]
fn lexical_error_variants_are_exact() {
    assert_eq!(
        Tokenizer::tokenize("echo hello @world"),
        Err(LexError::InvalidCharacter { index: 11 })
    );
    assert_eq!(
        Tokenizer::tokenize("'open"),
        Err(LexError::UnterminatedQuote {
            kind: QuoteKind::Single
        })
    );
    assert_eq!(
        Tokenizer::tokenize("\"open"),
        Err(LexError::UnterminatedQuote {
            kind: QuoteKind::Double
        })
    );
}

// --- tokens ---

#[test]
fn serialize_rebuilds_token_text() {
    assert_eq!(Space.serialize(), " ");
    assert_eq!(Value("ls".to_string()).serialize(), "ls");
    assert_eq!(QuotedString("a b".to_string(), true).serialize(), "a b");
    assert_eq!(Argument("s".to_string(), false).serialize(), "-s");
    assert_eq!(Argument("silent".to_string(), true).serialize(), "--silent");
    assert_eq!(Redirector('1').serialize(), "1>");
    assert_eq!(Appender('2').serialize(), "2>>");
}

#[test]
fn get_value_reads_bare_text() {
    assert_eq!(Space.get_value(), " ");
    assert_eq!(Value("ls".to_string()).get_value(), "ls");
    assert_eq!(Argument("s".to_string(), false).get_value(), "s");
    assert_eq!(QuotedString("a b".to_string(), false).get_value(), "a b");
}

#[test]
fn redirection_stream_queries() {
    assert!(Redirector('1').is_redirection_token());
    assert!(Appender('2').is_redirection_token());
    assert!(!Space.is_redirection_token());
    assert_eq!(Redirector('1').is_redirection_ok(), Ok(true));
    assert_eq!(Redirector('2').is_redirection_ok(), Ok(false));
    assert_eq!(Appender('2').is_redirection_err(), Ok(true));
    assert_eq!(Appender('1').is_redirection_err(), Ok(false));
    assert!(matches!(
        Value("x".to_string()).is_redirection_ok(),
        Err(ShellError::Other(_))
    ));
}

// --- builtins through the provider ---

#[test]
fn echo_joins_words() {
    let tokens = Tokenizer::tokenize("echo hello world").unwrap();
    let r = CommandProvider::run::<BareHost>("echo", &tokens);
    assert_eq!(r, Ok("hello world".to_string()));
}

#[test]
fn echo_without_input_is_refused() {
    let tokens = Tokenizer::tokenize("echo").unwrap();
    let r = CommandProvider::run::<BareHost>("echo", &tokens);
    assert_eq!(
        r,
        Err(ShellError::InvalidInput("No string input found.".to_string()))
    );
}

#[test]
fn exit_zero_interrupts() {
    let tokens = Tokenizer::tokenize("exit 0").unwrap();
    let r = CommandProvider::run::<BareHost>("exit", &tokens);
    assert_eq!(r, Err(ShellError::Interrupted));
}

#[test]
fn exit_nonzero_is_not_found() {
    let tokens = Tokenizer::tokenize("exit 1").unwrap();
    let r = CommandProvider::run::<BareHost>("exit", &tokens);
    assert_eq!(
        r,
        Err(ShellError::InvalidInput("exit: command not found".to_string()))
    );
}

#[test]
fn unknown_command_is_not_found() {
    let tokens = Tokenizer::tokenize("frobnicate now").unwrap();
    let r = CommandProvider::run::<BareHost>("frobnicate", &tokens);
    assert_eq!(
        r,
        Err(ShellError::NotFound("shell: command not found".to_string()))
    );
}

#[test]
fn type_reports_builtins() {
    let tokens = Tokenizer::tokenize("type echo").unwrap();
    let r = CommandProvider::run::<BareHost>("type", &tokens);
    assert_eq!(r, Ok("echo is a shell builtin".to_string()));
}

#[test]
fn type_reports_missing_commands() {
    let tokens = Tokenizer::tokenize("type nosuchcmd").unwrap();
    let r = CommandProvider::run::<BareHost>("type", &tokens);
    assert_eq!(
        r,
        Err(ShellError::InvalidInput("nosuchcmd not found".to_string()))
    );
}

#[test]
fn type_finds_executables_on_the_path() {
    let tokens = Tokenizer::tokenize("type prog").unwrap();
    let r = CommandProvider::run::<SecondDirHost>("type", &tokens);
    assert_eq!(r, Ok("prog is /usr/bin/prog".to_string()));
}

#[test]
fn cd_without_argument_is_refused() {
    let tokens = Tokenizer::tokenize("cd").unwrap();
    let r = Cd::run::<BareHost>(&tokens);
    assert_eq!(
        r,
        Err(ShellError::InvalidInput("cd: missing argument".to_string()))
    );
}

#[test]
fn cd_rejects_quoted_targets() {
    let tokens = Tokenizer::tokenize("cd 'somewhere'").unwrap();
    let r = Cd::run::<BareHost>(&tokens);
    assert_eq!(
        r,
        Err(ShellError::InvalidInput("cd: invalid input".to_string()))
    );
}

#[test]
fn cd_reports_unreachable_directories() {
    let tokens = Tokenizer::tokenize("cd /nowhere").unwrap();
    let r = Cd::run::<BareHost>(&tokens);
    assert_eq!(
        r,
        Err(ShellError::InvalidData(
            "/nowhere: No such file or directory".to_string()
        ))
    );
}

#[test]
fn pwd_answers_with_the_working_directory() {
    let tokens = Tokenizer::tokenize("pwd").unwrap();
    let r = Pwd::run::<BareHost>(&tokens);
    assert_eq!(r, Ok("/workdir".to_string()));
}

#[test]
fn provider_lists_five_builtins() {
    let names = CommandProvider::get_commands();
    assert_eq!(names, vec!["echo", "type", "exit", "pwd", "cd"]);
}

// --- the interpreter ---

#[test]
fn empty_line_dispatches_to_nothing() {
    let tokens: Vec<Token> = Vec::new();
    let r = Interpreter::run::<CommandProvider, BareHost>(&tokens);
    assert_eq!(r, Ok(Vec::new()));
}

#[test]
fn direct_echo_answers_bytes() {
    let tokens = Tokenizer::tokenize("echo hello world").unwrap();
    let r = Interpreter::run::<CommandProvider, BareHost>(&tokens);
    assert_eq!(r, Ok(b"hello world".to_vec()));
}

#[test]
fn interpreter_propagates_interrupt() {
    let tokens = Tokenizer::tokenize("exit 0").unwrap();
    let r = Interpreter::run::<CommandProvider, BareHost>(&tokens);
    assert_eq!(r, Err(ShellError::Interrupted));
}

#[test]
fn leading_flag_is_invalid_input() {
    let tokens = Tokenizer::tokenize("-v thing").unwrap();
    let r = Interpreter::run::<CommandProvider, BareHost>(&tokens);
    assert_eq!(
        r,
        Err(ShellError::InvalidInput("error: invalid input".to_string()))
    );
}

#[test]
fn redirected_echo_writes_exact_bytes() {
    // the recording host fails every write and echoes back what would
    // have been written: the file would hold exactly `hi`, no newline
    let tokens = Tokenizer::tokenize("echo \"hi\" > \"out.md\"").unwrap();
    let r = Interpreter::run::<CommandProvider, RecordingHost>(&tokens);
    assert_eq!(r, Err(ShellError::Other("write:out.md:hi".to_string())));
}

#[test]
fn error_stream_redirection_writes_the_error_text() {
    let tokens = Tokenizer::tokenize("frob 2> log.txt").unwrap();
    let r = Interpreter::run::<CommandProvider, RecordingHost>(&tokens);
    assert_eq!(
        r,
        Err(ShellError::Other(
            "write:log.txt:shell: command not found".to_string()
        ))
    );
}

#[test]
fn successful_stream_one_redirection_returns_no_bytes() {
    // the bare host accepts writes, so a redirected echo answers with
    // nothing and no error
    let tokens = Tokenizer::tokenize("echo \"hi\" > \"out.md\"").unwrap();
    let r = Interpreter::run::<CommandProvider, BareHost>(&tokens);
    assert_eq!(r, Ok(Vec::new()));
}

#[test]
fn invalid_stream_digit_is_refused() {
    let clause = vec![Redirector('3'), Space, Value("x".to_string())];
    let r = Interpreter::execute_redirected::<BareHost>(&clause, Some(b"data".to_vec()), None);
    assert_eq!(
        r,
        Err(ShellError::InvalidInput("error: invalid redirection".to_string()))
    );
}

#[test]
fn redirection_clause_without_target_is_refused() {
    let clause = vec![Redirector('1'), Space];
    let r = Interpreter::execute_redirected::<BareHost>(&clause, Some(b"data".to_vec()), None);
    assert_eq!(
        r,
        Err(ShellError::InvalidInput(
            "error: no redirection target".to_string()
        ))
    );
}

#[test]
fn route_external_trims_and_routes() {
    let ok = Interpreter::route_external(CapturedOutput {
        success: true,
        stdout: b"hi\n".to_vec(),
        stderr: Vec::new(),
    });
    assert_eq!(ok, Ok(b"hi".to_vec()));
    let err = Interpreter::route_external(CapturedOutput {
        success: false,
        stdout: Vec::new(),
        stderr: b"boom\n".to_vec(),
    });
    assert_eq!(err, Err(ShellError::InvalidInput("boom".to_string())));
}

#[test]
fn route_builtin_relays_results() {
    assert_eq!(
        Interpreter::route_builtin(Ok("hey".to_string())),
        Ok(b"hey".to_vec())
    );
    assert_eq!(
        Interpreter::route_builtin(Err(ShellError::Interrupted)),
        Err(ShellError::Interrupted)
    );
}

#[test]
fn redirection_leftovers_route_as_documented() {
    // stream 1: a captured error is propagated once the write succeeded
    assert_eq!(
        Interpreter::route_stdout_leftover(Ok(()), Some(ShellError::Interrupted)),
        Err(ShellError::Interrupted)
    );
    assert_eq!(Interpreter::route_stdout_leftover(Ok(()), None), Ok(Vec::new()));
    // stream 2: the captured output is returned, not swallowed
    assert_eq!(
        Interpreter::route_stderr_leftover(Ok(()), Some(b"kept".to_vec())),
        Ok(b"kept".to_vec())
    );
    let failed = ShellError::Other("disk full".to_string());
    assert_eq!(
        Interpreter::route_stderr_leftover(Err(failed.clone()), Some(b"kept".to_vec())),
        Err(failed)
    );
}

#[test]
fn merged_for_append_creates_missing_files() {
    assert_eq!(
        Interpreter::merged_for_append(None, &b"new".to_vec()),
        b"new".to_vec()
    );
    assert_eq!(
        Interpreter::merged_for_append(Some(b"old".to_vec()), &b"new".to_vec()),
        b"old\nnew".to_vec()
    );
    assert_eq!(
        Interpreter::merged_for_append(Some(Vec::new()), &b"new".to_vec()),
        b"new".to_vec()
    );
}

#[test]
fn append_merges_with_one_separator() {
    let merged = Interpreter::append_content(b"old".to_vec(), &b"new".to_vec());
    assert_eq!(merged, b"old\nnew".to_vec());
    let fresh = Interpreter::append_content(Vec::new(), &b"new".to_vec());
    assert_eq!(fresh, b"new".to_vec());
}

// --- captured output ---

#[test]
fn split_output_trims_and_splits() {
    let captured = CapturedOutput {
        success: false,
        stdout: b"out\n".to_vec(),
        stderr: b"boom\n".to_vec(),
    };
    let (out, err) = captured.split_output();
    assert_eq!(out, Some(b"out".to_vec()));
    match err {
        Some(ShellError::Other(m)) => assert_eq!(m, "boom"),
        other => panic!("unexpected error half: {:?}", other),
    }
}

#[test]
fn split_output_drops_empty_streams() {
    let captured = CapturedOutput {
        success: true,
        stdout: b"\n".to_vec(),
        stderr: Vec::new(),
    };
    let (out, err) = captured.split_output();
    assert_eq!(out, None);
    assert!(err.is_none());
}

#[test]
fn error_text_converts_to_bytes() {
    let e = ShellError::InvalidInput("broken".to_string());
    assert_eq!(e.as_bytes(), b"broken".to_vec());
    assert_eq!(ShellError::Interrupted.as_bytes(), Vec::<u8>::new());
}

// --- the search path ---

#[test]
fn split_string_keeps_empty_pieces() {
    let pieces = split_string("a:b:", ':');
    assert_eq!(pieces, vec!["a", "b", ""]);
    assert_eq!(split_string("", ':'), vec![""]);
}

#[test]
fn exec_path_takes_the_first_match() {
    let name = "prog".to_string();
    assert_eq!(
        name.get_exec_path::<SecondDirHost>(),
        Some("/usr/bin/prog".to_string())
    );
    assert_eq!(
        name.get_exec_path::<EveryFileHost>(),
        Some("/bin/prog".to_string())
    );
    assert_eq!(name.get_exec_path::<BareHost>(), None);
}
