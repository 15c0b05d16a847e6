//! The dispatcher: routes one tokenized line either to a builtin command
//! or to an external executable, and hands the captured result to the
//! redirection executor when the line carries a redirection clause.
//!
//! When a name matches both an executable on the search path and a
//! builtin, the external executable wins: a deliberate policy choice,
//! documented here rather than left to chance.
use crate::shell::ShellCommandProvider;
use crate::shell::ShellHost;
use crate::shell::ShellInterpreter;
use crate::tokenizer::parser::token_views;
use crate::tokenizer::token::spec_serialize;
use crate::tokenizer::token::SpecToken;
use crate::tokenizer::token::Token;
use crate::util::error::AsBytes;
use crate::util::error::ShellError;
use crate::util::output::bytes_to_string;
use crate::util::output::trim_trailing_newline;
use crate::util::output::CapturedOutput;
use crate::util::output::SplitOutput;
use crate::util::path::string_views;
use crate::util::path::ExecutionPath;
use vstd::prelude::*;
use vstd::string::StrSliceExecFns;
use vstd::string::StringExecFns;

verus! {

/// Whether a token is one of the two redirection operators.
pub open spec fn is_redirection(t: SpecToken) -> bool {
    t is Redirector || t is Appender
}

/// Whether the sequence carries a redirection operator anywhere.
pub open spec fn has_redirection(ts: Seq<SpecToken>) -> bool {
    exists|i: int| 0 <= i < ts.len() && is_redirection(#[trigger] ts[i])
}

/// The position of the first redirection operator in the sequence (its
/// length when there is none): everything before it is the command clause.
pub open spec fn first_redirection(ts: Seq<SpecToken>) -> int
    decreases ts.len(),
{
    if ts.len() == 0 {
        0
    } else if is_redirection(ts[0]) {
        0
    } else {
        1 + first_redirection(ts.drop_first())
    }
}

proof fn lemma_first_redirection(ts: Seq<SpecToken>, k: int)
    requires
        0 <= k < ts.len(),
        is_redirection(ts[k]),
        forall|j: int| 0 <= j < k ==> !is_redirection(#[trigger] ts[j]),
    ensures
        first_redirection(ts) == k,
    decreases k,
{
    if k > 0 {
        assert(!is_redirection(ts[0]));
        let rest = ts.drop_first();
        assert(rest[k - 1] == ts[k]);
        assert forall|j: int| 0 <= j < k - 1 implies !is_redirection(#[trigger] rest[j]) by {
            assert(rest[j] == ts[j + 1]);
        }
        lemma_first_redirection(rest, k - 1);
    }
}

/// The stream digit a redirection operator carries.
pub open spec fn op_stream(t: SpecToken) -> char {
    match t {
        SpecToken::Redirector(c) => c,
        SpecToken::Appender(c) => c,
        _ => ' ',
    }
}

/// Whether a clause head is a redirection operator with a supported
/// stream digit.
pub open spec fn valid_redirection_op(t: SpecToken) -> bool {
    is_redirection(t) && (op_stream(t) == '1' || op_stream(t) == '2')
}

/// Whether a redirection clause names no target: every token after the
/// operator is a separator.
pub open spec fn no_redirection_target(ts: Seq<SpecToken>) -> bool {
    forall|j: int| 1 <= j < ts.len() ==> (#[trigger] ts[j]) is Space
}

/// The argument strings handed to an external process from the tokens
/// before position `k`: every token after the command word and its
/// separator, except separators, serialized back to text.
pub open spec fn args_of(ts: Seq<SpecToken>, k: int) -> Seq<Seq<char>>
    decreases k,
{
    if k <= 2 {
        Seq::empty()
    } else if ts[k - 1] is Space {
        args_of(ts, k - 1)
    } else {
        args_of(ts, k - 1).push(spec_serialize(ts[k - 1]))
    }
}

/// The interpreter.
pub struct Interpreter {}

impl ShellInterpreter<Token> for Interpreter {
    /// Dispatches one tokenized line: an empty line answers with no bytes;
    /// a line with a redirection operator goes through the redirection
    /// executor, any other line is answered directly.
    fn run<CP: ShellCommandProvider<Token>, H: ShellHost>(tokens: &[Token]) -> (r: Result<
        Vec<u8>,
        ShellError,
    >)
        ensures
            tokens@.len() == 0 ==> (r matches Ok(v) && v@ == Seq::<u8>::empty()),
            tokens@.len() > 0 && !(tokens@[0]@ is Value || tokens@[0]@ is QuotedString)
                && !has_redirection(token_views(tokens@)) ==> (r matches Err(e) && e matches
                ShellError::InvalidInput(m) && m@ == "error: invalid input"@),
            ({
                let ts = token_views(tokens@);
                let k = first_redirection(ts);
                &&& tokens@.len() > 0 && has_redirection(ts) && (k == 0 || (k == 1 && ts[0]
                    is Space)) ==> (r matches Ok(v) && v@ == Seq::<u8>::empty())
                &&& tokens@.len() > 0 && has_redirection(ts) && k >= 1 && !(k == 1 && ts[0]
                    is Space) && !(ts[0] is Value || ts[0] is QuotedString) ==> (r matches Err(e)
                    && e matches ShellError::InvalidInput(m) && m@ == "error: invalid input"@)
            }),
    {
        if tokens.len() == 0 {
            return Ok(Vec::new());
        }
        let ghost ts = token_views(tokens@);
        let mut found = false;
        let mut i: usize = 0;
        while i < tokens.len()
            invariant
                0 <= i <= tokens@.len(),
                ts == token_views(tokens@),
                found ==> has_redirection(ts),
                !found ==> forall|k: int| 0 <= k < i ==> !is_redirection(#[trigger] ts[k]),
            decreases tokens@.len() - i,
        {
            proof {
                assert(ts[i as int] == tokens@[i as int]@);
            }
            if tokens[i].is_redirection_token() {
                found = true;
            }
            i = i + 1;
        }
        if found {
            Self::handle_redirected_input::<CP, H>(tokens)
        } else {
            proof {
                assert(!has_redirection(ts));
            }
            Self::handle_direct_input::<CP, H>(tokens)
        }
    }
}

impl Interpreter {
    /// Serializes the argument tokens handed to an external process.
    fn serialize_args(tokens: &[Token]) -> (r: Vec<String>)
        ensures
            string_views(r@) == args_of(token_views(tokens@), tokens@.len() as int),
    {
        let ghost ts = token_views(tokens@);
        let mut r: Vec<String> = Vec::new();
        proof {
            assert(string_views(r@) =~= Seq::<Seq<char>>::empty());
        }
        let mut k: usize = 2;
        while k < tokens.len()
            invariant
                2 <= k <= tokens@.len() || (tokens@.len() < 2 && k == 2),
                ts == token_views(tokens@),
                string_views(r@) == args_of(ts, k as int),
            decreases tokens@.len() - k,
        {
            match &tokens[k] {
                Token::Space => {},
                _ => {
                    let s = tokens[k].serialize();
                    proof {
                        assert(string_views(r@.push(s)) =~= string_views(r@).push(s@));
                    }
                    r.push(s);
                },
            }
            k = k + 1;
        }
        proof {
            if tokens@.len() < 2 {
                assert(args_of(ts, tokens@.len() as int) =~= args_of(ts, 2));
            }
        }
        r
    }

    /// Spawns the named external command with the line's serialized
    /// arguments and waits for it to finish.
    fn execute_external<H: ShellHost>(tokens: &[Token], cmd: &String) -> (r: Result<
        CapturedOutput,
        ShellError,
    >) {
        let args = Self::serialize_args(tokens);
        H::spawn(cmd.as_str(), &args)
    }

    /// Routes a finished external process's capture on the direct path: a
    /// successful exit answers with the output bytes, one trailing line
    /// feed removed; a failed one becomes an invalid-input error carrying
    /// the error bytes' text, trimmed the same way.
    pub fn route_external(output: CapturedOutput) -> (r: Result<Vec<u8>, ShellError>)
        ensures
            output.success ==> (r matches Ok(v) && v@ == crate::util::output::spec_trimmed(
                output.stdout@,
            )),
            !output.success ==> (r matches Err(e) && e matches ShellError::InvalidInput(m)
                && (vstd::utf8::valid_utf8(crate::util::output::spec_trimmed(output.stderr@))
                ==> m@ == vstd::utf8::decode_utf8(
                crate::util::output::spec_trimmed(output.stderr@),
            ))),
    {
        let CapturedOutput { success, stdout, stderr } = output;
        if success {
            let mut bytes = stdout;
            trim_trailing_newline(&mut bytes);
            Ok(bytes)
        } else {
            let mut bytes = stderr;
            trim_trailing_newline(&mut bytes);
            Err(ShellError::InvalidInput(bytes_to_string(&bytes)))
        }
    }

    /// Relays a builtin's response on the direct path: a response becomes
    /// its UTF-8 bytes, an error passes through unchanged — `Interrupted`
    /// included, so the surrounding read loop sees it.
    pub fn route_builtin(response: Result<String, ShellError>) -> (r: Result<Vec<u8>, ShellError>)
        ensures
            response matches Ok(s) ==> (r matches Ok(v) && v@ == vstd::utf8::encode_utf8(s@)),
            response matches Err(e) ==> r == Err::<Vec<u8>, ShellError>(e),
    {
        match response {
            Ok(s) => Ok(s.as_str().as_bytes_vec()),
            Err(e) => Err(e),
        }
    }

    /// Answers a line without redirection: an external executable wins
    /// over a builtin of the same name; its trimmed output is the answer
    /// on success, its trimmed error output becomes the error otherwise. A
    /// line whose first token is neither a bareword nor a quoted string is
    /// refused.
    pub fn handle_direct_input<CP: ShellCommandProvider<Token>, H: ShellHost>(
        tokens: &[Token],
    ) -> (r: Result<Vec<u8>, ShellError>)
        requires
            tokens@.len() > 0,
        ensures
            !(tokens@[0]@ is Value || tokens@[0]@ is QuotedString) ==> (r matches Err(e)
                && e matches ShellError::InvalidInput(m) && m@ == "error: invalid input"@),
    {
        let cmd: &String = match &tokens[0] {
            Token::Value(c) => c,
            Token::QuotedString(c, _) => c,
            _ => {
                return Err(ShellError::InvalidInput(String::from_str("error: invalid input")));
            },
        };
        match cmd.get_exec_path::<H>() {
            Option::Some(_path) => {
                match Self::execute_external::<H>(tokens, cmd) {
                    Err(e) => Err(e),
                    Ok(output) => Self::route_external(output),
                }
            },
            Option::None => Self::route_builtin(CP::run::<H>(cmd.as_str(), tokens)),
        }
    }

    /// Answers a line with a redirection clause: the command clause before
    /// the first operator runs as in direct dispatch, and what it yields is
    /// routed by the redirection executor instead of being returned
    /// directly. An empty command clause answers with no bytes; one whose
    /// first token is neither a bareword nor a quoted string is refused.
    pub fn handle_redirected_input<CP: ShellCommandProvider<Token>, H: ShellHost>(
        tokens: &[Token],
    ) -> (r: Result<Vec<u8>, ShellError>)
        requires
            has_redirection(token_views(tokens@)),
        ensures
            ({
                let ts = token_views(tokens@);
                let k = first_redirection(ts);
                &&& (k == 0 || (k == 1 && ts[0] is Space)) ==> (r matches Ok(v) && v@ == Seq::<
                    u8,
                >::empty())
                &&& (k >= 1 && !(k == 1 && ts[0] is Space) && !(ts[0] is Value || ts[0]
                    is QuotedString)) ==> (r matches Err(e) && e matches ShellError::InvalidInput(m)
                    && m@ == "error: invalid input"@)
            }),
    {
        let ghost ts = token_views(tokens@);
        let mut idx: usize = 0;
        while idx < tokens.len() && !tokens[idx].is_redirection_token()
            invariant
                0 <= idx <= tokens@.len(),
                ts == token_views(tokens@),
                forall|k: int| 0 <= k < idx ==> !is_redirection(#[trigger] ts[k]),
            decreases tokens@.len() - idx,
        {
            proof {
                assert(ts[idx as int] == tokens@[idx as int]@);
            }
            idx = idx + 1;
        }
        proof {
            assert(idx < tokens@.len()) by {
                if idx == tokens@.len() {
                    assert(forall|k: int| 0 <= k < ts.len() ==> !is_redirection(#[trigger] ts[k]));
                }
            }
            assert(ts[idx as int] == tokens@[idx as int]@);
            lemma_first_redirection(ts, idx as int);
        }
        let (cmd_with_sep, redirection_tokens) = tokens.split_at(idx);
        proof {
            if idx > 0 {
                assert(cmd_with_sep@[0] == tokens@[0]);
                assert(cmd_with_sep@[idx - 1] == tokens@[idx - 1]);
            }
        }

        // the separator before the operator belongs to the clause split,
        // not to the command: drop it before the command runs
        let cmd_tokens: &[Token] = if cmd_with_sep.len() > 0 && matches!(
            cmd_with_sep[cmd_with_sep.len() - 1],
            Token::Space,
        ) {
            cmd_with_sep.split_at(cmd_with_sep.len() - 1).0
        } else {
            cmd_with_sep
        };
        proof {
            // the command clause is empty exactly when nothing, or one
            // separator alone, stands before the operator
            assert(cmd_tokens@.len() == 0 <==> (idx == 0 || (idx == 1 && ts[0] is Space)));
            if cmd_tokens@.len() > 0 {
                assert(cmd_tokens@[0] == tokens@[0]);
            }
        }

        let direct: (Option<Vec<u8>>, Option<ShellError>) = if cmd_tokens.len() == 0 {
            return Ok(Vec::new());
        } else {
            let cmd: &String = match &cmd_tokens[0] {
                Token::Value(c) => c,
                Token::QuotedString(c, _) => c,
                _ => {
                    return Err(ShellError::InvalidInput(String::from_str("error: invalid input")));
                },
            };
            match cmd.get_exec_path::<H>() {
                Option::Some(_path) => {
                    match Self::execute_external::<H>(cmd_tokens, cmd) {
                        Err(e) => {
                            return Err(e);
                        },
                        Ok(output) => output.split_output(),
                    }
                },
                Option::None => {
                    match CP::run::<H>(cmd.as_str(), cmd_tokens) {
                        Ok(response) => (Option::Some(response.as_str().as_bytes_vec()), Option::None),
                        Err(err) => (Option::None, Option::Some(err)),
                    }
                },
            }
        };
        Self::execute_redirected::<H>(redirection_tokens, direct.0, direct.1)
    }

    /// The redirection executor: routes the captured response and error to
    /// the target file named by the redirection clause. The clause's first
    /// token selects the operator and stream: stream `'1'` writes the
    /// response and leaves the error, if any, for the caller; stream `'2'`
    /// writes the error's text and returns the response, if any, to the
    /// caller — never swallowed. Truncation replaces the file; appending
    /// keeps what is there, separated by one line feed. A clause that does
    /// not open with a supported operator, or that names no target, is
    /// refused.
    pub fn execute_redirected<H: ShellHost>(
        redirection_tokens: &[Token],
        output: Option<Vec<u8>>,
        error: Option<ShellError>,
    ) -> (r: Result<Vec<u8>, ShellError>)
        ensures
            ({
                let ts = token_views(redirection_tokens@);
                &&& ts.len() == 0 ==> (r matches Err(e) && e matches ShellError::InvalidInput(m)
                    && m@ == "error: invalid redirection"@)
                &&& ts.len() > 0 && !valid_redirection_op(ts[0]) ==> (r matches Err(e)
                    && e matches ShellError::InvalidInput(m) && m@
                    == "error: invalid redirection"@)
                &&& ts.len() > 0 && valid_redirection_op(ts[0]) && no_redirection_target(ts) ==> (
                r matches Err(e) && e matches ShellError::InvalidInput(m) && m@
                    == "error: no redirection target"@)
                &&& ts.len() > 0 && valid_redirection_op(ts[0]) && op_stream(ts[0]) == '1' ==> {
                    &&& (r matches Ok(v) ==> (v@ == Seq::<u8>::empty() && error is None))
                    &&& (error is Some ==> r is Err)
                }
                &&& ts.len() > 0 && valid_redirection_op(ts[0]) && op_stream(ts[0]) == '2' ==> (
                r matches Ok(v) ==> v@ == (match output {
                    Option::Some(o) => o@,
                    Option::None => Seq::<u8>::empty(),
                }))
            }),
    {
        let ghost ts = token_views(redirection_tokens@);
        if redirection_tokens.len() == 0 {
            return Err(ShellError::InvalidInput(String::from_str("error: invalid redirection")));
        }
        proof {
            assert(ts[0] == redirection_tokens@[0]@);
        }
        let valid_op: bool = match &redirection_tokens[0] {
            Token::Redirector(c) => *c == '1' || *c == '2',
            Token::Appender(c) => *c == '1' || *c == '2',
            _ => false,
        };
        proof {
            assert(valid_op == valid_redirection_op(ts[0]));
        }
        if !valid_op {
            return Err(ShellError::InvalidInput(String::from_str("error: invalid redirection")));
        }
        // the target path: the first token after the operator that is no
        // separator, serialized
        let mut t: usize = 1;
        while t < redirection_tokens.len() && matches!(redirection_tokens[t], Token::Space)
            invariant
                1 <= t <= redirection_tokens@.len(),
                ts == token_views(redirection_tokens@),
                forall|j: int| 1 <= j < t ==> (#[trigger] ts[j]) is Space,
            decreases redirection_tokens@.len() - t,
        {
            proof {
                assert(ts[t as int] == redirection_tokens@[t as int]@);
            }
            t = t + 1;
        }
        if t >= redirection_tokens.len() {
            // only separators follow the operator: there is no target
            return Err(ShellError::InvalidInput(String::from_str("error: no redirection target")));
        }
        proof {
            assert(ts[t as int] == redirection_tokens@[t as int]@);
            assert(!(ts[t as int] is Space));
            assert(!no_redirection_target(ts));
        }
        let path: String = redirection_tokens[t].serialize();
        match &redirection_tokens[0] {
            Token::Redirector(stream) => {
                if *stream == '1' {
                    let data: Vec<u8> = match output {
                        Option::Some(v) => v,
                        Option::None => Vec::new(),
                    };
                    Self::route_stdout_leftover(H::write_file(path.as_str(), &data), error)
                } else {
                    let data: Vec<u8> = match &error {
                        Option::Some(err) => err.as_bytes(),
                        Option::None => Vec::new(),
                    };
                    Self::route_stderr_leftover(H::write_file(path.as_str(), &data), output)
                }
            },
            Token::Appender(stream) => {
                if *stream == '1' {
                    let data: Vec<u8> = match output {
                        Option::Some(v) => v,
                        Option::None => Vec::new(),
                    };
                    Self::route_stdout_leftover(Self::append_to_file::<H>(path.as_str(), &data), error)
                } else {
                    let data: Vec<u8> = match &error {
                        Option::Some(err) => err.as_bytes(),
                        Option::None => Vec::new(),
                    };
                    Self::route_stderr_leftover(Self::append_to_file::<H>(path.as_str(), &data), output)
                }
            },
            _ => Err(ShellError::InvalidInput(String::from_str("error: invalid redirection"))),
        }
    }

    /// The leftover of a stream-1 redirection, from the write result: a
    /// failed write surfaces verbatim; after a successful write the
    /// captured error, if any, is propagated, else nothing is returned.
    pub fn route_stdout_leftover(write: Result<(), ShellError>, error: Option<ShellError>) -> (r:
        Result<Vec<u8>, ShellError>)
        ensures
            write matches Err(e) ==> r == Err::<Vec<u8>, ShellError>(e),
            write is Ok ==> (match error {
                Option::Some(e0) => r == Err::<Vec<u8>, ShellError>(e0),
                Option::None => r matches Ok(v) && v@ == Seq::<u8>::empty(),
            }),
    {
        match write {
            Err(e) => Err(e),
            Ok(()) => match error {
                Option::Some(e0) => Err(e0),
                Option::None => Ok(Vec::new()),
            },
        }
    }

    /// The leftover of a stream-2 redirection, from the write result: a
    /// failed write surfaces verbatim; after a successful write the
    /// captured output, if any, is returned to the caller, not swallowed.
    pub fn route_stderr_leftover(write: Result<(), ShellError>, output: Option<Vec<u8>>) -> (r:
        Result<Vec<u8>, ShellError>)
        ensures
            write matches Err(e) ==> r == Err::<Vec<u8>, ShellError>(e),
            write is Ok ==> (match output {
                Option::Some(v0) => r matches Ok(v) && v@ == v0@,
                Option::None => r matches Ok(v) && v@ == Seq::<u8>::empty(),
            }),
    {
        match write {
            Err(e) => Err(e),
            Ok(()) => match output {
                Option::Some(v0) => Ok(v0),
                Option::None => Ok(Vec::new()),
            },
        }
    }

    /// Extends the file at the path with the content: the merged bytes of
    /// whatever the host reads there and the new content are written back.
    /// The write's result is the append's result.
    fn append_to_file<H: ShellHost>(path: &str, content: &Vec<u8>) -> (r: Result<(), ShellError>) {
        let merged: Vec<u8> = Self::merged_for_append(H::read_file(path), content);
        H::write_file(path, &merged)
    }

    /// The bytes an append leaves at the target: a missing file is created
    /// holding the content alone; an existing one keeps its bytes, joined
    /// to the content by one line-feed separator when it was non-empty.
    pub fn merged_for_append(existing: Option<Vec<u8>>, content: &Vec<u8>) -> (r: Vec<u8>)
        ensures
            r@ == (match existing {
                Option::Some(e) => if e@.len() > 0 {
                    e@ + seq![10u8] + content@
                } else {
                    content@
                },
                Option::None => content@,
            }),
    {
        match existing {
            Option::None => vstd::slice::slice_to_vec(content.as_slice()),
            Option::Some(e) => Self::append_content(e, content),
        }
    }

    /// Joins existing file contents and new content: a non-empty file
    /// keeps its bytes, then one line-feed separator, then the new
    /// content; an empty file takes the new content alone.
    pub fn append_content(existing: Vec<u8>, content: &Vec<u8>) -> (r: Vec<u8>)
        ensures
            r@ == (if existing@.len() > 0 {
                existing@ + seq![10u8] + content@
            } else {
                content@
            }),
    {
        if existing.len() == 0 {
            return vstd::slice::slice_to_vec(content.as_slice());
        }
        let ghost base = existing@;
        let mut r = existing;
        r.push(10u8);
        let mut i: usize = 0;
        proof {
            assert(r@ =~= base + seq![10u8] + content@.subrange(0, 0));
        }
        while i < content.len()
            invariant
                0 <= i <= content@.len(),
                r@ == base + seq![10u8] + content@.subrange(0, i as int),
            decreases content@.len() - i,
        {
            r.push(content[i]);
            i = i + 1;
            proof {
                assert(r@ =~= base + seq![10u8] + content@.subrange(0, i as int));
            }
        }
        proof {
            assert(content@.subrange(0, content@.len() as int) =~= content@);
        }
        r
    }
}

} // verus!
