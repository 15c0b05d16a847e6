//! The token type produced by the lexer, its mathematical model, and its
//! serialization back to text.
use crate::util::error::ShellError;
use vstd::prelude::*;
use vstd::string::StringExecFns;

verus! {

/// The kind of quote an unterminated-quote error refers to.
#[derive(Clone, Copy, Debug, PartialEq, Eq, Structural)]
pub enum QuoteKind {
    Single,
    Double,
}

/// A lexical error. Every error is terminal for the current input line.
#[derive(Clone, Copy, Debug, PartialEq, Eq, Structural)]
pub enum LexError {
    /// A character that no token may contain appeared at this character index.
    InvalidCharacter { index: usize },
    /// The input ended while a quoted span was still open.
    UnterminatedQuote { kind: QuoteKind },
    /// The input ended directly after a redirection operator.
    MissingRedirectionTarget,
}

/// One lexical unit of an input line.
///
/// `Redirector` truncates the target file, `Appender` extends it; both carry
/// the stream digit (`'1'` for standard output, `'2'` for standard error).
#[derive(Clone, Debug, PartialEq, Eq)]
pub enum Token {
    /// A separator; consecutive separators collapse into one `Space`.
    Space,
    /// An unquoted bareword: a command name or positional argument.
    Value(String),
    /// The contents between matching quotes; `true` means double quotes.
    QuotedString(String, bool),
    /// A flag argument introduced by `-` or `--`; `true` means the long form.
    Argument(String, bool),
    /// A truncating redirection operator with its stream digit.
    Redirector(char),
    /// An appending redirection operator with its stream digit.
    Appender(char),
}

/// The model of a token: the same shape with text as character sequences.
pub ghost enum SpecToken {
    Space,
    Value(Seq<char>),
    QuotedString(Seq<char>, bool),
    Argument(Seq<char>, bool),
    Redirector(char),
    Appender(char),
}

impl View for Token {
    type V = SpecToken;

    open spec fn view(&self) -> SpecToken {
        match self {
            Token::Space => SpecToken::Space,
            Token::Value(s) => SpecToken::Value(s@),
            Token::QuotedString(s, d) => SpecToken::QuotedString(s@, *d),
            Token::Argument(s, l) => SpecToken::Argument(s@, *l),
            Token::Redirector(c) => SpecToken::Redirector(*c),
            Token::Appender(c) => SpecToken::Appender(*c),
        }
    }
}

/// The text a token stands for when handed to an external process or used as
/// a redirection target path.
pub open spec fn spec_serialize(t: SpecToken) -> Seq<char> {
    match t {
        SpecToken::Space => seq![' '],
        SpecToken::Value(s) => s,
        SpecToken::QuotedString(s, _) => s,
        SpecToken::Argument(s, long) => if long {
            seq!['-', '-'] + s
        } else {
            seq!['-'] + s
        },
        SpecToken::Redirector(c) => seq![c, '>'],
        SpecToken::Appender(c) => seq![c, '>', '>'],
    }
}

/// The bare text a token carries: its value with no operator decoration.
pub open spec fn spec_get_value(t: SpecToken) -> Seq<char> {
    match t {
        SpecToken::Space => seq![' '],
        SpecToken::Value(s) => s,
        SpecToken::QuotedString(s, _) => s,
        SpecToken::Argument(s, _) => s,
        SpecToken::Redirector(_) => Seq::empty(),
        SpecToken::Appender(_) => Seq::empty(),
    }
}

impl Token {
    /// The bare text of a non-operator token: a `Space` reads as one blank,
    /// every other kind as its stored text.
    pub fn get_value(&self) -> (r: String)
        requires
            !(self@ is Redirector),
            !(self@ is Appender),
        ensures
            r@ == spec_get_value(self@),
    {
        match self {
            Token::Space => {
                proof {
                    reveal_strlit(" ");
                }
                String::from_str(" ")
            },
            Token::Value(val) => val.clone(),
            Token::QuotedString(val, _) => val.clone(),
            Token::Argument(val, _) => val.clone(),
            Token::Redirector(_) => String::new(),
            Token::Appender(_) => String::new(),
        }
    }

    /// Rebuilds the exact text form of the token: a flag grows its dashes
    /// back, an operator its `>` or `>>` suffix.
    pub fn serialize(&self) -> (r: String)
        ensures
            r@ == spec_serialize(self@),
    {
        match self {
            Token::Space => {
                proof {
                    reveal_strlit(" ");
                }
                String::from_str(" ")
            },
            Token::Value(val) => val.clone(),
            Token::QuotedString(val, _) => val.clone(),
            Token::Argument(val, long) => {
                let mut s: String = if *long {
                    proof {
                        reveal_strlit("--");
                    }
                    String::from_str("--")
                } else {
                    proof {
                        reveal_strlit("-");
                    }
                    String::from_str("-")
                };
                s.append(val.as_str());
                s
            },
            Token::Redirector(num) => {
                let mut s: String = String::new();
                crate::tokenizer::text::push_char(&mut s, *num);
                proof {
                    reveal_strlit(">");
                }
                s.append(">");
                assert(s@ =~= seq![*num, '>']);
                s
            },
            Token::Appender(num) => {
                let mut s: String = String::new();
                crate::tokenizer::text::push_char(&mut s, *num);
                proof {
                    reveal_strlit(">>");
                }
                s.append(">>");
                assert(s@ =~= seq![*num, '>', '>']);
                s
            },
        }
    }

    /// Whether this token is one of the two redirection operators.
    pub fn is_redirection_token(&self) -> (r: bool)
        ensures
            r == (self@ is Redirector || self@ is Appender),
    {
        match self {
            Token::Redirector(_) => true,
            Token::Appender(_) => true,
            _ => false,
        }
    }

    /// For a redirection operator, whether it targets standard output
    /// (stream digit `'1'`); any other token kind is refused.
    pub fn is_redirection_ok(&self) -> (r: Result<bool, ShellError>)
        ensures
            r is Ok <==> (self@ is Redirector || self@ is Appender),
            self@ matches SpecToken::Redirector(c) ==> r == Ok::<bool, ShellError>(c == '1'),
            self@ matches SpecToken::Appender(c) ==> r == Ok::<bool, ShellError>(c == '1'),
            r matches Err(e) ==> (e matches ShellError::Other(m) && m@
                == "Checked token is not a redirection token"@),
    {
        match self {
            Token::Redirector(prefix) => Ok(*prefix == '1'),
            Token::Appender(prefix) => Ok(*prefix == '1'),
            _ => Err(ShellError::not_redirection()),
        }
    }

    /// For a redirection operator, whether it targets standard error
    /// (stream digit `'2'`); any other token kind is refused.
    pub fn is_redirection_err(&self) -> (r: Result<bool, ShellError>)
        ensures
            r is Ok <==> (self@ is Redirector || self@ is Appender),
            self@ matches SpecToken::Redirector(c) ==> r == Ok::<bool, ShellError>(c == '2'),
            self@ matches SpecToken::Appender(c) ==> r == Ok::<bool, ShellError>(c == '2'),
            r matches Err(e) ==> (e matches ShellError::Other(m) && m@
                == "Checked token is not a redirection token"@),
    {
        match self {
            Token::Redirector(prefix) => Ok(*prefix == '2'),
            Token::Appender(prefix) => Ok(*prefix == '2'),
            _ => Err(ShellError::not_redirection()),
        }
    }
}

} // verus!
