//! The tokenizing state machine: a character-by-character classifier with
//! mode-dependent acceptance, its mathematical model, and the proof that the
//! executable lexer computes exactly what the model says.
use crate::tokenizer::text::chars_to_string;
use crate::tokenizer::text::to_char_vec;
use crate::tokenizer::token::LexError;
use crate::tokenizer::token::QuoteKind;
use crate::tokenizer::token::SpecToken;
use crate::tokenizer::token::Token;
use vstd::prelude::*;

verus! {

/// The lexer's mode: which kind of token is currently being accumulated.
/// `Idle` is the initial mode, between tokens.
#[derive(Clone, Copy, Debug, PartialEq, Eq, Structural)]
pub enum ParseMode {
    Idle,
    Value,
    SingleQuote,
    DoubleQuote,
    SingleDashArg,
    DoubleDashArg,
}

/// The model of the lexer's running state: current mode, whether a nested
/// self-closing single-quote span is open inside double quotes, the
/// accumulation buffer, and the tokens emitted so far.
#[verifier::ext_equal]
pub ghost struct LexState {
    pub mode: ParseMode,
    pub nested_single: bool,
    pub buf: Seq<char>,
    pub tokens: Seq<SpecToken>,
}

/// The model of a finished tokenization: the command clause, and the
/// redirection clause (operator plus target tokens) when one was present.
#[verifier::ext_equal]
pub ghost struct LexOutput {
    pub tokens: Seq<SpecToken>,
    pub redirection: Option<(SpecToken, Seq<SpecToken>)>,
}

/// The state the lexer starts every tokenization from.
pub open spec fn init_state() -> LexState {
    LexState { mode: ParseMode::Idle, nested_single: false, buf: Seq::empty(), tokens: Seq::empty() }
}

/// Whether every token of the sequence is a separator.
pub open spec fn is_space_only(ts: Seq<SpecToken>) -> bool {
    forall|i: int| 0 <= i < ts.len() ==> ts[i] is Space
}

/// A finished clause that consists of separators alone collapses to the
/// empty sequence: a line of pure whitespace carries no tokens.
pub open spec fn cleaned(ts: Seq<SpecToken>) -> Seq<SpecToken> {
    if is_space_only(ts) {
        Seq::empty()
    } else {
        ts
    }
}

/// Emits one separator, deduplicated against a trailing one: consecutive
/// spaces collapse into a single `Space` token.
pub open spec fn with_space(ts: Seq<SpecToken>) -> Seq<SpecToken> {
    if ts.len() > 0 && ts.last() is Space {
        ts
    } else {
        ts.push(SpecToken::Space)
    }
}

/// The token an accumulation buffer flushes to in the given mode.
pub open spec fn flushed(mode: ParseMode, buf: Seq<char>) -> SpecToken {
    match mode {
        ParseMode::Idle => SpecToken::Space,  // never flushed from `Idle`
        ParseMode::Value => SpecToken::Value(buf),
        ParseMode::SingleQuote => SpecToken::QuotedString(buf, false),
        ParseMode::DoubleQuote => SpecToken::QuotedString(buf, true),
        ParseMode::SingleDashArg => SpecToken::Argument(buf, false),
        ParseMode::DoubleDashArg => SpecToken::Argument(buf, true),
    }
}

/// An ASCII letter.
pub open spec fn is_letter(c: char) -> bool {
    ('a' <= c && c <= 'z') || ('A' <= c && c <= 'Z')
}

/// An ASCII digit.
pub open spec fn is_digit(c: char) -> bool {
    '0' <= c && c <= '9'
}

/// A character that may open an unquoted bareword (digits are handled
/// separately, as a possible redirection stream id).
pub open spec fn is_value_start(c: char) -> bool {
    is_letter(c) || c == '_' || c == '.' || c == '/' || c == '~'
}

/// A character that may continue an unquoted bareword.
pub open spec fn is_value_char(c: char) -> bool {
    is_letter(c) || is_digit(c) || c == '_' || c == '-' || c == '.' || c == '/'
}

/// A character that may appear in a flag argument's name.
pub open spec fn is_arg_char(c: char) -> bool {
    is_letter(c) || is_digit(c) || c == '_' || c == '-'
}

/// The command clause and redirection clause as one flat token sequence, in
/// input order.
pub open spec fn flat_tokens(out: LexOutput) -> Seq<SpecToken> {
    match out.redirection {
        Option::None => out.tokens,
        Option::Some((op, target)) => out.tokens + seq![op] + target,
    }
}

/// What tokenizing the characters of `s` from position `i` onward in state
/// `st` yields: the remaining transitions of the state machine, one
/// character (or one character plus its lookahead) at a time.
pub open spec fn lex_from(s: Seq<char>, i: int, st: LexState) -> Result<LexOutput, LexError>
    decreases s.len() - i, 0int,
{
    if i < 0 || i >= s.len() {
        // end of input: only a quote mode refuses to accept here
        match st.mode {
            ParseMode::SingleQuote => Err(LexError::UnterminatedQuote { kind: QuoteKind::Single }),
            ParseMode::DoubleQuote => Err(LexError::UnterminatedQuote { kind: QuoteKind::Double }),
            ParseMode::Idle => Ok(LexOutput { tokens: cleaned(st.tokens), redirection: Option::None }),
            _ => Ok(
                LexOutput {
                    tokens: cleaned(st.tokens.push(flushed(st.mode, st.buf))),
                    redirection: Option::None,
                },
            ),
        }
    } else {
        let c = s[i];
        match st.mode {
            ParseMode::Idle => {
                if c == '\'' {
                    lex_from(s, i + 1, LexState { mode: ParseMode::SingleQuote, ..st })
                } else if c == '"' {
                    lex_from(s, i + 1, LexState { mode: ParseMode::DoubleQuote, ..st })
                } else if c == '\\' {
                    // an escape outside quotes opens a bareword and copies the
                    // next character verbatim; an input ending in a lone
                    // backslash is malformed
                    if i + 1 >= s.len() {
                        Err(LexError::InvalidCharacter { index: i as usize })
                    } else {
                        lex_from(
                            s,
                            i + 2,
                            LexState { mode: ParseMode::Value, buf: st.buf.push(s[i + 1]), ..st },
                        )
                    }
                } else if c == '-' {
                    if i + 1 < s.len() && s[i + 1] == '-' {
                        lex_from(s, i + 2, LexState { mode: ParseMode::DoubleDashArg, ..st })
                    } else {
                        lex_from(s, i + 1, LexState { mode: ParseMode::SingleDashArg, ..st })
                    }
                } else if is_value_start(c) {
                    lex_from(s, i + 1, LexState { mode: ParseMode::Value, buf: st.buf.push(c), ..st })
                } else if is_digit(c) {
                    // a digit directly followed by `>` is a stream id; any
                    // other digit opens a bareword
                    if i + 1 < s.len() && s[i + 1] == '>' {
                        lex_redirect(s, i + 2, st.tokens, c)
                    } else {
                        lex_from(
                            s,
                            i + 1,
                            LexState { mode: ParseMode::Value, buf: st.buf.push(c), ..st },
                        )
                    }
                } else if c == '>' {
                    lex_redirect(s, i + 1, st.tokens, '1')
                } else if c == ' ' {
                    lex_from(s, i + 1, LexState { tokens: with_space(st.tokens), ..st })
                } else {
                    Err(LexError::InvalidCharacter { index: i as usize })
                }
            },
            ParseMode::Value => {
                if is_value_char(c) {
                    lex_from(s, i + 1, LexState { buf: st.buf.push(c), ..st })
                } else if c == '\\' {
                    if i + 1 >= s.len() {
                        Err(LexError::InvalidCharacter { index: i as usize })
                    } else {
                        lex_from(s, i + 2, LexState { buf: st.buf.push(s[i + 1]), ..st })
                    }
                } else if c == ' ' {
                    lex_from(
                        s,
                        i + 1,
                        LexState {
                            mode: ParseMode::Idle,
                            nested_single: false,
                            buf: Seq::empty(),
                            tokens: with_space(st.tokens.push(flushed(st.mode, st.buf))),
                        },
                    )
                } else {
                    Err(LexError::InvalidCharacter { index: i as usize })
                }
            },
            ParseMode::SingleQuote => {
                if c == '\'' {
                    lex_from(
                        s,
                        i + 1,
                        LexState {
                            mode: ParseMode::Idle,
                            nested_single: false,
                            buf: Seq::empty(),
                            tokens: st.tokens.push(flushed(st.mode, st.buf)),
                        },
                    )
                } else {
                    lex_from(s, i + 1, LexState { buf: st.buf.push(c), ..st })
                }
            },
            ParseMode::DoubleQuote => {
                if c == '"' {
                    lex_from(
                        s,
                        i + 1,
                        LexState {
                            mode: ParseMode::Idle,
                            nested_single: false,
                            buf: Seq::empty(),
                            tokens: st.tokens.push(flushed(st.mode, st.buf)),
                        },
                    )
                } else if c == '\\' {
                    if st.nested_single {
                        // inside a nested single-quote span the backslash is
                        // literal
                        lex_from(s, i + 1, LexState { buf: st.buf.push(c), ..st })
                    } else if i + 1 < s.len() && (s[i + 1] == '\\' || s[i + 1] == '$' || s[i + 1]
                        == '"') {
                        lex_from(s, i + 2, LexState { buf: st.buf.push(s[i + 1]), ..st })
                    } else {
                        lex_from(s, i + 1, LexState { buf: st.buf.push(c), ..st })
                    }
                } else if c == '\'' {
                    lex_from(
                        s,
                        i + 1,
                        LexState { nested_single: !st.nested_single, buf: st.buf.push(c), ..st },
                    )
                } else {
                    lex_from(s, i + 1, LexState { buf: st.buf.push(c), ..st })
                }
            },
            _ => {
                // SingleDashArg and DoubleDashArg behave alike
                if is_arg_char(c) {
                    lex_from(s, i + 1, LexState { buf: st.buf.push(c), ..st })
                } else if c == ' ' {
                    lex_from(
                        s,
                        i + 1,
                        LexState {
                            mode: ParseMode::Idle,
                            nested_single: false,
                            buf: Seq::empty(),
                            tokens: with_space(st.tokens.push(flushed(st.mode, st.buf))),
                        },
                    )
                } else {
                    Err(LexError::InvalidCharacter { index: i as usize })
                }
            },
        }
    }
}

/// What redirection parsing yields once a redirection trigger was consumed:
/// position `i` is the first character after `>`; a second `>` selects the
/// appending operator; the rest of the line is tokenized afresh, by the same
/// grammar, as the redirection clause. An input that ends directly after the
/// operator has no redirection target and is malformed.
pub open spec fn lex_redirect(
    s: Seq<char>,
    i: int,
    toks: Seq<SpecToken>,
    stream: char,
) -> Result<LexOutput, LexError>
    decreases s.len() - i, 1int,
{
    if i < 0 || i >= s.len() {
        Err(LexError::MissingRedirectionTarget)
    } else if s[i] == '>' {
        if i + 1 >= s.len() {
            Err(LexError::MissingRedirectionTarget)
        } else {
            match lex_from(s, i + 1, init_state()) {
                Ok(sub) => Ok(
                    LexOutput {
                        tokens: cleaned(toks),
                        redirection: Option::Some((SpecToken::Appender(stream), flat_tokens(sub))),
                    },
                ),
                Err(e) => Err(e),
            }
        }
    } else {
        match lex_from(s, i, init_state()) {
            Ok(sub) => Ok(
                LexOutput {
                    tokens: cleaned(toks),
                    redirection: Option::Some((SpecToken::Redirector(stream), flat_tokens(sub))),
                },
            ),
            Err(e) => Err(e),
        }
    }
}

/// What tokenizing a whole input line yields.
pub open spec fn spec_tokenize(s: Seq<char>) -> Result<LexOutput, LexError> {
    lex_from(s, 0, init_state())
}

/// The models of a sequence of tokens, elementwise.
pub open spec fn token_views(ts: Seq<Token>) -> Seq<SpecToken> {
    Seq::new(ts.len(), |i: int| ts[i]@)
}

/// No two separators stand side by side.
pub open spec fn no_adjacent_spaces(ts: Seq<SpecToken>) -> bool {
    forall|i: int| 0 <= i && i + 1 < ts.len() ==> !((#[trigger] ts[i]) is Space && ts[i + 1]
        is Space)
}

proof fn lemma_token_views_push(ts: Seq<Token>, t: Token)
    ensures
        token_views(ts.push(t)) == token_views(ts).push(t@),
{
    assert(token_views(ts.push(t)) =~= token_views(ts).push(t@));
}

proof fn lemma_token_views_concat(a: Seq<Token>, b: Seq<Token>)
    ensures
        token_views(a + b) == token_views(a) + token_views(b),
{
    assert(token_views(a + b) =~= token_views(a) + token_views(b));
}

pub(crate) proof fn lemma_no_adjacent_with_space(ts: Seq<SpecToken>)
    requires
        no_adjacent_spaces(ts),
    ensures
        no_adjacent_spaces(with_space(ts)),
{
    if !(ts.len() > 0 && ts.last() is Space) {
        let p = ts.push(SpecToken::Space);
        assert forall|i: int| 0 <= i && i + 1 < p.len() implies !((#[trigger] p[i]) is Space && p[i
            + 1] is Space) by {
            if i + 1 < ts.len() {
                assert(!(ts[i] is Space && ts[i + 1] is Space));
            }
        }
    }
}

pub(crate) proof fn lemma_no_adjacent_push(ts: Seq<SpecToken>, t: SpecToken)
    requires
        no_adjacent_spaces(ts),
        !(t is Space),
    ensures
        no_adjacent_spaces(ts.push(t)),
{
    let p = ts.push(t);
    assert forall|i: int| 0 <= i && i + 1 < p.len() implies !((#[trigger] p[i]) is Space && p[i + 1]
        is Space) by {
        if i + 1 < ts.len() {
            assert(!(ts[i] is Space && ts[i + 1] is Space));
        }
    }
}

/// An ASCII letter, executable form.
pub(crate) fn letter_char(c: char) -> (r: bool)
    ensures
        r == is_letter(c),
{
    ('a' <= c && c <= 'z') || ('A' <= c && c <= 'Z')
}

/// An ASCII digit, executable form.
pub(crate) fn digit_char(c: char) -> (r: bool)
    ensures
        r == is_digit(c),
{
    '0' <= c && c <= '9'
}

/// A character that may open an unquoted bareword, executable form.
pub(crate) fn value_start_char(c: char) -> (r: bool)
    ensures
        r == is_value_start(c),
{
    letter_char(c) || c == '_' || c == '.' || c == '/' || c == '~'
}

/// A character that may continue an unquoted bareword, executable form.
pub(crate) fn value_char(c: char) -> (r: bool)
    ensures
        r == is_value_char(c),
{
    letter_char(c) || digit_char(c) || c == '_' || c == '-' || c == '.' || c == '/'
}

/// A character that may appear in a flag argument's name, executable form.
pub(crate) fn arg_char(c: char) -> (r: bool)
    ensures
        r == is_arg_char(c),
{
    letter_char(c) || digit_char(c) || c == '_' || c == '-'
}

/// The lexer. One instance owns the accumulation buffer and partial-parse
/// state for the duration of one tokenization; `parse` resets everything it
/// holds, so no state ever leaks from one input line into the next.
pub struct Tokenizer {
    /// The accumulation buffer for the token being built.
    pub temp: Vec<char>,
    /// The current mode.
    pub mode: ParseMode,
    /// Whether a nested single-quote span is open inside double quotes.
    pub nested_single: bool,
    /// The tokens of the command clause emitted so far.
    pub tokens: Vec<Token>,
    /// The redirection clause, once a redirection operator was consumed:
    /// the operator token and the tokens of the rest of the line.
    pub redirection: Option<(Token, Vec<Token>)>,
}

impl Tokenizer {
    /// The model of the lexer's current state.
    pub open spec fn state(&self) -> LexState {
        LexState {
            mode: self.mode,
            nested_single: self.nested_single,
            buf: self.temp@,
            tokens: token_views(self.tokens@),
        }
    }

    /// The model of the redirection clause found so far.
    pub open spec fn redir_view(&self) -> Option<(SpecToken, Seq<SpecToken>)> {
        match self.redirection {
            Option::None => Option::None,
            Option::Some((op, target)) => Option::Some((op@, token_views(target@))),
        }
    }

    /// A fresh lexer, in the initial state.
    pub fn new() -> (r: Tokenizer)
        ensures
            r.state() == init_state(),
            r.redirection is None,
    {
        let r = Tokenizer {
            temp: Vec::new(),
            mode: ParseMode::Idle,
            nested_single: false,
            tokens: Vec::new(),
            redirection: Option::None,
        };
        proof {
            assert(token_views(r.tokens@) =~= Seq::<SpecToken>::empty());
            assert(r.state() =~= init_state());
        }
        r
    }

    /// Flushes the accumulation buffer as one token of the current mode and
    /// returns to the initial mode.
    fn push_input(&mut self)
        requires
            old(self).mode != ParseMode::Idle,
        ensures
            final(self).state() == (LexState {
                mode: ParseMode::Idle,
                nested_single: false,
                buf: Seq::<char>::empty(),
                tokens: old(self).state().tokens.push(
                    flushed(old(self).state().mode, old(self).state().buf),
                ),
            }),
            final(self).redirection == old(self).redirection,
    {
        let text = chars_to_string(&self.temp);
        let tok: Token = match self.mode {
            ParseMode::Idle => Token::Space,  // unreachable: the buffer never flushes from `Idle`
            ParseMode::Value => Token::Value(text),
            ParseMode::SingleQuote => Token::QuotedString(text, false),
            ParseMode::DoubleQuote => Token::QuotedString(text, true),
            ParseMode::SingleDashArg => Token::Argument(text, false),
            ParseMode::DoubleDashArg => Token::Argument(text, true),
        };
        proof {
            assert(tok@ == flushed(old(self).state().mode, old(self).state().buf));
            lemma_token_views_push(self.tokens@, tok);
        }
        self.tokens.push(tok);
        self.temp = Vec::new();
        self.mode = ParseMode::Idle;
        self.nested_single = false;
        proof {
            assert(final(self).state() =~= LexState {
                mode: ParseMode::Idle,
                nested_single: false,
                buf: Seq::<char>::empty(),
                tokens: old(self).state().tokens.push(
                    flushed(old(self).state().mode, old(self).state().buf),
                ),
            });
        }
    }

    /// Emits one separator, collapsing it into a directly preceding one.
    fn push_space(&mut self)
        ensures
            final(self).state() == (LexState {
                tokens: with_space(old(self).state().tokens),
                ..old(self).state()
            }),
            final(self).redirection == old(self).redirection,
    {
        let n = self.tokens.len();
        let skip: bool = if n == 0 {
            false
        } else {
            match self.tokens[n - 1] {
                Token::Space => true,
                _ => false,
            }
        };
        if !skip {
            proof {
                lemma_token_views_push(self.tokens@, Token::Space);
            }
            self.tokens.push(Token::Space);
        }
        proof {
            assert(final(self).state() =~= LexState {
                tokens: with_space(old(self).state().tokens),
                ..old(self).state()
            });
        }
    }

    /// Collapses a clause of separators alone into the empty clause.
    fn clear_if_space_only(&mut self)
        requires
            no_adjacent_spaces(old(self).state().tokens),
        ensures
            final(self).state() == (LexState {
                tokens: cleaned(old(self).state().tokens),
                ..old(self).state()
            }),
            final(self).redirection == old(self).redirection,
    {
        let ghost ts = old(self).state().tokens;
        let clear: bool = if self.tokens.len() == 1 {
            match self.tokens[0] {
                Token::Space => true,
                _ => false,
            }
        } else {
            false
        };
        if clear {
            self.tokens = Vec::new();
            proof {
                assert(is_space_only(ts));
                assert(token_views(final(self).tokens@) =~= Seq::<SpecToken>::empty());
            }
        } else {
            proof {
                if self.tokens@.len() == 0 {
                    assert(token_views(self.tokens@) =~= Seq::<SpecToken>::empty());
                    assert(cleaned(ts) =~= ts);
                } else if self.tokens@.len() == 1 {
                    assert(!(ts[0] is Space));
                    assert(!is_space_only(ts));
                } else {
                    if is_space_only(ts) {
                        assert(ts[0] is Space && ts[1] is Space);
                        assert(false);
                    }
                }
            }
        }
        proof {
            assert(final(self).state() =~= LexState {
                tokens: cleaned(old(self).state().tokens),
                ..old(self).state()
            });
        }
    }

    /// Runs the state machine over `input` from position `start` to the end
    /// of the line, or up to a redirection operator, which ends the command
    /// clause and tokenizes the rest of the line as the redirection clause.
    ///
    /// The result is exactly what the model `lex_from` says: the emitted
    /// tokens and redirection clause on success, the model's error otherwise.
    #[verifier::loop_isolation(false)]
    pub fn parse_tokens(&mut self, input: &Vec<char>, start: usize) -> (r: Result<(), LexError>)
        requires
            start <= input@.len(),
            old(self).redirection is None,
            no_adjacent_spaces(old(self).state().tokens),
        ensures
            match lex_from(input@, start as int, old(self).state()) {
                Ok(out) => {
                    &&& r is Ok
                    &&& token_views(final(self).tokens@) == out.tokens
                    &&& final(self).redir_view() == out.redirection
                },
                Err(e) => r == Err::<(), LexError>(e) && final(self).redirection == old(
                    self,
                ).redirection,
            },
        decreases input@.len() - start, 0int,
    {
        let ghost goal = lex_from(input@, start as int, old(self).state());
        let mut i: usize = start;
        while i < input.len()
            invariant
                start <= i <= input@.len(),
                self.redirection is None,
                no_adjacent_spaces(self.state().tokens),
                lex_from(input@, i as int, self.state()) == goal,
            decreases input@.len() - i,
        {
            let c = input[i];
            let ghost pre = self.state();
            let ghost i0 = i as int;
            match self.mode {
                ParseMode::Idle => {
                    if c == '\'' {
                        self.mode = ParseMode::SingleQuote;
                        i = i + 1;
                        proof {
                            assert(self.state() =~= LexState { mode: ParseMode::SingleQuote, ..pre });
                        }
                    } else if c == '"' {
                        self.mode = ParseMode::DoubleQuote;
                        i = i + 1;
                        proof {
                            assert(self.state() =~= LexState { mode: ParseMode::DoubleQuote, ..pre });
                        }
                    } else if c == '\\' {
                        if i + 1 >= input.len() {
                            return Err(LexError::InvalidCharacter { index: i });
                        }
                        self.mode = ParseMode::Value;
                        self.temp.push(input[i + 1]);
                        i = i + 2;
                        proof {
                            assert(self.state() =~= LexState {
                                mode: ParseMode::Value,
                                buf: pre.buf.push(input@[i0 + 1]),
                                ..pre
                            });
                        }
                    } else if c == '-' {
                        if i + 1 < input.len() && input[i + 1] == '-' {
                            self.mode = ParseMode::DoubleDashArg;
                            i = i + 2;
                            proof {
                                assert(self.state() =~= LexState {
                                    mode: ParseMode::DoubleDashArg,
                                    ..pre
                                });
                            }
                        } else {
                            self.mode = ParseMode::SingleDashArg;
                            i = i + 1;
                            proof {
                                assert(self.state() =~= LexState {
                                    mode: ParseMode::SingleDashArg,
                                    ..pre
                                });
                            }
                        }
                    } else if value_start_char(c) {
                        self.mode = ParseMode::Value;
                        self.temp.push(c);
                        i = i + 1;
                        proof {
                            assert(self.state() =~= LexState {
                                mode: ParseMode::Value,
                                buf: pre.buf.push(c),
                                ..pre
                            });
                        }
                    } else if digit_char(c) {
                        if i + 1 < input.len() && input[i + 1] == '>' {
                            proof {
                                assert(goal == lex_redirect(input@, i0 + 2, pre.tokens, c));
                            }
                            return self.parse_redirector(input, i + 2, c);
                        }
                        self.mode = ParseMode::Value;
                        self.temp.push(c);
                        i = i + 1;
                        proof {
                            assert(self.state() =~= LexState {
                                mode: ParseMode::Value,
                                buf: pre.buf.push(c),
                                ..pre
                            });
                        }
                    } else if c == '>' {
                        proof {
                            assert(goal == lex_redirect(input@, i0 + 1, pre.tokens, '1'));
                        }
                        return self.parse_redirector(input, i + 1, '1');
                    } else if c == ' ' {
                        proof {
                            lemma_no_adjacent_with_space(pre.tokens);
                        }
                        self.push_space();
                        i = i + 1;
                    } else {
                        return Err(LexError::InvalidCharacter { index: i });
                    }
                },
                ParseMode::Value => {
                    if value_char(c) {
                        self.temp.push(c);
                        i = i + 1;
                        proof {
                            assert(self.state() =~= LexState { buf: pre.buf.push(c), ..pre });
                        }
                    } else if c == '\\' {
                        if i + 1 >= input.len() {
                            return Err(LexError::InvalidCharacter { index: i });
                        }
                        self.temp.push(input[i + 1]);
                        i = i + 2;
                        proof {
                            assert(self.state() =~= LexState {
                                buf: pre.buf.push(input@[i0 + 1]),
                                ..pre
                            });
                        }
                    } else if c == ' ' {
                        proof {
                            lemma_no_adjacent_push(pre.tokens, flushed(pre.mode, pre.buf));
                            lemma_no_adjacent_with_space(pre.tokens.push(flushed(pre.mode, pre.buf)));
                        }
                        self.push_input();
                        self.push_space();
                        i = i + 1;
                        proof {
                            assert(self.state() =~= LexState {
                                mode: ParseMode::Idle,
                                nested_single: false,
                                buf: Seq::<char>::empty(),
                                tokens: with_space(pre.tokens.push(flushed(pre.mode, pre.buf))),
                            });
                        }
                    } else {
                        return Err(LexError::InvalidCharacter { index: i });
                    }
                },
                ParseMode::SingleQuote => {
                    if c == '\'' {
                        proof {
                            lemma_no_adjacent_push(pre.tokens, flushed(pre.mode, pre.buf));
                        }
                        self.push_input();
                        i = i + 1;
                        proof {
                            assert(self.state() =~= LexState {
                                mode: ParseMode::Idle,
                                nested_single: false,
                                buf: Seq::<char>::empty(),
                                tokens: pre.tokens.push(flushed(pre.mode, pre.buf)),
                            });
                        }
                    } else {
                        self.temp.push(c);
                        i = i + 1;
                        proof {
                            assert(self.state() =~= LexState { buf: pre.buf.push(c), ..pre });
                        }
                    }
                },
                ParseMode::DoubleQuote => {
                    if c == '"' {
                        proof {
                            lemma_no_adjacent_push(pre.tokens, flushed(pre.mode, pre.buf));
                        }
                        self.push_input();
                        i = i + 1;
                        proof {
                            assert(self.state() =~= LexState {
                                mode: ParseMode::Idle,
                                nested_single: false,
                                buf: Seq::<char>::empty(),
                                tokens: pre.tokens.push(flushed(pre.mode, pre.buf)),
                            });
                        }
                    } else if c == '\\' {
                        if self.nested_single {
                            self.temp.push(c);
                            i = i + 1;
                            proof {
                                assert(self.state() =~= LexState { buf: pre.buf.push(c), ..pre });
                            }
                        } else if i + 1 < input.len() && (input[i + 1] == '\\' || input[i + 1]
                            == '$' || input[i + 1] == '"') {
                            self.temp.push(input[i + 1]);
                            i = i + 2;
                            proof {
                                assert(self.state() =~= LexState {
                                    buf: pre.buf.push(input@[i0 + 1]),
                                    ..pre
                                });
                            }
                        } else {
                            self.temp.push(c);
                            i = i + 1;
                            proof {
                                assert(self.state() =~= LexState { buf: pre.buf.push(c), ..pre });
                            }
                        }
                    } else if c == '\'' {
                        self.nested_single = !self.nested_single;
                        self.temp.push(c);
                        i = i + 1;
                        proof {
                            assert(self.state() =~= LexState {
                                nested_single: !pre.nested_single,
                                buf: pre.buf.push(c),
                                ..pre
                            });
                        }
                    } else {
                        self.temp.push(c);
                        i = i + 1;
                        proof {
                            assert(self.state() =~= LexState { buf: pre.buf.push(c), ..pre });
                        }
                    }
                },
                _ => {
                    if arg_char(c) {
                        self.temp.push(c);
                        i = i + 1;
                        proof {
                            assert(self.state() =~= LexState { buf: pre.buf.push(c), ..pre });
                        }
                    } else if c == ' ' {
                        proof {
                            lemma_no_adjacent_push(pre.tokens, flushed(pre.mode, pre.buf));
                            lemma_no_adjacent_with_space(pre.tokens.push(flushed(pre.mode, pre.buf)));
                        }
                        self.push_input();
                        self.push_space();
                        i = i + 1;
                        proof {
                            assert(self.state() =~= LexState {
                                mode: ParseMode::Idle,
                                nested_single: false,
                                buf: Seq::<char>::empty(),
                                tokens: with_space(pre.tokens.push(flushed(pre.mode, pre.buf))),
                            });
                        }
                    } else {
                        return Err(LexError::InvalidCharacter { index: i });
                    }
                },
            }
            proof {
                assert(lex_from(input@, i as int, self.state()) == goal);
            }
        }
        // end of input: only a quote mode refuses to accept here
        match self.mode {
            ParseMode::SingleQuote => Err(LexError::UnterminatedQuote { kind: QuoteKind::Single }),
            ParseMode::DoubleQuote => Err(LexError::UnterminatedQuote { kind: QuoteKind::Double }),
            ParseMode::Idle => {
                self.clear_if_space_only();
                Ok(())
            },
            _ => {
                let ghost pre = self.state();
                proof {
                    lemma_no_adjacent_push(pre.tokens, flushed(pre.mode, pre.buf));
                }
                self.push_input();
                self.clear_if_space_only();
                Ok(())
            },
        }
    }

    /// Consumes the redirection clause: `pos` is the position directly after
    /// the `>` that triggered redirection parsing; a second `>` there makes
    /// the operator an appender. The rest of the line is tokenized by a
    /// fresh lexer and stored, flattened, as the redirection clause's token
    /// sequence.
    fn parse_redirector(&mut self, input: &Vec<char>, pos: usize, stream: char) -> (r: Result<
        (),
        LexError,
    >)
        requires
            pos <= input@.len(),
            old(self).redirection is None,
            no_adjacent_spaces(old(self).state().tokens),
        ensures
            match lex_redirect(input@, pos as int, old(self).state().tokens, stream) {
                Ok(out) => {
                    &&& r is Ok
                    &&& token_views(final(self).tokens@) == out.tokens
                    &&& final(self).redir_view() == out.redirection
                },
                Err(e) => r == Err::<(), LexError>(e) && final(self).redirection == old(
                    self,
                ).redirection,
            },
        decreases input@.len() - pos, 1int,
    {
        if pos >= input.len() {
            return Err(LexError::MissingRedirectionTarget);
        }
        let is_append: bool = input[pos] == '>';
        if is_append && pos + 1 >= input.len() {
            return Err(LexError::MissingRedirectionTarget);
        }
        let sub_start: usize = if is_append {
            pos + 1
        } else {
            pos
        };
        let mut sub = Tokenizer::new();
        match sub.parse_tokens(input, sub_start) {
            Err(e) => Err(e),
            Ok(()) => {
                let target = sub.into_flat_tokens();
                let op: Token = if is_append {
                    Token::Appender(stream)
                } else {
                    Token::Redirector(stream)
                };
                self.clear_if_space_only();
                self.redirection = Option::Some((op, target));
                Ok(())
            },
        }
    }

    /// The command clause and redirection clause as one flat token list, in
    /// input order.
    pub fn into_flat_tokens(self) -> (r: Vec<Token>)
        ensures
            token_views(r@) == flat_tokens(
                LexOutput { tokens: token_views(self.tokens@), redirection: self.redir_view() },
            ),
    {
        let Tokenizer { mut tokens, redirection, .. } = self;
        match redirection {
            Option::None => tokens,
            Option::Some((op, mut target)) => {
                proof {
                    lemma_token_views_push(tokens@, op);
                }
                tokens.push(op);
                proof {
                    lemma_token_views_concat(tokens@, target@);
                    assert(token_views(self.tokens@).push(op@) =~= token_views(self.tokens@)
                        + seq![op@]);
                }
                tokens.append(&mut target);
                tokens
            },
        }
    }

    /// The redirection clause of the last parse, when one was present: the
    /// operator token and the token sequence of the rest of the line.
    pub fn get_redirection(&self) -> (r: &Option<(Token, Vec<Token>)>)
        ensures
            r == self.redirection,
    {
        &self.redirection
    }

    /// Tokenizes one input line, after resetting every piece of lexer state:
    /// nothing leaks from an earlier parse into this one. Returns the
    /// command clause; the redirection clause, when one was present, is
    /// available through `get_redirection`.
    pub fn parse(&mut self, input: &str) -> (r: Result<Vec<Token>, LexError>)
        ensures
            match spec_tokenize(input@) {
                Ok(out) => {
                    &&& r matches Ok(v) && token_views(v@) == out.tokens
                    &&& final(self).redir_view() == out.redirection
                },
                Err(e) => r == Err::<Vec<Token>, LexError>(e) && final(self).redir_view()
                    is None,
            },
    {
        *self = Tokenizer::new();
        let chars = to_char_vec(input);
        match self.parse_tokens(&chars, 0) {
            Err(e) => Err(e),
            Ok(()) => {
                let mut out: Vec<Token> = Vec::new();
                core::mem::swap(&mut out, &mut self.tokens);
                Ok(out)
            },
        }
    }

    /// Tokenizes one input line into a single flat token list: the command
    /// clause, then the redirection operator and its target tokens when a
    /// redirection was present.
    pub fn tokenize(input: &str) -> (r: Result<Vec<Token>, LexError>)
        ensures
            match spec_tokenize(input@) {
                Ok(out) => r matches Ok(v) && token_views(v@) == flat_tokens(out),
                Err(e) => r == Err::<Vec<Token>, LexError>(e),
            },
    {
        let mut t = Tokenizer::new();
        let chars = to_char_vec(input);
        match t.parse_tokens(&chars, 0) {
            Err(e) => Err(e),
            Ok(()) => Ok(t.into_flat_tokens()),
        }
    }
}

impl crate::shell::ShellTokenizer<Token> for Tokenizer {
    /// Tokenizes one input line into a single flat token list, exactly as
    /// `Tokenizer::tokenize` does.
    fn tokenize(input: &str) -> (r: Result<Vec<Token>, LexError>)
        ensures
            match spec_tokenize(input@) {
                Ok(out) => r matches Ok(v) && token_views(v@) == flat_tokens(out),
                Err(e) => r == Err::<Vec<Token>, LexError>(e),
            },
    {
        Tokenizer::tokenize(input)
    }
}

} // verus!
