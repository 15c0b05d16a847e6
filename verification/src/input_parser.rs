//! A minimal line parser beside the full lexer: words, quoted strings and
//! flag arguments only — no escapes, no redirection operators and no
//! separator tokens. Where only those units matter it is the lighter tool,
//! and it is verified against its own model in the same way.
use crate::tokenizer::parser::digit_char;
use crate::tokenizer::parser::is_digit;
use crate::tokenizer::parser::is_letter;
use crate::tokenizer::parser::letter_char;
use crate::tokenizer::text::to_char_vec;
use crate::tokenizer::text::chars_to_string;
use crate::tokenizer::token::LexError;
use crate::tokenizer::token::QuoteKind;
use vstd::prelude::*;

verus! {

/// One lexical unit of the minimal grammar: a bareword, a flag argument, or
/// a quoted string (`true` meaning double quotes).
#[derive(Clone, Debug, PartialEq, Eq)]
pub enum Input {
    Command(String),
    Argument(String, bool),
    Quoted(String, bool),
}

/// The model of an input unit, with text as character sequences.
pub ghost enum SpecInput {
    Command(Seq<char>),
    Argument(Seq<char>, bool),
    Quoted(Seq<char>, bool),
}

impl View for Input {
    type V = SpecInput;

    open spec fn view(&self) -> SpecInput {
        match self {
            Input::Command(s) => SpecInput::Command(s@),
            Input::Argument(s, l) => SpecInput::Argument(s@, *l),
            Input::Quoted(s, d) => SpecInput::Quoted(s@, *d),
        }
    }
}

/// The bare text an input unit carries.
pub open spec fn spec_input_value(t: SpecInput) -> Seq<char> {
    match t {
        SpecInput::Command(s) => s,
        SpecInput::Argument(s, _) => s,
        SpecInput::Quoted(s, _) => s,
    }
}

impl Input {
    /// The bare text of the unit, whatever its kind.
    pub fn get_value(&self) -> (r: String)
        ensures
            r@ == spec_input_value(self@),
    {
        match self {
            Input::Command(val) => val.clone(),
            Input::Argument(val, _) => val.clone(),
            Input::Quoted(val, _) => val.clone(),
        }
    }
}

/// The models of a sequence of input units, elementwise.
pub open spec fn input_views(ts: Seq<Input>) -> Seq<SpecInput> {
    Seq::new(ts.len(), |i: int| ts[i]@)
}

/// The minimal grammar's modes.
#[derive(Clone, Copy, Debug, PartialEq, Eq, Structural)]
pub enum InputMode {
    Idle,
    Value,
    StringSingle,
    StringDouble,
    SingleDashArg,
    DoubleDashArg,
}

/// A character that may open or continue a bareword of the minimal grammar.
pub open spec fn is_word_char(c: char) -> bool {
    is_letter(c) || is_digit(c) || c == '_'
}

/// A character that may appear in a flag argument of the minimal grammar:
/// unlike the full lexer, digits are not accepted here.
pub open spec fn is_plain_arg_char(c: char) -> bool {
    is_letter(c) || c == '_' || c == '-'
}

/// The unit an accumulation buffer flushes to in the given mode.
pub open spec fn input_flushed(mode: InputMode, buf: Seq<char>) -> SpecInput {
    match mode {
        InputMode::Idle => SpecInput::Command(buf),  // never flushed from `Idle`
        InputMode::Value => SpecInput::Command(buf),
        InputMode::StringSingle => SpecInput::Quoted(buf, false),
        InputMode::StringDouble => SpecInput::Quoted(buf, true),
        InputMode::SingleDashArg => SpecInput::Argument(buf, false),
        InputMode::DoubleDashArg => SpecInput::Argument(buf, true),
    }
}

/// What parsing the characters of `s` from position `i` in the given mode,
/// with the given buffer and completed units, yields under the minimal
/// grammar.
pub open spec fn input_lex(
    s: Seq<char>,
    i: int,
    mode: InputMode,
    buf: Seq<char>,
    toks: Seq<SpecInput>,
) -> Result<Seq<SpecInput>, LexError>
    decreases s.len() - i,
{
    if i < 0 || i >= s.len() {
        match mode {
            InputMode::StringSingle => Err(LexError::UnterminatedQuote { kind: QuoteKind::Single }),
            InputMode::StringDouble => Err(LexError::UnterminatedQuote { kind: QuoteKind::Double }),
            InputMode::Idle => Ok(toks),
            _ => Ok(toks.push(input_flushed(mode, buf))),
        }
    } else {
        let c = s[i];
        match mode {
            InputMode::Idle => {
                if c == '\'' {
                    input_lex(s, i + 1, InputMode::StringSingle, buf, toks)
                } else if c == '"' {
                    input_lex(s, i + 1, InputMode::StringDouble, buf, toks)
                } else if c == '-' {
                    if i + 1 < s.len() && s[i + 1] == '-' {
                        input_lex(s, i + 2, InputMode::DoubleDashArg, buf, toks)
                    } else {
                        input_lex(s, i + 1, InputMode::SingleDashArg, buf, toks)
                    }
                } else if is_word_char(c) {
                    input_lex(s, i + 1, InputMode::Value, buf.push(c), toks)
                } else if c == ' ' {
                    input_lex(s, i + 1, InputMode::Idle, buf, toks)
                } else {
                    Err(LexError::InvalidCharacter { index: i as usize })
                }
            },
            InputMode::Value => {
                if is_word_char(c) || c == '-' {
                    input_lex(s, i + 1, InputMode::Value, buf.push(c), toks)
                } else if c == ' ' {
                    input_lex(
                        s,
                        i + 1,
                        InputMode::Idle,
                        Seq::empty(),
                        toks.push(input_flushed(mode, buf)),
                    )
                } else {
                    Err(LexError::InvalidCharacter { index: i as usize })
                }
            },
            InputMode::StringSingle => {
                if c == '\'' {
                    input_lex(s, i + 1, InputMode::Idle, Seq::empty(), toks.push(input_flushed(mode, buf)))
                } else {
                    input_lex(s, i + 1, mode, buf.push(c), toks)
                }
            },
            InputMode::StringDouble => {
                if c == '"' {
                    input_lex(s, i + 1, InputMode::Idle, Seq::empty(), toks.push(input_flushed(mode, buf)))
                } else {
                    input_lex(s, i + 1, mode, buf.push(c), toks)
                }
            },
            _ => {
                if is_plain_arg_char(c) {
                    input_lex(s, i + 1, mode, buf.push(c), toks)
                } else if c == ' ' {
                    input_lex(
                        s,
                        i + 1,
                        InputMode::Idle,
                        Seq::empty(),
                        toks.push(input_flushed(mode, buf)),
                    )
                } else {
                    Err(LexError::InvalidCharacter { index: i as usize })
                }
            },
        }
    }
}

/// What parsing a whole line under the minimal grammar yields.
pub open spec fn spec_input_parse(s: Seq<char>) -> Result<Seq<SpecInput>, LexError> {
    input_lex(s, 0, InputMode::Idle, Seq::empty(), Seq::empty())
}

/// The minimal parser. `parse` resets all of its state, so nothing leaks
/// from one line into the next.
pub struct InputParser {
    pub temp: Vec<char>,
    pub mode: InputMode,
    pub result: Vec<Input>,
}

impl InputParser {
    /// A fresh parser.
    pub fn new() -> (r: InputParser)
        ensures
            r.temp@ == Seq::<char>::empty(),
            r.mode == InputMode::Idle,
            input_views(r.result@) == Seq::<SpecInput>::empty(),
    {
        let r = InputParser { temp: Vec::new(), mode: InputMode::Idle, result: Vec::new() };
        proof {
            assert(input_views(r.result@) =~= Seq::<SpecInput>::empty());
        }
        r
    }

    /// Flushes the accumulation buffer as one unit of the current mode.
    fn push_input(&mut self)
        requires
            old(self).mode != InputMode::Idle,
        ensures
            input_views(final(self).result@) == input_views(old(self).result@).push(
                input_flushed(old(self).mode, old(self).temp@),
            ),
            final(self).temp@ == Seq::<char>::empty(),
            final(self).mode == InputMode::Idle,
    {
        let text = chars_to_string(&self.temp);
        let tok: Input = match self.mode {
            InputMode::Idle => Input::Command(text),  // unreachable: nothing flushes from `Idle`
            InputMode::Value => Input::Command(text),
            InputMode::StringSingle => Input::Quoted(text, false),
            InputMode::StringDouble => Input::Quoted(text, true),
            InputMode::SingleDashArg => Input::Argument(text, false),
            InputMode::DoubleDashArg => Input::Argument(text, true),
        };
        proof {
            assert(input_views(self.result@.push(tok)) =~= input_views(self.result@).push(tok@));
        }
        self.result.push(tok);
        self.temp = Vec::new();
        self.mode = InputMode::Idle;
    }

    /// Parses one line under the minimal grammar, after resetting every
    /// piece of parser state. The result is exactly what the model says:
    /// the parsed units on success, the model's error otherwise.
    #[verifier::loop_isolation(false)]
    pub fn parse(&mut self, str: String) -> (r: Result<Vec<Input>, LexError>)
        ensures
            match spec_input_parse(str@) {
                Ok(toks) => r matches Ok(v) && input_views(v@) == toks,
                Err(e) => r == Err::<Vec<Input>, LexError>(e),
            },
    {
        *self = InputParser::new();
        let chars = to_char_vec(str.as_str());
        let ghost goal = spec_input_parse(str@);
        let mut i: usize = 0;
        while i < chars.len()
            invariant
                0 <= i <= chars@.len(),
                chars@ == str@,
                input_lex(str@, i as int, self.mode, self.temp@, input_views(self.result@))
                    == goal,
            decreases chars@.len() - i,
        {
            let c = chars[i];
            let ghost pre_mode = self.mode;
            let ghost pre_buf = self.temp@;
            let ghost pre_toks = input_views(self.result@);
            match self.mode {
                InputMode::Idle => {
                    if c == '\'' {
                        self.mode = InputMode::StringSingle;
                        i = i + 1;
                    } else if c == '"' {
                        self.mode = InputMode::StringDouble;
                        i = i + 1;
                    } else if c == '-' {
                        if i + 1 < chars.len() && chars[i + 1] == '-' {
                            self.mode = InputMode::DoubleDashArg;
                            i = i + 2;
                        } else {
                            self.mode = InputMode::SingleDashArg;
                            i = i + 1;
                        }
                    } else if letter_char(c) || digit_char(c) || c == '_' {
                        self.mode = InputMode::Value;
                        self.temp.push(c);
                        i = i + 1;
                    } else if c == ' ' {
                        i = i + 1;
                    } else {
                        return Err(LexError::InvalidCharacter { index: i });
                    }
                },
                InputMode::Value => {
                    if letter_char(c) || digit_char(c) || c == '_' || c == '-' {
                        self.temp.push(c);
                        i = i + 1;
                    } else if c == ' ' {
                        self.push_input();
                        i = i + 1;
                    } else {
                        return Err(LexError::InvalidCharacter { index: i });
                    }
                },
                InputMode::StringSingle => {
                    if c == '\'' {
                        self.push_input();
                        i = i + 1;
                    } else {
                        self.temp.push(c);
                        i = i + 1;
                    }
                },
                InputMode::StringDouble => {
                    if c == '"' {
                        self.push_input();
                        i = i + 1;
                    } else {
                        self.temp.push(c);
                        i = i + 1;
                    }
                },
                _ => {
                    if letter_char(c) || c == '_' || c == '-' {
                        self.temp.push(c);
                        i = i + 1;
                    } else if c == ' ' {
                        self.push_input();
                        i = i + 1;
                    } else {
                        return Err(LexError::InvalidCharacter { index: i });
                    }
                },
            }
            proof {
                assert(input_lex(str@, i as int, self.mode, self.temp@, input_views(self.result@))
                    == goal);
            }
        }
        match self.mode {
            InputMode::StringSingle => Err(LexError::UnterminatedQuote { kind: QuoteKind::Single }),
            InputMode::StringDouble => Err(LexError::UnterminatedQuote { kind: QuoteKind::Double }),
            InputMode::Idle => {
                let mut out: Vec<Input> = Vec::new();
                core::mem::swap(&mut out, &mut self.result);
                Ok(out)
            },
            _ => {
                self.push_input();
                let mut out: Vec<Input> = Vec::new();
                core::mem::swap(&mut out, &mut self.result);
                Ok(out)
            },
        }
    }
}

} // verus!
