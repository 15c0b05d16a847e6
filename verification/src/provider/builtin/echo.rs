//! The `echo` builtin: joins the word tokens of the line back into one
//! response string.
use crate::shell::ShellCommand;
use crate::shell::ShellHost;
use crate::tokenizer::parser::token_views;
use crate::tokenizer::text::push_char;
use crate::tokenizer::token::SpecToken;
use crate::tokenizer::token::Token;
use crate::util::error::ShellError;
use vstd::prelude::*;
use vstd::string::StringExecFns;

verus! {

/// What one token contributes to the echoed text: word and quoted tokens
/// their text, a separator one blank except directly after the command
/// word, flags and operators nothing.
pub open spec fn echo_piece(t: SpecToken, k: int) -> Seq<char> {
    match t {
        SpecToken::Space => if k > 2 {
            seq![' ']
        } else {
            Seq::empty()
        },
        SpecToken::Value(s) => s,
        SpecToken::QuotedString(s, _) => s,
        SpecToken::Argument(_, _) => Seq::empty(),
        SpecToken::Redirector(_) => Seq::empty(),
        SpecToken::Appender(_) => Seq::empty(),
    }
}

/// The echoed text of the tokens before position `k`, skipping the command
/// word and the separator after it.
pub open spec fn echo_text(ts: Seq<SpecToken>, k: int) -> Seq<char>
    decreases k,
{
    if k <= 2 {
        Seq::empty()
    } else {
        echo_text(ts, k - 1) + echo_piece(ts[k - 1], k - 1)
    }
}

/// The `echo` builtin.
pub struct Echo {}

impl ShellCommand<Token> for Echo {
    /// Joins the text of every word, quoted string and separator after the
    /// command word into the response; a line without anything to echo is
    /// refused.
    #[verifier::loop_isolation(false)]
    fn run<H: ShellHost>(tokens: &[Token]) -> (r: Result<String, ShellError>)
        ensures
            tokens@.len() < 3 ==> (r matches Err(e) && e matches ShellError::InvalidInput(m)
                && m@ == "No string input found."@),
            tokens@.len() >= 3 ==> (r matches Ok(s) && s@ == echo_text(
                token_views(tokens@),
                tokens@.len() as int,
            )),
    {
        if tokens.len() < 3 {
            return Err(ShellError::InvalidInput(String::from_str("No string input found.")));
        }
        let ghost ts = token_views(tokens@);
        proof {
            assert(ts.len() == tokens@.len());
        }
        let mut s: String = String::new();
        let mut k: usize = 2;
        while k < tokens.len()
            invariant
                2 <= k <= tokens@.len(),
                s@ == echo_text(ts, k as int),
            decreases tokens@.len() - k,
        {
            proof {
                assert(ts[k as int] == tokens@[k as int]@);
            }
            match &tokens[k] {
                Token::Space => {
                    if k > 2 {
                        push_char(&mut s, ' ');
                    }
                },
                Token::Value(v) => {
                    s.append(v.as_str());
                },
                Token::QuotedString(v, _) => {
                    s.append(v.as_str());
                },
                Token::Argument(_, _) => {},
                Token::Redirector(_) => {},
                Token::Appender(_) => {},
            }
            k = k + 1;
            proof {
                assert(s@ == echo_text(ts, k as int));
            }
        }
        Ok(s)
    }
}

} // verus!
