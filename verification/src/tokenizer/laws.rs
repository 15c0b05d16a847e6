//! Laws of the lexer, proved of the model that `Tokenizer::parse` and
//! `Tokenizer::tokenize` are verified against: whitespace-only lines carry
//! no tokens, separators never stand side by side, well-formed quoted spans
//! round-trip through serialization, unterminated quotes always fail, and
//! the redirection clause equals an independent tokenization of the rest of
//! the line.
use crate::tokenizer::parser::cleaned;
use crate::tokenizer::parser::flat_tokens;
use crate::tokenizer::parser::init_state;
use crate::tokenizer::parser::is_space_only;
use crate::tokenizer::parser::lex_from;
use crate::tokenizer::parser::lex_redirect;
use crate::tokenizer::parser::no_adjacent_spaces;
use crate::tokenizer::parser::LexOutput;
use crate::tokenizer::parser::spec_tokenize;
use crate::tokenizer::parser::with_space;
use crate::tokenizer::parser::LexState;
use crate::tokenizer::parser::ParseMode;
use crate::tokenizer::token::LexError;
use crate::tokenizer::token::QuoteKind;
use crate::tokenizer::token::SpecToken;
use crate::tokenizer::token::spec_serialize;
use vstd::prelude::*;

verus! {

proof fn lemma_cleaned_no_adjacent(ts: Seq<SpecToken>)
    requires
        no_adjacent_spaces(ts),
    ensures
        no_adjacent_spaces(cleaned(ts)),
{
}

/// Every state the machine can move through keeps its emitted tokens free
/// of adjacent separators, and so is every finished clause.
proof fn lex_from_no_adjacent(s: Seq<char>, i: int, st: LexState)
    requires
        no_adjacent_spaces(st.tokens),
    ensures
        lex_from(s, i, st) matches Ok(out) ==> {
            &&& no_adjacent_spaces(out.tokens)
            &&& out.redirection matches Some((op, tgt)) ==> no_adjacent_spaces(tgt) && !(op
                is Space)
        },
    decreases s.len() - i, 0int,
{
    if i < 0 || i >= s.len() {
        if st.mode is Idle {
            lemma_cleaned_no_adjacent(st.tokens);
        } else if !(st.mode is SingleQuote) && !(st.mode is DoubleQuote) {
            crate::tokenizer::parser::lemma_no_adjacent_push(st.tokens, crate::tokenizer::parser::flushed(st.mode, st.buf));
            lemma_cleaned_no_adjacent(
                st.tokens.push(crate::tokenizer::parser::flushed(st.mode, st.buf)),
            );
        }
    } else {
        let c = s[i];
        match st.mode {
            ParseMode::Idle => {
                if c == '\'' {
                    lex_from_no_adjacent(s, i + 1, LexState { mode: ParseMode::SingleQuote, ..st });
                } else if c == '"' {
                    lex_from_no_adjacent(s, i + 1, LexState { mode: ParseMode::DoubleQuote, ..st });
                } else if c == '\\' {
                    if i + 1 < s.len() {
                        lex_from_no_adjacent(
                            s,
                            i + 2,
                            LexState { mode: ParseMode::Value, buf: st.buf.push(s[i + 1]), ..st },
                        );
                    }
                } else if c == '-' {
                    if i + 1 < s.len() && s[i + 1] == '-' {
                        lex_from_no_adjacent(
                            s,
                            i + 2,
                            LexState { mode: ParseMode::DoubleDashArg, ..st },
                        );
                    } else {
                        lex_from_no_adjacent(
                            s,
                            i + 1,
                            LexState { mode: ParseMode::SingleDashArg, ..st },
                        );
                    }
                } else if crate::tokenizer::parser::is_value_start(c) {
                    lex_from_no_adjacent(
                        s,
                        i + 1,
                        LexState { mode: ParseMode::Value, buf: st.buf.push(c), ..st },
                    );
                } else if crate::tokenizer::parser::is_digit(c) {
                    if i + 1 < s.len() && s[i + 1] == '>' {
                        lex_redirect_no_adjacent(s, i + 2, st.tokens, c);
                    } else {
                        lex_from_no_adjacent(
                            s,
                            i + 1,
                            LexState { mode: ParseMode::Value, buf: st.buf.push(c), ..st },
                        );
                    }
                } else if c == '>' {
                    lex_redirect_no_adjacent(s, i + 1, st.tokens, '1');
                } else if c == ' ' {
                    crate::tokenizer::parser::lemma_no_adjacent_with_space(st.tokens);
                    lex_from_no_adjacent(s, i + 1, LexState { tokens: with_space(st.tokens), ..st });
                }
            },
            ParseMode::Value => {
                if crate::tokenizer::parser::is_value_char(c) {
                    lex_from_no_adjacent(s, i + 1, LexState { buf: st.buf.push(c), ..st });
                } else if c == '\\' {
                    if i + 1 < s.len() {
                        lex_from_no_adjacent(s, i + 2, LexState { buf: st.buf.push(s[i + 1]), ..st });
                    }
                } else if c == ' ' {
                    let flushed_tokens = st.tokens.push(
                        crate::tokenizer::parser::flushed(st.mode, st.buf),
                    );
                    crate::tokenizer::parser::lemma_no_adjacent_push(
                        st.tokens,
                        crate::tokenizer::parser::flushed(st.mode, st.buf),
                    );
                    crate::tokenizer::parser::lemma_no_adjacent_with_space(flushed_tokens);
                    lex_from_no_adjacent(
                        s,
                        i + 1,
                        LexState {
                            mode: ParseMode::Idle,
                            nested_single: false,
                            buf: Seq::empty(),
                            tokens: with_space(flushed_tokens),
                        },
                    );
                }
            },
            ParseMode::SingleQuote => {
                if c == '\'' {
                    crate::tokenizer::parser::lemma_no_adjacent_push(
                        st.tokens,
                        crate::tokenizer::parser::flushed(st.mode, st.buf),
                    );
                    lex_from_no_adjacent(
                        s,
                        i + 1,
                        LexState {
                            mode: ParseMode::Idle,
                            nested_single: false,
                            buf: Seq::empty(),
                            tokens: st.tokens.push(
                                crate::tokenizer::parser::flushed(st.mode, st.buf),
                            ),
                        },
                    );
                } else {
                    lex_from_no_adjacent(s, i + 1, LexState { buf: st.buf.push(c), ..st });
                }
            },
            ParseMode::DoubleQuote => {
                if c == '"' {
                    crate::tokenizer::parser::lemma_no_adjacent_push(
                        st.tokens,
                        crate::tokenizer::parser::flushed(st.mode, st.buf),
                    );
                    lex_from_no_adjacent(
                        s,
                        i + 1,
                        LexState {
                            mode: ParseMode::Idle,
                            nested_single: false,
                            buf: Seq::empty(),
                            tokens: st.tokens.push(
                                crate::tokenizer::parser::flushed(st.mode, st.buf),
                            ),
                        },
                    );
                } else if c == '\\' {
                    if st.nested_single {
                        lex_from_no_adjacent(s, i + 1, LexState { buf: st.buf.push(c), ..st });
                    } else if i + 1 < s.len() && (s[i + 1] == '\\' || s[i + 1] == '$' || s[i + 1]
                        == '"') {
                        lex_from_no_adjacent(s, i + 2, LexState { buf: st.buf.push(s[i + 1]), ..st });
                    } else {
                        lex_from_no_adjacent(s, i + 1, LexState { buf: st.buf.push(c), ..st });
                    }
                } else if c == '\'' {
                    lex_from_no_adjacent(
                        s,
                        i + 1,
                        LexState { nested_single: !st.nested_single, buf: st.buf.push(c), ..st },
                    );
                } else {
                    lex_from_no_adjacent(s, i + 1, LexState { buf: st.buf.push(c), ..st });
                }
            },
            _ => {
                if crate::tokenizer::parser::is_arg_char(c) {
                    lex_from_no_adjacent(s, i + 1, LexState { buf: st.buf.push(c), ..st });
                } else if c == ' ' {
                    let flushed_tokens = st.tokens.push(
                        crate::tokenizer::parser::flushed(st.mode, st.buf),
                    );
                    crate::tokenizer::parser::lemma_no_adjacent_push(
                        st.tokens,
                        crate::tokenizer::parser::flushed(st.mode, st.buf),
                    );
                    crate::tokenizer::parser::lemma_no_adjacent_with_space(flushed_tokens);
                    lex_from_no_adjacent(
                        s,
                        i + 1,
                        LexState {
                            mode: ParseMode::Idle,
                            nested_single: false,
                            buf: Seq::empty(),
                            tokens: with_space(flushed_tokens),
                        },
                    );
                }
            },
        }
    }
}

proof fn lex_redirect_no_adjacent(s: Seq<char>, i: int, toks: Seq<SpecToken>, stream: char)
    requires
        no_adjacent_spaces(toks),
    ensures
        lex_redirect(s, i, toks, stream) matches Ok(out) ==> {
            &&& no_adjacent_spaces(out.tokens)
            &&& out.redirection matches Some((op, tgt)) ==> no_adjacent_spaces(tgt) && !(op
                is Space)
        },
    decreases s.len() - i, 1int,
{
    if i < 0 || i >= s.len() {
    } else if s[i] == '>' {
        if i + 1 < s.len() {
            lex_from_no_adjacent(s, i + 1, init_state());
            lemma_cleaned_no_adjacent(toks);
            match lex_from(s, i + 1, init_state()) {
                Ok(sub) => lemma_flat_no_adjacent(sub),
                Err(_) => {},
            }
        }
    } else {
        lex_from_no_adjacent(s, i, init_state());
        lemma_cleaned_no_adjacent(toks);
        match lex_from(s, i, init_state()) {
            Ok(sub) => lemma_flat_no_adjacent(sub),
            Err(_) => {},
        }
    }
}

proof fn lemma_flat_no_adjacent(out: crate::tokenizer::parser::LexOutput)
    requires
        no_adjacent_spaces(out.tokens),
        out.redirection matches Some((op, tgt)) ==> no_adjacent_spaces(tgt) && !(op is Space),
    ensures
        no_adjacent_spaces(flat_tokens(out)),
{
    match out.redirection {
        Option::None => {},
        Option::Some((op, tgt)) => {
            let f = out.tokens + seq![op] + tgt;
            assert forall|i: int| 0 <= i && i + 1 < f.len() implies !((#[trigger] f[i]) is Space
                && f[i + 1] is Space) by {
                let n = out.tokens.len() as int;
                if i + 1 < n {
                    assert(!(out.tokens[i] is Space && out.tokens[i + 1] is Space));
                } else if i + 1 == n {
                    assert(f[i + 1] == op);
                } else if i == n {
                    assert(f[i] == op);
                } else {
                    assert(f[i] == tgt[i - n - 1]);
                    assert(f[i + 1] == tgt[i - n]);
                    assert(!(tgt[i - n - 1] is Space && tgt[i - n] is Space));
                }
            }
        },
    }
}

/// Tokenizing never produces two adjacent `Space` tokens: not in the
/// command clause, not in the redirection clause, and not in the flat
/// sequence of both.
pub proof fn tokenize_no_adjacent_spaces(s: Seq<char>)
    ensures
        spec_tokenize(s) matches Ok(out) ==> {
            &&& no_adjacent_spaces(out.tokens)
            &&& out.redirection matches Some((op, tgt)) ==> no_adjacent_spaces(tgt)
            &&& no_adjacent_spaces(flat_tokens(out))
        },
{
    lex_from_no_adjacent(s, 0, init_state());
    match spec_tokenize(s) {
        Ok(out) => lemma_flat_no_adjacent(out),
        Err(_) => {},
    }
}

/// A line of separators alone tokenizes to the empty sequence, with no
/// error and no redirection clause.
pub proof fn tokenize_whitespace_only(s: Seq<char>)
    requires
        forall|i: int| 0 <= i < s.len() ==> s[i] == ' ',
    ensures
        spec_tokenize(s) == Ok::<crate::tokenizer::parser::LexOutput, LexError>(
            crate::tokenizer::parser::LexOutput {
                tokens: Seq::empty(),
                redirection: Option::None,
            },
        ),
{
    lex_whitespace_only(s, 0, init_state());
}

proof fn lex_whitespace_only(s: Seq<char>, i: int, st: LexState)
    requires
        0 <= i <= s.len(),
        forall|k: int| i <= k < s.len() ==> s[k] == ' ',
        st.mode is Idle,
        is_space_only(st.tokens),
    ensures
        lex_from(s, i, st) == Ok::<crate::tokenizer::parser::LexOutput, LexError>(
            crate::tokenizer::parser::LexOutput {
                tokens: Seq::empty(),
                redirection: Option::None,
            },
        ),
    decreases s.len() - i,
{
    if i >= s.len() {
        assert(cleaned(st.tokens) =~= Seq::<SpecToken>::empty());
    } else {
        let next = LexState { tokens: with_space(st.tokens), ..st };
        assert(is_space_only(next.tokens));
        lex_whitespace_only(s, i + 1, next);
    }
}

/// From any state inside a single-quoted span, an input whose remainder
/// never closes the quote yields the unterminated-quote error, whatever
/// was read before: never a partial token.
pub proof fn lex_unterminated_single(s: Seq<char>, i: int, st: LexState)
    requires
        0 <= i <= s.len(),
        st.mode is SingleQuote,
        forall|k: int| i <= k < s.len() ==> s[k] != '\'',
    ensures
        lex_from(s, i, st) == Err::<LexOutput, LexError>(
            LexError::UnterminatedQuote { kind: QuoteKind::Single },
        ),
    decreases s.len() - i,
{
    if i < s.len() {
        lex_unterminated_single(s, i + 1, LexState { buf: st.buf.push(s[i]), ..st });
    }
}

/// From any state inside a double-quoted span, an input whose remainder
/// never closes the quote yields the unterminated-quote error, whatever
/// was read before: never a partial token.
pub proof fn lex_unterminated_double(s: Seq<char>, i: int, st: LexState)
    requires
        0 <= i <= s.len(),
        st.mode is DoubleQuote,
        forall|k: int| i <= k < s.len() ==> s[k] != '"',
    ensures
        lex_from(s, i, st) == Err::<LexOutput, LexError>(
            LexError::UnterminatedQuote { kind: QuoteKind::Double },
        ),
    decreases s.len() - i,
{
    if i < s.len() {
        let c = s[i];
        if c == '\\' {
            if st.nested_single {
                lex_unterminated_double(s, i + 1, LexState { buf: st.buf.push(c), ..st });
            } else if i + 1 < s.len() && (s[i + 1] == '\\' || s[i + 1] == '$' || s[i + 1] == '"') {
                lex_unterminated_double(s, i + 2, LexState { buf: st.buf.push(s[i + 1]), ..st });
            } else {
                lex_unterminated_double(s, i + 1, LexState { buf: st.buf.push(c), ..st });
            }
        } else if c == '\'' {
            lex_unterminated_double(
                s,
                i + 1,
                LexState { nested_single: !st.nested_single, buf: st.buf.push(c), ..st },
            );
        } else {
            lex_unterminated_double(s, i + 1, LexState { buf: st.buf.push(c), ..st });
        }
    }
}

/// An input that opens a single quote it never closes always tokenizes to
/// the unterminated-quote error, never to a partial token.
pub proof fn tokenize_unterminated_single_quote(w: Seq<char>)
    requires
        forall|i: int| 0 <= i < w.len() ==> w[i] != '\'',
    ensures
        spec_tokenize(seq!['\''] + w) == Err::<LexOutput, LexError>(
            LexError::UnterminatedQuote { kind: QuoteKind::Single },
        ),
{
    let s = seq!['\''] + w;
    assert(s[0] == '\'');
    assert forall|k: int| 1 <= k < s.len() implies (#[trigger] s[k]) != '\'' by {
        assert(s[k] == w[k - 1]);
    }
    lex_unterminated_single(s, 1, LexState { mode: ParseMode::SingleQuote, ..init_state() });
}

/// An input that opens a double quote it never closes always tokenizes to
/// the unterminated-quote error, never to a partial token.
pub proof fn tokenize_unterminated_double_quote(w: Seq<char>)
    requires
        forall|i: int| 0 <= i < w.len() ==> w[i] != '"',
    ensures
        spec_tokenize(seq!['"'] + w) == Err::<LexOutput, LexError>(
            LexError::UnterminatedQuote { kind: QuoteKind::Double },
        ),
{
    let s = seq!['"'] + w;
    assert(s[0] == '"');
    assert forall|k: int| 1 <= k < s.len() implies (#[trigger] s[k]) != '"' by {
        assert(s[k] == w[k - 1]);
    }
    lex_unterminated_double(s, 1, LexState { mode: ParseMode::DoubleQuote, ..init_state() });
}

proof fn lex_sq_span(s: Seq<char>, i: int, j: int, st: LexState)
    requires
        0 <= i <= j < s.len(),
        st.mode is SingleQuote,
        forall|k: int| i <= k < j ==> s[k] != '\'',
        s[j] == '\'',
    ensures
        lex_from(s, i, st) == lex_from(
            s,
            j + 1,
            LexState {
                mode: ParseMode::Idle,
                nested_single: false,
                buf: Seq::empty(),
                tokens: st.tokens.push(
                    SpecToken::QuotedString(st.buf + s.subrange(i, j), false),
                ),
            },
        ),
    decreases j - i,
{
    if i == j {
        assert(st.buf + s.subrange(i, j) =~= st.buf);
    } else {
        lex_sq_span(s, i + 1, j, LexState { buf: st.buf.push(s[i]), ..st });
        assert(st.buf.push(s[i]) + s.subrange(i + 1, j) =~= st.buf + s.subrange(i, j));
    }
}

proof fn lex_dq_span(s: Seq<char>, i: int, j: int, st: LexState)
    requires
        0 <= i <= j < s.len(),
        st.mode is DoubleQuote,
        forall|k: int| i <= k < j ==> s[k] != '"' && s[k] != '\\',
        s[j] == '"',
    ensures
        lex_from(s, i, st) == lex_from(
            s,
            j + 1,
            LexState {
                mode: ParseMode::Idle,
                nested_single: false,
                buf: Seq::empty(),
                tokens: st.tokens.push(SpecToken::QuotedString(st.buf + s.subrange(i, j), true)),
            },
        ),
    decreases j - i,
{
    if i == j {
        assert(st.buf + s.subrange(i, j) =~= st.buf);
    } else {
        let c = s[i];
        if c == '\'' {
            lex_dq_span(
                s,
                i + 1,
                j,
                LexState { nested_single: !st.nested_single, buf: st.buf.push(c), ..st },
            );
        } else {
            lex_dq_span(s, i + 1, j, LexState { buf: st.buf.push(c), ..st });
        }
        assert(st.buf.push(s[i]) + s.subrange(i + 1, j) =~= st.buf + s.subrange(i, j));
    }
}

/// A well-formed single-quoted span tokenizes to exactly one token, a
/// single-quoted string holding the inner content literally, and
/// serializing that token reproduces the inner content exactly.
pub proof fn tokenize_single_quoted_round_trip(c: Seq<char>)
    requires
        forall|i: int| 0 <= i < c.len() ==> c[i] != '\'',
    ensures
        spec_tokenize(seq!['\''] + c + seq!['\'']) == Ok::<LexOutput, LexError>(
            LexOutput {
                tokens: seq![SpecToken::QuotedString(c, false)],
                redirection: Option::None,
            },
        ),
        spec_serialize(SpecToken::QuotedString(c, false)) == c,
{
    let s = seq!['\''] + c + seq!['\''];
    let j = c.len() as int + 1;
    assert(s[0] == '\'');
    assert(s[j] == '\'');
    assert forall|k: int| 1 <= k < j implies (#[trigger] s[k]) != '\'' by {
        assert(s[k] == c[k - 1]);
    }
    lex_sq_span(s, 1, j, LexState { mode: ParseMode::SingleQuote, ..init_state() });
    assert(Seq::<char>::empty() + s.subrange(1, j) =~= c);
    let toks = seq![SpecToken::QuotedString(c, false)];
    assert(Seq::<SpecToken>::empty().push(SpecToken::QuotedString(c, false)) =~= toks);
    assert(!is_space_only(toks)) by {
        assert(!(toks[0] is Space));
    }
    assert(cleaned(toks) =~= toks);
}

/// A well-formed double-quoted span free of escape sequences tokenizes to
/// exactly one token, a double-quoted string holding the inner content
/// literally, and serializing that token reproduces the inner content
/// exactly.
pub proof fn tokenize_double_quoted_round_trip(c: Seq<char>)
    requires
        forall|i: int| 0 <= i < c.len() ==> c[i] != '"' && c[i] != '\\',
    ensures
        spec_tokenize(seq!['"'] + c + seq!['"']) == Ok::<LexOutput, LexError>(
            LexOutput { tokens: seq![SpecToken::QuotedString(c, true)], redirection: Option::None },
        ),
        spec_serialize(SpecToken::QuotedString(c, true)) == c,
{
    let s = seq!['"'] + c + seq!['"'];
    let j = c.len() as int + 1;
    assert(s[0] == '"');
    assert(s[j] == '"');
    assert forall|k: int| 1 <= k < j implies (#[trigger] s[k]) != '"' && s[k] != '\\' by {
        assert(s[k] == c[k - 1]);
    }
    lex_dq_span(s, 1, j, LexState { mode: ParseMode::DoubleQuote, ..init_state() });
    assert(Seq::<char>::empty() + s.subrange(1, j) =~= c);
    let toks = seq![SpecToken::QuotedString(c, true)];
    assert(Seq::<SpecToken>::empty().push(SpecToken::QuotedString(c, true)) =~= toks);
    assert(!is_space_only(toks)) by {
        assert(!(toks[0] is Space));
    }
    assert(cleaned(toks) =~= toks);
}

/// Whether a raw double-quoted span body parses through to its closing
/// quote: no unescaped `"` ends it early, and no trailing backslash
/// swallows the closing quote as an escape. `nested` is whether a
/// self-closing single-quote span is currently open.
pub open spec fn dq_admissible(raw: Seq<char>, nested: bool) -> bool
    decreases raw.len(),
{
    if raw.len() == 0 {
        true
    } else {
        let c = raw[0];
        if c == '"' {
            false
        } else if c == '\\' && !nested {
            if raw.len() == 1 {
                false
            } else if raw[1] == '\\' || raw[1] == '$' || raw[1] == '"' {
                dq_admissible(raw.skip(2), nested)
            } else {
                dq_admissible(raw.skip(1), nested)
            }
        } else if c == '\'' {
            dq_admissible(raw.skip(1), !nested)
        } else {
            dq_admissible(raw.skip(1), nested)
        }
    }
}

/// The documented escape substitutions of a double-quoted span: outside a
/// nested single-quote span, a backslash before `\`, `$` or `"` drops out
/// and leaves the escaped character; every other character, the nested
/// quotes included, stays as it is.
pub open spec fn dq_unescape(raw: Seq<char>, nested: bool) -> Seq<char>
    decreases raw.len(),
{
    if raw.len() == 0 {
        Seq::empty()
    } else {
        let c = raw[0];
        if c == '\\' && !nested {
            if raw.len() > 1 && (raw[1] == '\\' || raw[1] == '$' || raw[1] == '"') {
                seq![raw[1]] + dq_unescape(raw.skip(2), nested)
            } else {
                seq![c] + dq_unescape(raw.skip(1), nested)
            }
        } else if c == '\'' {
            seq![c] + dq_unescape(raw.skip(1), !nested)
        } else {
            seq![c] + dq_unescape(raw.skip(1), nested)
        }
    }
}

proof fn lex_dq_span_escaped(s: Seq<char>, i: int, j: int, st: LexState)
    requires
        0 <= i <= j < s.len(),
        st.mode is DoubleQuote,
        dq_admissible(s.subrange(i, j), st.nested_single),
        s[j] == '"',
    ensures
        lex_from(s, i, st) == lex_from(
            s,
            j + 1,
            LexState {
                mode: ParseMode::Idle,
                nested_single: false,
                buf: Seq::empty(),
                tokens: st.tokens.push(
                    SpecToken::QuotedString(
                        st.buf + dq_unescape(s.subrange(i, j), st.nested_single),
                        true,
                    ),
                ),
            },
        ),
    decreases j - i,
{
    let raw = s.subrange(i, j);
    if i == j {
        assert(st.buf + dq_unescape(raw, st.nested_single) =~= st.buf);
    } else {
        let c = s[i];
        assert(raw[0] == c);
        if c == '\\' && !st.nested_single {
            if i + 1 < j && (s[i + 1] == '\\' || s[i + 1] == '$' || s[i + 1] == '"') {
                assert(raw[1] == s[i + 1]);
                assert(raw.skip(2) =~= s.subrange(i + 2, j));
                lex_dq_span_escaped(s, i + 2, j, LexState { buf: st.buf.push(s[i + 1]), ..st });
                assert(st.buf.push(s[i + 1]) + dq_unescape(s.subrange(i + 2, j), st.nested_single)
                    =~= st.buf + dq_unescape(raw, st.nested_single));
            } else {
                // a backslash the escape rule leaves literal: the span is
                // admissible, so it is not the last character before the
                // closing quote
                assert(i + 1 < j) by {
                    if i + 1 == j {
                        assert(raw.len() == 1);
                    }
                }
                assert(!(s[i + 1] == '\\' || s[i + 1] == '$' || s[i + 1] == '"')) by {
                    assert(raw[1] == s[i + 1]);
                }
                assert(raw.skip(1) =~= s.subrange(i + 1, j));
                lex_dq_span_escaped(s, i + 1, j, LexState { buf: st.buf.push(c), ..st });
                assert(st.buf.push(c) + dq_unescape(s.subrange(i + 1, j), st.nested_single)
                    =~= st.buf + dq_unescape(raw, st.nested_single));
            }
        } else if c == '\'' {
            assert(raw.skip(1) =~= s.subrange(i + 1, j));
            lex_dq_span_escaped(
                s,
                i + 1,
                j,
                LexState { nested_single: !st.nested_single, buf: st.buf.push(c), ..st },
            );
            assert(st.buf.push(c) + dq_unescape(s.subrange(i + 1, j), !st.nested_single) =~= st.buf
                + dq_unescape(raw, st.nested_single));
        } else {
            assert(raw.skip(1) =~= s.subrange(i + 1, j));
            lex_dq_span_escaped(s, i + 1, j, LexState { buf: st.buf.push(c), ..st });
            assert(st.buf.push(c) + dq_unescape(s.subrange(i + 1, j), st.nested_single) =~= st.buf
                + dq_unescape(raw, st.nested_single));
        }
    }
}

/// The general round trip for double quotes: any admissible span body,
/// escapes and nested single quotes included, tokenizes to exactly one
/// double-quoted string holding the body with the documented escape
/// substitutions applied, and serializing that token reproduces that
/// content.
pub proof fn tokenize_double_quoted_escapes(raw: Seq<char>)
    requires
        dq_admissible(raw, false),
    ensures
        spec_tokenize(seq!['"'] + raw + seq!['"']) == Ok::<LexOutput, LexError>(
            LexOutput {
                tokens: seq![SpecToken::QuotedString(dq_unescape(raw, false), true)],
                redirection: Option::None,
            },
        ),
        spec_serialize(SpecToken::QuotedString(dq_unescape(raw, false), true)) == dq_unescape(
            raw,
            false,
        ),
{
    let s = seq!['"'] + raw + seq!['"'];
    let j = raw.len() as int + 1;
    assert(s[0] == '"');
    assert(s[j] == '"');
    assert(s.subrange(1, j) =~= raw);
    lex_dq_span_escaped(s, 1, j, LexState { mode: ParseMode::DoubleQuote, ..init_state() });
    let content = dq_unescape(raw, false);
    assert(Seq::<char>::empty() + content =~= content);
    let toks = seq![SpecToken::QuotedString(content, true)];
    assert(Seq::<SpecToken>::empty().push(SpecToken::QuotedString(content, true)) =~= toks);
    assert(!is_space_only(toks)) by {
        assert(!(toks[0] is Space));
    }
    assert(cleaned(toks) =~= toks);
}

/// Whether two tokenizations agree whenever either succeeds (they may
/// differ in the reported index of an invalid character).
pub open spec fn same_when_ok(
    a: Result<LexOutput, LexError>,
    b: Result<LexOutput, LexError>,
) -> bool {
    (a is Ok || b is Ok) ==> a == b
}

proof fn lex_from_shift(s: Seq<char>, d: int, i: int, st: LexState)
    requires
        0 <= d <= i <= s.len(),
    ensures
        same_when_ok(lex_from(s, i, st), lex_from(s.skip(d), i - d, st)),
    decreases s.len() - i, 0int,
{
    let t = s.skip(d);
    if i >= s.len() {
    } else {
        let c = s[i];
        assert(t[i - d] == c);
        if i + 1 < s.len() {
            assert(t[i + 1 - d] == s[i + 1]);
        }
        match st.mode {
            ParseMode::Idle => {
                if c == '\'' {
                    lex_from_shift(s, d, i + 1, LexState { mode: ParseMode::SingleQuote, ..st });
                } else if c == '"' {
                    lex_from_shift(s, d, i + 1, LexState { mode: ParseMode::DoubleQuote, ..st });
                } else if c == '\\' {
                    if i + 1 < s.len() {
                        lex_from_shift(
                            s,
                            d,
                            i + 2,
                            LexState { mode: ParseMode::Value, buf: st.buf.push(s[i + 1]), ..st },
                        );
                    }
                } else if c == '-' {
                    if i + 1 < s.len() && s[i + 1] == '-' {
                        lex_from_shift(s, d, i + 2, LexState { mode: ParseMode::DoubleDashArg, ..st });
                    } else {
                        lex_from_shift(s, d, i + 1, LexState { mode: ParseMode::SingleDashArg, ..st });
                    }
                } else if crate::tokenizer::parser::is_value_start(c) {
                    lex_from_shift(
                        s,
                        d,
                        i + 1,
                        LexState { mode: ParseMode::Value, buf: st.buf.push(c), ..st },
                    );
                } else if crate::tokenizer::parser::is_digit(c) {
                    if i + 1 < s.len() && s[i + 1] == '>' {
                        lex_redirect_shift(s, d, i + 2, st.tokens, c);
                    } else {
                        lex_from_shift(
                            s,
                            d,
                            i + 1,
                            LexState { mode: ParseMode::Value, buf: st.buf.push(c), ..st },
                        );
                    }
                } else if c == '>' {
                    lex_redirect_shift(s, d, i + 1, st.tokens, '1');
                } else if c == ' ' {
                    lex_from_shift(s, d, i + 1, LexState { tokens: with_space(st.tokens), ..st });
                }
            },
            ParseMode::Value => {
                if crate::tokenizer::parser::is_value_char(c) {
                    lex_from_shift(s, d, i + 1, LexState { buf: st.buf.push(c), ..st });
                } else if c == '\\' {
                    if i + 1 < s.len() {
                        lex_from_shift(s, d, i + 2, LexState { buf: st.buf.push(s[i + 1]), ..st });
                    }
                } else if c == ' ' {
                    lex_from_shift(
                        s,
                        d,
                        i + 1,
                        LexState {
                            mode: ParseMode::Idle,
                            nested_single: false,
                            buf: Seq::empty(),
                            tokens: with_space(
                                st.tokens.push(crate::tokenizer::parser::flushed(st.mode, st.buf)),
                            ),
                        },
                    );
                }
            },
            ParseMode::SingleQuote => {
                if c == '\'' {
                    lex_from_shift(
                        s,
                        d,
                        i + 1,
                        LexState {
                            mode: ParseMode::Idle,
                            nested_single: false,
                            buf: Seq::empty(),
                            tokens: st.tokens.push(
                                crate::tokenizer::parser::flushed(st.mode, st.buf),
                            ),
                        },
                    );
                } else {
                    lex_from_shift(s, d, i + 1, LexState { buf: st.buf.push(c), ..st });
                }
            },
            ParseMode::DoubleQuote => {
                if c == '"' {
                    lex_from_shift(
                        s,
                        d,
                        i + 1,
                        LexState {
                            mode: ParseMode::Idle,
                            nested_single: false,
                            buf: Seq::empty(),
                            tokens: st.tokens.push(
                                crate::tokenizer::parser::flushed(st.mode, st.buf),
                            ),
                        },
                    );
                } else if c == '\\' {
                    if st.nested_single {
                        lex_from_shift(s, d, i + 1, LexState { buf: st.buf.push(c), ..st });
                    } else if i + 1 < s.len() && (s[i + 1] == '\\' || s[i + 1] == '$' || s[i + 1]
                        == '"') {
                        lex_from_shift(s, d, i + 2, LexState { buf: st.buf.push(s[i + 1]), ..st });
                    } else {
                        lex_from_shift(s, d, i + 1, LexState { buf: st.buf.push(c), ..st });
                    }
                } else if c == '\'' {
                    lex_from_shift(
                        s,
                        d,
                        i + 1,
                        LexState { nested_single: !st.nested_single, buf: st.buf.push(c), ..st },
                    );
                } else {
                    lex_from_shift(s, d, i + 1, LexState { buf: st.buf.push(c), ..st });
                }
            },
            _ => {
                if crate::tokenizer::parser::is_arg_char(c) {
                    lex_from_shift(s, d, i + 1, LexState { buf: st.buf.push(c), ..st });
                } else if c == ' ' {
                    lex_from_shift(
                        s,
                        d,
                        i + 1,
                        LexState {
                            mode: ParseMode::Idle,
                            nested_single: false,
                            buf: Seq::empty(),
                            tokens: with_space(
                                st.tokens.push(crate::tokenizer::parser::flushed(st.mode, st.buf)),
                            ),
                        },
                    );
                }
            },
        }
    }
}

proof fn lex_redirect_shift(s: Seq<char>, d: int, i: int, toks: Seq<SpecToken>, stream: char)
    requires
        0 <= d <= i <= s.len(),
    ensures
        same_when_ok(lex_redirect(s, i, toks, stream), lex_redirect(s.skip(d), i - d, toks, stream)),
    decreases s.len() - i, 1int,
{
    let t = s.skip(d);
    if i >= s.len() {
    } else {
        assert(t[i - d] == s[i]);
        if s[i] == '>' {
            if i + 1 < s.len() {
                lex_from_shift(s, d, i + 1, init_state());
            }
        } else {
            lex_from_shift(s, d, i, init_state());
        }
    }
}

proof fn lex_redirect_split(s: Seq<char>, i: int, toks: Seq<SpecToken>, stream: char)
    requires
        0 <= i <= s.len(),
    ensures
        match lex_redirect(s, i, toks, stream) {
            Ok(out) => out.redirection matches Some((op, tgt)) ==> exists|j: int|
                0 <= j <= s.len() && ((#[trigger] spec_tokenize(s.skip(j))) matches Ok(sub)
                    && flat_tokens(sub) == tgt),
            Err(_) => true,
        },
{
    if 0 <= i < s.len() {
        if s[i] == '>' {
            if i + 1 < s.len() {
                match lex_from(s, i + 1, init_state()) {
                    Ok(sub) => {
                        lex_from_shift(s, i + 1, i + 1, init_state());
                        assert(spec_tokenize(s.skip(i + 1)) == Ok::<LexOutput, LexError>(sub));
                    },
                    Err(_) => {},
                }
            }
        } else {
            match lex_from(s, i, init_state()) {
                Ok(sub) => {
                    lex_from_shift(s, i, i, init_state());
                    assert(spec_tokenize(s.skip(i)) == Ok::<LexOutput, LexError>(sub));
                },
                Err(_) => {},
            }
        }
    }
}

proof fn lex_from_split(s: Seq<char>, i: int, st: LexState)
    requires
        0 <= i <= s.len(),
    ensures
        match lex_from(s, i, st) {
            Ok(out) => out.redirection matches Some((op, tgt)) ==> exists|j: int|
                0 <= j <= s.len() && ((#[trigger] spec_tokenize(s.skip(j))) matches Ok(sub)
                    && flat_tokens(sub) == tgt),
            Err(_) => true,
        },
    decreases s.len() - i, 0int,
{
    if i >= s.len() {
    } else {
        let c = s[i];
        match st.mode {
            ParseMode::Idle => {
                if c == '\'' {
                    lex_from_split(s, i + 1, LexState { mode: ParseMode::SingleQuote, ..st });
                } else if c == '"' {
                    lex_from_split(s, i + 1, LexState { mode: ParseMode::DoubleQuote, ..st });
                } else if c == '\\' {
                    if i + 1 < s.len() {
                        lex_from_split(
                            s,
                            i + 2,
                            LexState { mode: ParseMode::Value, buf: st.buf.push(s[i + 1]), ..st },
                        );
                    }
                } else if c == '-' {
                    if i + 1 < s.len() && s[i + 1] == '-' {
                        lex_from_split(s, i + 2, LexState { mode: ParseMode::DoubleDashArg, ..st });
                    } else {
                        lex_from_split(s, i + 1, LexState { mode: ParseMode::SingleDashArg, ..st });
                    }
                } else if crate::tokenizer::parser::is_value_start(c) {
                    lex_from_split(
                        s,
                        i + 1,
                        LexState { mode: ParseMode::Value, buf: st.buf.push(c), ..st },
                    );
                } else if crate::tokenizer::parser::is_digit(c) {
                    if i + 1 < s.len() && s[i + 1] == '>' {
                        lex_redirect_split(s, i + 2, st.tokens, c);
                    } else {
                        lex_from_split(
                            s,
                            i + 1,
                            LexState { mode: ParseMode::Value, buf: st.buf.push(c), ..st },
                        );
                    }
                } else if c == '>' {
                    lex_redirect_split(s, i + 1, st.tokens, '1');
                } else if c == ' ' {
                    lex_from_split(s, i + 1, LexState { tokens: with_space(st.tokens), ..st });
                }
            },
            ParseMode::Value => {
                if crate::tokenizer::parser::is_value_char(c) {
                    lex_from_split(s, i + 1, LexState { buf: st.buf.push(c), ..st });
                } else if c == '\\' {
                    if i + 1 < s.len() {
                        lex_from_split(s, i + 2, LexState { buf: st.buf.push(s[i + 1]), ..st });
                    }
                } else if c == ' ' {
                    lex_from_split(
                        s,
                        i + 1,
                        LexState {
                            mode: ParseMode::Idle,
                            nested_single: false,
                            buf: Seq::empty(),
                            tokens: with_space(
                                st.tokens.push(crate::tokenizer::parser::flushed(st.mode, st.buf)),
                            ),
                        },
                    );
                }
            },
            ParseMode::SingleQuote => {
                if c == '\'' {
                    lex_from_split(
                        s,
                        i + 1,
                        LexState {
                            mode: ParseMode::Idle,
                            nested_single: false,
                            buf: Seq::empty(),
                            tokens: st.tokens.push(
                                crate::tokenizer::parser::flushed(st.mode, st.buf),
                            ),
                        },
                    );
                } else {
                    lex_from_split(s, i + 1, LexState { buf: st.buf.push(c), ..st });
                }
            },
            ParseMode::DoubleQuote => {
                if c == '"' {
                    lex_from_split(
                        s,
                        i + 1,
                        LexState {
                            mode: ParseMode::Idle,
                            nested_single: false,
                            buf: Seq::empty(),
                            tokens: st.tokens.push(
                                crate::tokenizer::parser::flushed(st.mode, st.buf),
                            ),
                        },
                    );
                } else if c == '\\' {
                    if st.nested_single {
                        lex_from_split(s, i + 1, LexState { buf: st.buf.push(c), ..st });
                    } else if i + 1 < s.len() && (s[i + 1] == '\\' || s[i + 1] == '$' || s[i + 1]
                        == '"') {
                        lex_from_split(s, i + 2, LexState { buf: st.buf.push(s[i + 1]), ..st });
                    } else {
                        lex_from_split(s, i + 1, LexState { buf: st.buf.push(c), ..st });
                    }
                } else if c == '\'' {
                    lex_from_split(
                        s,
                        i + 1,
                        LexState { nested_single: !st.nested_single, buf: st.buf.push(c), ..st },
                    );
                } else {
                    lex_from_split(s, i + 1, LexState { buf: st.buf.push(c), ..st });
                }
            },
            _ => {
                if crate::tokenizer::parser::is_arg_char(c) {
                    lex_from_split(s, i + 1, LexState { buf: st.buf.push(c), ..st });
                } else if c == ' ' {
                    lex_from_split(
                        s,
                        i + 1,
                        LexState {
                            mode: ParseMode::Idle,
                            nested_single: false,
                            buf: Seq::empty(),
                            tokens: with_space(
                                st.tokens.push(crate::tokenizer::parser::flushed(st.mode, st.buf)),
                            ),
                        },
                    );
                }
            },
        }
    }
}

/// Redirection splitting is idempotent: whenever a tokenization carries a
/// redirection clause, tokenizing the rest of the line after the operator
/// on its own yields, flattened, exactly the clause's target tokens.
pub proof fn tokenize_redirection_split(s: Seq<char>)
    ensures
        match spec_tokenize(s) {
            Ok(out) => out.redirection matches Some((op, tgt)) ==> exists|j: int|
                0 <= j <= s.len() && ((#[trigger] spec_tokenize(s.skip(j))) matches Ok(sub)
                    && flat_tokens(sub) == tgt),
            Err(_) => true,
        },
{
    lex_from_split(s, 0, init_state());
}

} // verus!