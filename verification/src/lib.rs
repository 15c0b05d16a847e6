//! A verified core for a small interactive shell: a lexer that splits an
//! input line into tokens (honouring quoting, escaping, flag arguments and
//! output redirection), and a dispatcher that routes the resulting token
//! sequence to a builtin command or an external executable, optionally
//! redirecting the captured output to a file.
//!
//! Terminal handling, process spawning and the filesystem are reached through
//! narrow trait interfaces implemented by the embedding program; everything
//! that decides or computes lives here and carries a contract.
pub mod input_parser;
pub mod interpreter;
pub mod provider;
pub mod shell;
pub mod tokenizer;
pub mod util;
