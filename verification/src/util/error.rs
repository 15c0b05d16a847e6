//! The error type every non-lexical failure of the shell core is reported
//! through, and its conversion to raw bytes.
use vstd::prelude::*;
use vstd::string::StrSliceExecFns;
use vstd::string::StringExecFns;

verus! {

/// A failure while dispatching or executing one input line.
///
/// `Interrupted` is not a true failure: it is the control-flow signal the
/// `exit` builtin uses to terminate the surrounding read loop.
#[derive(Clone, Debug, PartialEq, Eq)]
pub enum ShellError {
    /// Malformed input, or an external process that exited unsuccessfully
    /// (the message then carries its captured error output).
    InvalidInput(String),
    /// The command names neither a builtin nor an executable on the search
    /// path.
    NotFound(String),
    /// A well-formed request that cannot be honoured, such as a directory
    /// change to a path that does not exist.
    InvalidData(String),
    /// The shell should terminate.
    Interrupted,
    /// Any other failure, such as querying a redirection stream of a token
    /// that is no redirection operator.
    Other(String),
}

impl ShellError {
    /// The textual form of the error.
    pub open spec fn spec_message(&self) -> Seq<char> {
        match self {
            ShellError::InvalidInput(m) => m@,
            ShellError::NotFound(m) => m@,
            ShellError::InvalidData(m) => m@,
            ShellError::Interrupted => Seq::empty(),
            ShellError::Other(m) => m@,
        }
    }

    /// The textual form of the error, as written to the error channel.
    pub fn message(&self) -> (r: String)
        ensures
            r@ == self.spec_message(),
    {
        match self {
            ShellError::InvalidInput(m) => m.clone(),
            ShellError::NotFound(m) => m.clone(),
            ShellError::InvalidData(m) => m.clone(),
            ShellError::Interrupted => String::new(),
            ShellError::Other(m) => m.clone(),
        }
    }

    /// The error a stream query on a non-operator token reports.
    pub fn not_redirection() -> (r: ShellError)
        ensures
            r matches ShellError::Other(m) && m@ == "Checked token is not a redirection token"@,
    {
        ShellError::Other(String::from_str("Checked token is not a redirection token"))
    }
}

/// Conversion of an error into the bytes written to a redirection target.
pub trait AsBytes {
    /// The UTF-8 bytes of the error's textual form.
    fn as_bytes(&self) -> Vec<u8>;
}

impl AsBytes for ShellError {
    fn as_bytes(&self) -> (r: Vec<u8>)
        ensures
            r@ == vstd::utf8::encode_utf8(self.spec_message()),
    {
        self.message().as_str().as_bytes_vec()
    }
}

} // verus!
