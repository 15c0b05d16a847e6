//! The captured output of an external process, and how it is split into a
//! response and an error for the redirection executor.
use crate::util::error::ShellError;
use vstd::prelude::*;
use vstd::utf8::decode_utf8;
use vstd::utf8::valid_utf8;

verus! {

/// What running an external process to completion yielded: whether it
/// exited successfully, and its captured output and error bytes.
pub struct CapturedOutput {
    pub success: bool,
    pub stdout: Vec<u8>,
    pub stderr: Vec<u8>,
}

/// A byte sequence with a single trailing line feed removed, when one is
/// present. Applying this twice never trims twice: the result of a trim
/// carries no information about a further trailing line feed, so the
/// operation is applied exactly once per captured buffer.
pub open spec fn spec_trimmed(b: Seq<u8>) -> Seq<u8> {
    if b.len() > 0 && b.last() == 10u8 {
        b.drop_last()
    } else {
        b
    }
}

/// Removes a single trailing line-feed byte, when one is present.
pub fn trim_trailing_newline(v: &mut Vec<u8>)
    ensures
        final(v)@ == spec_trimmed(old(v)@),
{
    let n = v.len();
    if n > 0 && v[n - 1] == 10u8 {
        v.pop();
    }
}

/// Relies on `String::from_utf8_lossy`: for bytes that are valid UTF-8, the
/// result holds exactly the decoded characters. The result depends on the
/// bytes alone.
#[verifier::external_body]
pub(crate) fn bytes_to_string(b: &Vec<u8>) -> (r: String)
    ensures
        valid_utf8(b@) ==> r@ == decode_utf8(b@),
{
    String::from(String::from_utf8_lossy(b))
}

/// Splitting a captured output into the response and error halves the
/// redirection executor routes separately.
pub trait SplitOutput {
    /// The trimmed output bytes when any remain, and the trimmed error
    /// bytes as an error value when any remain.
    fn split_output(&self) -> (Option<Vec<u8>>, Option<ShellError>);
}

impl SplitOutput for CapturedOutput {
    /// Trims one trailing line feed from each captured stream; an empty
    /// stream becomes `None`, a non-empty error stream becomes an error
    /// carrying the error text.
    fn split_output(&self) -> (r: (Option<Vec<u8>>, Option<ShellError>))
        ensures
            ({
                let out = spec_trimmed(self.stdout@);
                &&& out.len() == 0 ==> r.0 is None
                &&& out.len() > 0 ==> (r.0 matches Some(v) && v@ == out)
            }),
            ({
                let err = spec_trimmed(self.stderr@);
                &&& err.len() == 0 ==> r.1 is None
                &&& err.len() > 0 ==> (r.1 matches Some(e) && e matches ShellError::Other(m)
                    && (valid_utf8(err) ==> m@ == decode_utf8(err)))
            }),
    {
        let mut output_array = vstd::slice::slice_to_vec(self.stdout.as_slice());
        let mut error_array = vstd::slice::slice_to_vec(self.stderr.as_slice());
        trim_trailing_newline(&mut output_array);
        trim_trailing_newline(&mut error_array);

        let output: Option<Vec<u8>> = if output_array.is_empty() {
            Option::None
        } else {
            Option::Some(output_array)
        };
        let error: Option<ShellError> = if error_array.is_empty() {
            Option::None
        } else {
            Option::Some(ShellError::Other(bytes_to_string(&error_array)))
        };
        (output, error)
    }
}

} // verus!
