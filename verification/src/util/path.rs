//! Locating an executable on the colon-separated search path.
use crate::shell::ShellHost;
use vstd::prelude::*;
use vstd::string::StringExecFns;

verus! {

/// The pieces of `s` between occurrences of `sep`, scanned from position
/// `i` with the piece read so far and the pieces already complete.
pub open spec fn split_from(
    s: Seq<char>,
    sep: char,
    i: int,
    cur: Seq<char>,
    acc: Seq<Seq<char>>,
) -> Seq<Seq<char>>
    decreases s.len() - i,
{
    if i < 0 || i >= s.len() {
        acc.push(cur)
    } else if s[i] == sep {
        split_from(s, sep, i + 1, Seq::empty(), acc.push(cur))
    } else {
        split_from(s, sep, i + 1, cur.push(s[i]), acc)
    }
}

/// The pieces of `s` between occurrences of `sep`: splitting `"a:b"` at
/// `':'` gives `["a", "b"]`, and every separator adds a piece, so `":"`
/// gives two empty pieces.
pub open spec fn spec_split(s: Seq<char>, sep: char) -> Seq<Seq<char>> {
    split_from(s, sep, 0, Seq::empty(), Seq::empty())
}

/// The models of a sequence of strings, elementwise.
pub open spec fn string_views(v: Seq<String>) -> Seq<Seq<char>> {
    Seq::new(v.len(), |i: int| v[i]@)
}

/// Splits a string at every occurrence of the separator.
#[verifier::loop_isolation(false)]
pub fn split_string(s: &str, sep: char) -> (r: Vec<String>)
    ensures
        string_views(r@) == spec_split(s@, sep),
{
    let chars = crate::tokenizer::text::to_char_vec(s);
    let mut cur: Vec<char> = Vec::new();
    let mut acc: Vec<String> = Vec::new();
    let mut i: usize = 0;
    proof {
        assert(string_views(acc@) =~= Seq::<Seq<char>>::empty());
    }
    while i < chars.len()
        invariant
            0 <= i <= chars@.len(),
            chars@ == s@,
            split_from(s@, sep, i as int, cur@, string_views(acc@)) == spec_split(s@, sep),
        decreases chars@.len() - i,
    {
        let c = chars[i];
        if c == sep {
            let piece = crate::tokenizer::text::chars_to_string(&cur);
            proof {
                assert(string_views(acc@.push(piece)) =~= string_views(acc@).push(piece@));
            }
            acc.push(piece);
            cur = Vec::new();
        } else {
            cur.push(c);
        }
        i = i + 1;
    }
    let piece = crate::tokenizer::text::chars_to_string(&cur);
    proof {
        assert(string_views(acc@.push(piece)) =~= string_views(acc@).push(piece@));
    }
    acc.push(piece);
    acc
}

/// Finding the executable a command name stands for.
pub trait ExecutionPath {
    /// The full path the name resolves to on the search path, if any.
    fn get_exec_path<H: ShellHost>(&self) -> Option<String>;
}

impl ExecutionPath for String {
    /// Walks the colon-separated entries of the `PATH` environment
    /// variable in order and returns the first entry under which a file
    /// with this name exists, joined with `/`. Without a `PATH` value no
    /// executable is found.
    fn get_exec_path<H: ShellHost>(&self) -> (r: Option<String>)
        ensures
            r matches Some(p) ==> (exists|d: Seq<char>|
                p@ == d + seq!['/'] + self@),
    {
        let path_env: String = match H::env_var("PATH") {
            Option::Some(v) => v,
            Option::None => {
                return Option::None;
            },
        };
        let dirs = split_string(path_env.as_str(), ':');
        let mut i: usize = 0;
        while i < dirs.len()
            invariant
                0 <= i <= dirs@.len(),
            decreases dirs@.len() - i,
        {
            let mut candidate: String = dirs[i].clone();
            candidate.append("/");
            candidate.append(self.as_str());
            proof {
                reveal_strlit("/");
                assert("/"@ =~= seq!['/']);
                assert(candidate@ == dirs@[i as int]@ + seq!['/'] + self@);
            }
            if H::file_exists(candidate.as_str()) {
                return Option::Some(candidate);
            }
            i = i + 1;
        }
        Option::None
    }
}

} // verus!
