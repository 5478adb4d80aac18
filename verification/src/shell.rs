//! Splitting a command line into words as a shell does.

use vstd::prelude::*;

verus! {

/// The words that a POSIX shell would split a command line into, quotes
/// and escapes taken away; `None` for a line with a quote that is not
/// closed.
pub uninterp spec fn shell_split(input: Seq<char>) -> Option<Seq<Seq<char>>>;

/// Splits a command line into words as a shell does; `None` for a line
/// with a quote that is not closed.
///
/// Trusted: calls `shell_words::split`, which walks the characters of its
/// argument once and depends on nothing else. Its only error says that a
/// quote is not closed and carries nothing, so it is handed on as `None`.
/// The contract only gives the result a name.
#[verifier::external_body]
pub(crate) fn split_words(input: &str) -> (r: Option<Vec<String>>)
    ensures
        r.deep_view() == shell_split(input@),
{
    shell_words::split(input).ok()
}

} // verus!
