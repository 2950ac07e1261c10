//! Helpers that inspect and extend text.

use vstd::prelude::*;
use vstd::string::StrSliceExecFns;
use vstd::string::StringExecFns;

verus! {

/// Returns the number of Unicode scalar values in `s` (not the byte length).
pub fn calculate_length(s: &String) -> (len: usize)
    ensures
        len == s@.len(),
{
    s.as_str().unicode_len()
}

/// Appends a single `'!'` to the end of `s`.
pub fn append_exclamation(s: &mut String)
    ensures
        final(s)@ == old(s)@.push('!'),
{
    proof {
        reveal_strlit("!");
    }
    s.append("!");
    assert(s@ =~= old(s)@.push('!'));
}

/// The length of a text is a function of the text alone: any two results
/// that satisfy the contract of `calculate_length` on the same text agree.
pub proof fn lemma_calculate_length_deterministic(s: Seq<char>, len1: usize, len2: usize)
    requires
        len1 == s.len(),
        len2 == s.len(),
    ensures
        len1 == len2,
{
}

/// Appending an exclamation mark is deterministic: from the same starting
/// text, any two results that satisfy the contract of `append_exclamation`
/// agree.
pub proof fn lemma_append_exclamation_deterministic(s: Seq<char>, t1: Seq<char>, t2: Seq<char>)
    requires
        t1 == s.push('!'),
        t2 == s.push('!'),
    ensures
        t1 == t2,
{
}

} // verus!
