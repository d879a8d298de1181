//! Measuring widget text.
use vstd::prelude::*;

verus! {

broadcast use vstd::string::group_string_axioms;

/// The number of line breaks in `s`.
pub open spec fn newlines(s: Seq<char>) -> nat
    decreases s.len(),
{
    if s.len() == 0 {
        0
    } else {
        newlines(s.drop_last()) + if s.last() == '\n' {
            1nat
        } else {
            0nat
        }
    }
}

/// The number of lines that `text` is drawn on: one more than its line breaks.
pub fn line_count(text: &str) -> (r: usize)
    requires
        text@.len() < usize::MAX,
    ensures
        r == newlines(text@) + 1,
{
    let mut count: usize = 0;
    for ch in it: text.chars()
        invariant
            it.seq() == text@,
            text@.len() < usize::MAX,
            count <= it.index(),
            count == newlines(it.seq().take(it.index() as int)),
    {
        proof {
            let s = it.seq().take(it.index() + 1);
            assert(s.drop_last() =~= it.seq().take(it.index() as int));
            assert(s.last() == ch);
        }
        if ch == '\n' {
            count = count + 1;
        }
    }
    assert(text@.take(text@.len() as int) =~= text@);
    count + 1
}

} // verus!
