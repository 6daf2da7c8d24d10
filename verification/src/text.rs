//! Text without spaces, as tags are kept.

use vstd::prelude::*;
use vstd::string::StrSliceExecFns;
use vstd::string::StringExecFns;

verus! {

/// A text without its spaces.
pub open spec fn without_spaces(text: Seq<char>) -> Seq<char> {
    text.filter(|c: char| c != ' ')
}

/// Takes the spaces out of a text.
pub fn strip_spaces(text: &str) -> (stripped: String)
    ensures
        stripped@ == without_spaces(text@),
{
    let n: usize = text.unicode_len();
    let mut stripped = String::new();
    let mut i: usize = 0;
    proof {
        reveal(Seq::filter);
        assert(text@.subrange(0, 0) =~= Seq::<char>::empty());
    }
    while i < n
        invariant
            n == text@.len(),
            i <= n,
            stripped@ == without_spaces(text@.subrange(0, i as int)),
        decreases n - i,
    {
        let c: char = text.get_char(i);
        proof {
            reveal(Seq::filter);
            let longer = text@.subrange(0, i + 1);
            assert(longer.drop_last() =~= text@.subrange(0, i as int));
            assert(longer.last() == c);
            assert(text@.subrange(i as int, i + 1) =~= seq![c]);
        }
        if c != ' ' {
            stripped.append(text.substring_char(i, i + 1));
            assert(stripped@ =~= without_spaces(text@.subrange(0, i + 1)));
        }
        i += 1;
    }
    assert(text@.subrange(0, n as int) =~= text@);
    stripped
}

} // verus!
