//! Small facts about sequences used by several modules.

use vstd::prelude::*;

verus! {

/// The first `Some` that `f` gives over `s`, scanning from the front.
pub open spec fn first_some<A, B>(s: Seq<A>, f: spec_fn(A) -> Option<B>) -> Option<B>
    decreases s.len(),
{
    if s.len() == 0 {
        None
    } else {
        match f(s[0]) {
            Some(b) => Some(b),
            None => first_some(s.drop_first(), f),
        }
    }
}

/// Scanning from position `i` gives what scanning from the front gives when
/// nothing before `i` matched.
pub proof fn lemma_first_some_step<A, B>(s: Seq<A>, f: spec_fn(A) -> Option<B>, i: int)
    requires
        0 <= i < s.len(),
    ensures
        first_some(s.skip(i), f) == match f(s[i]) {
            Some(b) => Some(b),
            None => first_some(s.skip(i + 1), f),
        },
{
    assert(s.skip(i).drop_first() =~= s.skip(i + 1));
    assert(s.skip(i)[0] == s[i]);
}

} // verus!
