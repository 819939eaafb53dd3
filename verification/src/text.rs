//! Two facts about texts that are put together from parts.

use vstd::prelude::*;

verus! {

/// Two texts that are equal behind the same beginning are equal.
pub proof fn lemma_cancel_front(front: Seq<char>, a: Seq<char>, b: Seq<char>)
    requires
        front + a == front + b,
    ensures
        a == b,
{
    assert((front + a).len() == front.len() + a.len());
    assert((front + b).len() == front.len() + b.len());
    assert forall|i: int| 0 <= i < a.len() implies a[i] == b[i] by {
        assert((front + a)[front.len() + i] == a[i]);
        assert((front + b)[front.len() + i] == b[i]);
    }
    assert(a =~= b);
}

/// Two texts that are equal before the same end are equal.
pub proof fn lemma_cancel_back(a: Seq<char>, b: Seq<char>, back: Seq<char>)
    requires
        a + back == b + back,
    ensures
        a == b,
{
    assert((a + back).len() == a.len() + back.len());
    assert((b + back).len() == b.len() + back.len());
    assert forall|i: int| 0 <= i < a.len() implies a[i] == b[i] by {
        assert((a + back)[i] == a[i]);
        assert((b + back)[i] == b[i]);
    }
    assert(a =~= b);
}

} // verus!
