//! "The first row that satisfies a predicate", as lookups by key in a table do.
use vstd::prelude::*;

verus! {

/// `i` is the first position below `len` where `p` holds.
pub open spec fn is_first(len: int, p: spec_fn(int) -> bool, i: int) -> bool {
    0 <= i < len && p(i) && forall|j: int| 0 <= j < i ==> !#[trigger] p(j)
}

/// The first position below `len` where `p` holds, if any.
pub open spec fn first_where(len: int, p: spec_fn(int) -> bool) -> Option<int> {
    if exists|i: int| is_first(len, p, i) {
        Some(choose|i: int| is_first(len, p, i))
    } else {
        None
    }
}

pub proof fn lemma_first_where_some(len: int, p: spec_fn(int) -> bool, i: int)
    requires
        is_first(len, p, i),
    ensures
        first_where(len, p) == Some(i),
{
    let k = choose|k: int| is_first(len, p, k);
    assert(is_first(len, p, k));
    if k < i {
        assert(!p(k));
    } else if i < k {
        assert(!p(i));
    }
}

pub proof fn lemma_first_where_none(len: int, p: spec_fn(int) -> bool)
    requires
        forall|i: int| 0 <= i < len ==> !#[trigger] p(i),
    ensures
        first_where(len, p) == None::<int>,
{
}

} // verus!
