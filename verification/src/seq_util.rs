//! Linear search over sequences, as a spec-level function with the lemmas the
//! registry's lookup contracts need.

use vstd::prelude::*;

verus! {

/// Index of the first element of `s` satisfying `p`, or `-1` if none does.
pub open spec fn first_where<T>(s: Seq<T>, p: spec_fn(T) -> bool) -> int
    decreases s.len(),
{
    if s.len() == 0 {
        -1
    } else if p(s[0]) {
        0
    } else if first_where(s.drop_first(), p) == -1 {
        -1
    } else {
        1 + first_where(s.drop_first(), p)
    }
}

/// What `first_where` finds: a satisfying element with none before it, or a
/// witness that no element satisfies `p`.
pub proof fn lemma_first_where<T>(s: Seq<T>, p: spec_fn(T) -> bool)
    ensures
        first_where(s, p) >= -1,
        first_where(s, p) == -1 ==> forall|i: int| 0 <= i < s.len() ==> !p(s[i]),
        first_where(s, p) >= 0 ==> {
            &&& first_where(s, p) < s.len()
            &&& p(s[first_where(s, p)])
            &&& forall|i: int| 0 <= i < first_where(s, p) ==> !p(s[i])
        },
    decreases s.len(),
{
    if s.len() > 0 && !p(s[0]) {
        lemma_first_where(s.drop_first(), p);
        if first_where(s, p) == -1 {
            assert(first_where(s.drop_first(), p) == -1);
            assert forall|i: int| 0 <= i < s.len() implies !p(s[i]) by {
                if i > 0 {
                    assert(!p(s.drop_first()[i - 1]));
                    assert(s[i] == s.drop_first()[i - 1]);
                }
            }
        } else {
            assert forall|i: int| 0 <= i < first_where(s, p) implies !p(s[i]) by {
                if i > 0 {
                    assert(!p(s.drop_first()[i - 1]));
                    assert(s[i] == s.drop_first()[i - 1]);
                }
            }
        }
    }
}

/// `first_where` is determined by a satisfying element with none before it.
pub proof fn lemma_first_where_is<T>(s: Seq<T>, p: spec_fn(T) -> bool, i: int)
    requires
        0 <= i < s.len(),
        p(s[i]),
        forall|j: int| 0 <= j < i ==> !p(s[j]),
    ensures
        first_where(s, p) == i,
    decreases s.len(),
{
    if i == 0 {
    } else {
        assert forall|j: int| 0 <= j < i - 1 implies !p(s.drop_first()[j]) by {
            assert(s.drop_first()[j] == s[j + 1]);
        }
        assert(s.drop_first()[i - 1] == s[i]);
        lemma_first_where_is(s.drop_first(), p, i - 1);
    }
}

/// When no element satisfies `p`, `first_where` reports `-1`.
pub proof fn lemma_first_where_none<T>(s: Seq<T>, p: spec_fn(T) -> bool)
    requires
        forall|j: int| 0 <= j < s.len() ==> !p(s[j]),
    ensures
        first_where(s, p) == -1,
    decreases s.len(),
{
    if s.len() > 0 {
        assert forall|j: int| 0 <= j < s.drop_first().len() implies !p(s.drop_first()[j]) by {
            assert(s.drop_first()[j] == s[j + 1]);
        }
        lemma_first_where_none(s.drop_first(), p);
    }
}

} // verus!
