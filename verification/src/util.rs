//! Small helper lemmas shared by the crate's loop proofs.

use vstd::prelude::*;

verus! {

/// Stepping a cursor through a sequence: the suffix at `i` starts with the
/// element at `i`, and dropping that element leaves the suffix at `i + 1`.
pub proof fn lemma_skip_step<A>(s: Seq<A>, i: int)
    requires
        0 <= i < s.len(),
    ensures
        s.skip(i).len() == s.len() - i,
        s.skip(i)[0] == s[i],
        s.skip(i).drop_first() =~= s.skip(i + 1),
{
}

/// The suffix of a sequence at its full length is empty, and the suffix at
/// zero is the sequence itself.
pub proof fn lemma_skip_ends<A>(s: Seq<A>)
    ensures
        s.skip(s.len() as int) =~= Seq::<A>::empty(),
        s.skip(0) =~= s,
{
}

/// The position of the first occurrence of a value in a sequence, or the
/// sequence's length if it does not occur.
pub open spec fn first_idx<A>(s: Seq<A>, x: A) -> int
    decreases s.len(),
{
    if s.len() == 0 {
        0
    } else if s[0] == x {
        0
    } else {
        1 + first_idx(s.drop_first(), x)
    }
}

/// What the first occurrence position means: it is within the sequence and
/// points at the value exactly when the value occurs at all, and nothing
/// before it is the value.
pub proof fn lemma_first_idx<A>(s: Seq<A>, x: A)
    ensures
        0 <= first_idx(s, x) <= s.len(),
        first_idx(s, x) < s.len() ==> s[first_idx(s, x)] == x,
        forall|j: int| 0 <= j < first_idx(s, x) ==> s[j] != x,
    decreases s.len(),
{
    if s.len() > 0 && s[0] != x {
        lemma_first_idx(s.drop_first(), x);
        assert forall|j: int| 0 <= j < first_idx(s, x) implies s[j] != x by {
            if j > 0 {
                assert(s[j] == s.drop_first()[j - 1]);
            }
        }
    }
}

/// A found position that is preceded only by other values is the first
/// occurrence position.
pub proof fn lemma_first_idx_found<A>(s: Seq<A>, x: A, i: int)
    requires
        0 <= i < s.len(),
        s[i] == x,
        forall|j: int| 0 <= j < i ==> s[j] != x,
    ensures
        first_idx(s, x) == i,
    decreases i,
{
    if i > 0 {
        lemma_first_idx_found(s.drop_first(), x, i - 1);
    }
}

/// When the value occurs nowhere, the first occurrence position is the
/// sequence's length.
pub proof fn lemma_first_idx_absent<A>(s: Seq<A>, x: A)
    requires
        forall|j: int| 0 <= j < s.len() ==> s[j] != x,
    ensures
        first_idx(s, x) == s.len(),
    decreases s.len(),
{
    if s.len() > 0 {
        lemma_first_idx_absent(s.drop_first(), x);
    }
}

} // verus!
