//! Selection of an extreme among ranks, with ties going to the earliest.

use vstd::prelude::*;

verus! {

/// Whether `i` is the first position of `s` that holds its greatest value.
pub open spec fn is_first_max(s: Seq<i64>, i: int) -> bool {
    &&& 0 <= i < s.len()
    &&& forall|j: int| 0 <= j < s.len() ==> s[j] <= s[i]
    &&& forall|j: int| 0 <= j < i ==> s[j] < s[i]
}

/// Whether `i` is the first position of `s` that holds its least value.
pub open spec fn is_first_min(s: Seq<i64>, i: int) -> bool {
    &&& 0 <= i < s.len()
    &&& forall|j: int| 0 <= j < s.len() ==> s[i] <= s[j]
    &&& forall|j: int| 0 <= j < i ==> s[i] < s[j]
}

/// The first position of a sequence that is not empty at which it is greatest.
pub open spec fn first_max(s: Seq<i64>) -> int {
    choose|i: int| is_first_max(s, i)
}

/// The first position of a sequence that is not empty at which it is least.
pub open spec fn first_min(s: Seq<i64>) -> int {
    choose|i: int| is_first_min(s, i)
}

/// A sequence that is not empty has a first greatest position.
pub proof fn lemma_first_max_exists(s: Seq<i64>)
    requires
        s.len() > 0,
    ensures
        is_first_max(s, first_max(s)),
    decreases s.len(),
{
    if s.len() == 1 {
        assert(is_first_max(s, 0));
    } else {
        let front = s.drop_last();
        lemma_first_max_exists(front);
        let p = first_max(front);
        assert(forall|j: int| 0 <= j < front.len() ==> front[j] == s[j]);
        if s.last() > s[p] {
            assert(is_first_max(s, s.len() - 1));
        } else {
            assert(is_first_max(s, p));
        }
    }
}

/// A sequence that is not empty has a first least position.
pub proof fn lemma_first_min_exists(s: Seq<i64>)
    requires
        s.len() > 0,
    ensures
        is_first_min(s, first_min(s)),
    decreases s.len(),
{
    if s.len() == 1 {
        assert(is_first_min(s, 0));
    } else {
        let front = s.drop_last();
        lemma_first_min_exists(front);
        let p = first_min(front);
        assert(forall|j: int| 0 <= j < front.len() ==> front[j] == s[j]);
        if s.last() < s[p] {
            assert(is_first_min(s, s.len() - 1));
        } else {
            assert(is_first_min(s, p));
        }
    }
}

/// A sequence has at most one first greatest position, so whichever position
/// passes for it is `first_max`.
pub proof fn lemma_first_max_unique(s: Seq<i64>, i: int)
    requires
        is_first_max(s, i),
    ensures
        first_max(s) == i,
{
    let c = first_max(s);
    assert(is_first_max(s, c));
    if c < i {
        assert(s[c] < s[i]);
        assert(s[i] <= s[c]);
    } else if i < c {
        assert(s[i] < s[c]);
        assert(s[c] <= s[i]);
    }
}

/// A sequence has at most one first least position, so whichever position
/// passes for it is `first_min`.
pub proof fn lemma_first_min_unique(s: Seq<i64>, i: int)
    requires
        is_first_min(s, i),
    ensures
        first_min(s) == i,
{
    let c = first_min(s);
    assert(is_first_min(s, c));
    if c < i {
        assert(s[i] < s[c]);
        assert(s[c] <= s[i]);
    } else if i < c {
        assert(s[c] < s[i]);
        assert(s[i] <= s[c]);
    }
}

/// The first position at which `values` is greatest.
pub fn first_max_index(values: &Vec<i64>) -> (best: usize)
    requires
        values.len() > 0,
    ensures
        is_first_max(values@, best as int),
        best == first_max(values@),
{
    let mut best: usize = 0;
    let mut i: usize = 1;
    while i < values.len()
        invariant
            1 <= i <= values.len(),
            best < i,
            forall|j: int| 0 <= j < i ==> values@[j] <= values@[best as int],
            forall|j: int| 0 <= j < best ==> values@[j] < values@[best as int],
        decreases values.len() - i,
    {
        if values[i] > values[best] {
            best = i;
        }
        i += 1;
    }
    proof {
        lemma_first_max_unique(values@, best as int);
    }
    best
}

/// The first position at which `values` is least.
pub fn first_min_index(values: &Vec<i64>) -> (best: usize)
    requires
        values.len() > 0,
    ensures
        is_first_min(values@, best as int),
        best == first_min(values@),
{
    let mut best: usize = 0;
    let mut i: usize = 1;
    while i < values.len()
        invariant
            1 <= i <= values.len(),
            best < i,
            forall|j: int| 0 <= j < i ==> values@[best as int] <= values@[j],
            forall|j: int| 0 <= j < best ==> values@[best as int] < values@[j],
        decreases values.len() - i,
    {
        if values[i] < values[best] {
            best = i;
        }
        i += 1;
    }
    proof {
        lemma_first_min_unique(values@, best as int);
    }
    best
}

} // verus!
