//! The order of paths: byte by byte, a proper prefix before what extends it.

use vstd::prelude::*;

verus! {

/// Both paths have at least `count` bytes, and the same ones.
pub open spec fn agree_before(first: Seq<u8>, second: Seq<u8>, count: int) -> bool {
    &&& 0 <= count <= first.len()
    &&& count <= second.len()
    &&& first.subrange(0, count) == second.subrange(0, count)
}

/// The paths agree before position `at`, and there `first` ends or has the
/// smaller byte, while `second` goes on.
pub open spec fn path_precedes_at(first: Seq<u8>, second: Seq<u8>, at: int) -> bool {
    &&& agree_before(first, second, at)
    &&& at < second.len()
    &&& (at == first.len() || first[at] < second[at])
}

/// `first` stands before `second` in the lexicographic order of their bytes.
pub open spec fn path_precedes(first: Seq<u8>, second: Seq<u8>) -> bool {
    exists|at: int| path_precedes_at(first, second, at)
}

/// Paths that agree before `count` have the same byte at every position
/// below it.
proof fn lemma_agree_before_index(first: Seq<u8>, second: Seq<u8>, count: int, at: int)
    requires
        agree_before(first, second, count),
        0 <= at < count,
    ensures
        first[at] == second[at],
{
    assert(first.subrange(0, count)[at] == first[at]);
    assert(second.subrange(0, count)[at] == second[at]);
}

/// Agreement before a position carries over to every earlier position.
proof fn lemma_agree_before_earlier(first: Seq<u8>, second: Seq<u8>, count: int, at: int)
    requires
        agree_before(first, second, count),
        0 <= at <= count,
    ensures
        agree_before(first, second, at),
{
    let head = first.subrange(0, at);
    let other = second.subrange(0, at);
    assert forall|i: int| 0 <= i < head.len() implies head[i] == other[i] by {
        lemma_agree_before_index(first, second, count, i);
    }
    assert(head =~= other);
}

/// Agreement grows by one position where the next bytes are equal.
proof fn lemma_agree_before_next(first: Seq<u8>, second: Seq<u8>, count: int)
    requires
        agree_before(first, second, count),
        count < first.len(),
        count < second.len(),
        first[count] == second[count],
    ensures
        agree_before(first, second, count + 1),
{
    let head = first.subrange(0, count + 1);
    let other = second.subrange(0, count + 1);
    assert forall|i: int| 0 <= i < head.len() implies head[i] == other[i] by {
        if i < count {
            lemma_agree_before_index(first, second, count, i);
        }
    }
    assert(head =~= other);
}

/// Two paths part at one position only: where one precedes the other at
/// `at`, and both agree before `count`, then `count` is not beyond `at`.
proof fn lemma_parting_bounds_agreement(
    first: Seq<u8>,
    second: Seq<u8>,
    at: int,
    count: int,
)
    requires
        path_precedes_at(first, second, at),
        agree_before(first, second, count),
    ensures
        count <= at,
{
    if at < count {
        lemma_agree_before_index(first, second, count, at);
    }
}

/// No path stands before itself, and of two paths at most one stands before
/// the other.
pub proof fn lemma_path_precedes_asymmetric(first: Seq<u8>, second: Seq<u8>)
    ensures
        !(path_precedes(first, second) && path_precedes(second, first)),
{
    if path_precedes(first, second) && path_precedes(second, first) {
        let forth = choose|at: int| path_precedes_at(first, second, at);
        let back = choose|at: int| path_precedes_at(second, first, at);
        assert(agree_before(second, first, forth));
        assert(agree_before(first, second, back));
        lemma_parting_bounds_agreement(first, second, forth, back);
        lemma_parting_bounds_agreement(second, first, back, forth);
    }
}

/// What stands before a path stands before everything after that path.
pub proof fn lemma_path_precedes_transitive(first: Seq<u8>, second: Seq<u8>, third: Seq<u8>)
    requires
        path_precedes(first, second),
        path_precedes(second, third),
    ensures
        path_precedes(first, third),
{
    let low = choose|at: int| path_precedes_at(first, second, at);
    let high = choose|at: int| path_precedes_at(second, third, at);
    let at = if low <= high { low } else { high };
    lemma_agree_before_earlier(first, second, low, at);
    lemma_agree_before_earlier(second, third, high, at);
    assert(first.subrange(0, at) =~= third.subrange(0, at));
    if low < high {
        lemma_agree_before_index(second, third, high, low);
    } else if high < low {
        lemma_agree_before_index(first, second, low, high);
    }
    assert(path_precedes_at(first, third, at));
}

/// Of two different paths one stands before the other: the order is total.
pub proof fn lemma_path_precedes_total(first: Seq<u8>, second: Seq<u8>)
    ensures
        first == second || path_precedes(first, second) || path_precedes(second, first),
{
    assert(first.subrange(0, 0) =~= second.subrange(0, 0));
    lemma_parting_exists(first, second, 0);
}

/// Two paths that agree before `count` are equal, or part at `count` or
/// later.
proof fn lemma_parting_exists(first: Seq<u8>, second: Seq<u8>, count: int)
    requires
        agree_before(first, second, count),
    ensures
        first == second || path_precedes(first, second) || path_precedes(second, first),
    decreases first.len() - count,
{
    if count == first.len() {
        if count == second.len() {
            assert(first.subrange(0, count) =~= first);
            assert(second.subrange(0, count) =~= second);
        } else {
            assert(path_precedes_at(first, second, count));
        }
    } else if count == second.len() {
        assert(path_precedes_at(second, first, count));
    } else if first[count] < second[count] {
        assert(path_precedes_at(first, second, count));
    } else if second[count] < first[count] {
        assert(path_precedes_at(second, first, count));
    } else {
        lemma_agree_before_next(first, second, count);
        lemma_parting_exists(first, second, count + 1);
    }
}

/// Whether `first` stands before `second` in the lexicographic order of
/// their bytes.
pub fn path_before(first: &Vec<u8>, second: &Vec<u8>) -> (before: bool)
    ensures
        before == path_precedes(first@, second@),
{
    let mut at: usize = 0;
    proof {
        assert(first@.subrange(0, 0) =~= second@.subrange(0, 0));
    }
    while at < first.len() && at < second.len() && first[at] == second[at]
        invariant
            agree_before(first@, second@, at as int),
        decreases first.len() - at,
    {
        proof {
            lemma_agree_before_next(first@, second@, at as int);
        }
        at = at + 1;
    }
    let before = at < second.len() && (at == first.len() || first[at] < second[at]);
    proof {
        if before {
            assert(path_precedes_at(first@, second@, at as int));
        } else {
            assert forall|other: int| !path_precedes_at(first@, second@, other) by {
                if path_precedes_at(first@, second@, other) {
                    lemma_parting_bounds_agreement(first@, second@, other, at as int);
                    if at < other {
                        lemma_agree_before_index(first@, second@, other, at as int);
                    }
                }
            }
        }
    }
    before
}

} // verus!
