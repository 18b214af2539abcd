//! The order in which the entries of a directory are listed.

use vstd::prelude::*;

use crate::options::SortingKey;
use crate::path_order::{
    lemma_path_precedes_asymmetric, lemma_path_precedes_total, lemma_path_precedes_transitive,
    path_before, path_precedes,
};

verus! {

/// What the order reads of one entry.
#[derive(Clone, Debug, PartialEq, Eq)]
pub struct EntryKeys {
    /// The bytes of the entry's path. Read when the order is by name.
    pub path: Vec<u8>,
    /// The entry's size in bytes. Read when the order is by size.
    pub size: u64,
}

/// `first` has the smaller key.
pub open spec fn ascends(first: EntryKeys, second: EntryKeys, by: SortingKey) -> bool {
    match by {
        SortingKey::Size => first.size < second.size,
        SortingKey::Name => path_precedes(first.path@, second.path@),
    }
}

/// The comparison of the order: `first` has to stand before `second`. The
/// reverse flag inverts it.
pub open spec fn precedes(
    first: EntryKeys,
    second: EntryKeys,
    by: SortingKey,
    reverse: bool,
) -> bool {
    if reverse {
        ascends(second, first, by)
    } else {
        ascends(first, second, by)
    }
}

/// Entry number `first` is listed before entry number `second`: the
/// comparison puts it first, or it leaves the two undecided and `first` is
/// the one that was given first.
pub open spec fn listed_before(
    keys: Seq<EntryKeys>,
    by: SortingKey,
    reverse: bool,
    first: int,
    second: int,
) -> bool {
    precedes(keys[first], keys[second], by, reverse) || (!precedes(
        keys[second],
        keys[first],
        by,
        reverse,
    ) && first < second)
}

/// `order` holds each of the first `count` entry numbers once, each before
/// all those that it is listed before.
pub open spec fn orders_prefix(
    keys: Seq<EntryKeys>,
    by: SortingKey,
    reverse: bool,
    order: Seq<usize>,
    count: nat,
) -> bool {
    &&& order.len() == count
    &&& forall|index: usize| index < count ==> order.contains(index)
    &&& forall|at: int| 0 <= at < order.len() ==> order[at] < count
    &&& forall|a: int, b: int|
        #![trigger order[a], order[b]]
        0 <= a < b < order.len() ==> listed_before(
            keys,
            by,
            reverse,
            order[a] as int,
            order[b] as int,
        )
}

/// `order` is the listing order of `keys`: a permutation of the entry
/// numbers, sorted by the comparison, in which entries that the comparison
/// leaves undecided keep the order in which they were given.
pub open spec fn is_listing_order(
    keys: Seq<EntryKeys>,
    by: SortingKey,
    reverse: bool,
    order: Seq<usize>,
) -> bool {
    orders_prefix(keys, by, reverse, order, keys.len())
}

/// Of two entries at most one has the smaller key.
pub proof fn lemma_ascends_asymmetric(first: EntryKeys, second: EntryKeys, by: SortingKey)
    ensures
        !(ascends(first, second, by) && ascends(second, first, by)),
{
    lemma_path_precedes_asymmetric(first.path@, second.path@);
}

/// Where `first` has a smaller key than `second`, every entry has a larger
/// key than `first` or a smaller one than `second`.
pub proof fn lemma_ascends_between(
    first: EntryKeys,
    second: EntryKeys,
    third: EntryKeys,
    by: SortingKey,
)
    requires
        ascends(first, second, by),
    ensures
        ascends(first, third, by) || ascends(third, second, by),
{
    if by == SortingKey::Name {
        lemma_path_precedes_total(first.path@, third.path@);
        if path_precedes(third.path@, first.path@) {
            lemma_path_precedes_transitive(third.path@, first.path@, second.path@);
        }
    }
}

/// Whether the comparison puts `first` before `second`.
pub fn entry_before(first: &EntryKeys, second: &EntryKeys, by: SortingKey, reverse: bool) -> (before:
    bool)
    ensures
        before == precedes(*first, *second, by, reverse),
{
    match by {
        SortingKey::Size => {
            if reverse {
                second.size < first.size
            } else {
                first.size < second.size
            }
        },
        SortingKey::Name => {
            if reverse {
                path_before(&second.path, &first.path)
            } else {
                path_before(&first.path, &second.path)
            }
        },
    }
}

/// Of two entries the comparison puts at most one before the other.
pub proof fn lemma_precedes_asymmetric(
    first: EntryKeys,
    second: EntryKeys,
    by: SortingKey,
    reverse: bool,
)
    ensures
        !(precedes(first, second, by, reverse) && precedes(second, first, by, reverse)),
{
    lemma_ascends_asymmetric(first, second, by);
}

/// Where the comparison puts `first` before `second`, it puts `first` before
/// `third` or `third` before `second`, whatever `third` is.
pub proof fn lemma_precedes_between(
    first: EntryKeys,
    second: EntryKeys,
    third: EntryKeys,
    by: SortingKey,
    reverse: bool,
)
    requires
        precedes(first, second, by, reverse),
    ensures
        precedes(first, third, by, reverse) || precedes(third, second, by, reverse),
{
    if reverse {
        lemma_ascends_between(second, first, third, by);
    } else {
        lemma_ascends_between(first, second, third, by);
    }
}

/// What has to stand before a listed entry has to stand before all that
/// are listed behind it.
proof fn lemma_precedes_later(
    keys: Seq<EntryKeys>,
    by: SortingKey,
    reverse: bool,
    order: Seq<usize>,
    next: usize,
    early: int,
    late: int,
)
    requires
        orders_prefix(keys, by, reverse, order, next as nat),
        0 <= early <= late < order.len(),
        precedes(keys[next as int], keys[order[early] as int], by, reverse),
    ensures
        precedes(keys[next as int], keys[order[late] as int], by, reverse),
{
    if early < late {
        assert(listed_before(keys, by, reverse, order[early] as int, order[late] as int));
        lemma_precedes_between(
            keys[next as int],
            keys[order[early] as int],
            keys[order[late] as int],
            by,
            reverse,
        );
        lemma_precedes_asymmetric(
            keys[order[early] as int],
            keys[order[late] as int],
            by,
            reverse,
        );
    }
}

/// Putting the next entry number between the entries that it does not have
/// to stand before and those that it has to stand before keeps the order.
proof fn lemma_insert_keeps_order(
    keys: Seq<EntryKeys>,
    by: SortingKey,
    reverse: bool,
    before: Seq<usize>,
    next: usize,
    at: int,
)
    requires
        orders_prefix(keys, by, reverse, before, next as nat),
        next < keys.len(),
        0 <= at <= before.len(),
        forall|earlier: int|
            0 <= earlier < at ==> !precedes(
                keys[next as int],
                keys[#[trigger] before[earlier] as int],
                by,
                reverse,
            ),
        forall|later: int|
            at <= later < before.len() ==> precedes(
                keys[next as int],
                keys[#[trigger] before[later] as int],
                by,
                reverse,
            ),
    ensures
        orders_prefix(keys, by, reverse, before.insert(at, next), (next + 1) as nat),
{
    let after = before.insert(at, next);
    assert forall|index: usize| index < next + 1 implies after.contains(index) by {
        if index == next {
            assert(after[at] == index);
        } else {
            assert(before.contains(index));
            let old_at = choose|i: int| 0 <= i < before.len() && before[i] == index;
            if old_at < at {
                assert(after[old_at] == index);
            } else {
                assert(after[old_at + 1] == index);
            }
        }
    }
    assert forall|i: int| 0 <= i < after.len() implies after[i] < next + 1 by {
        if i < at {
            assert(after[i] == before[i]);
        } else if i > at {
            assert(after[i] == before[i - 1]);
        }
    }
    assert forall|a: int, b: int| 0 <= a < b < after.len() implies listed_before(
        keys,
        by,
        reverse,
        #[trigger] after[a] as int,
        #[trigger] after[b] as int,
    ) by {
        if b < at {
            assert(after[a] == before[a] && after[b] == before[b]);
        } else if a > at {
            assert(after[a] == before[a - 1] && after[b] == before[b - 1]);
        } else if a < at && b > at {
            assert(after[a] == before[a] && after[b] == before[b - 1]);
        } else if a == at {
            assert(after[b] == before[b - 1]);
        } else {
            assert(after[a] == before[a]);
        }
    }
}

/// The place of the next entry number in the order of those before it:
/// behind all that it does not have to stand before. A binary search finds
/// it, since they stand first.
fn insertion_point(
    keys: &Vec<EntryKeys>,
    by: SortingKey,
    reverse: bool,
    order: &Vec<usize>,
    next: usize,
) -> (at: usize)
    requires
        next < keys.len(),
        orders_prefix(keys@, by, reverse, order@, next as nat),
    ensures
        at <= order.len(),
        forall|earlier: int|
            0 <= earlier < at ==> !precedes(
                keys@[next as int],
                keys@[#[trigger] order@[earlier] as int],
                by,
                reverse,
            ),
        forall|later: int|
            at <= later < order.len() ==> precedes(
                keys@[next as int],
                keys@[#[trigger] order@[later] as int],
                by,
                reverse,
            ),
{
    let mut low: usize = 0;
    let mut high: usize = order.len();
    while low < high
        invariant
            next < keys.len(),
            orders_prefix(keys@, by, reverse, order@, next as nat),
            low <= high <= order.len(),
            forall|earlier: int|
                0 <= earlier < low ==> !precedes(
                    keys@[next as int],
                    keys@[#[trigger] order@[earlier] as int],
                    by,
                    reverse,
                ),
            forall|later: int|
                high <= later < order.len() ==> precedes(
                    keys@[next as int],
                    keys@[#[trigger] order@[later] as int],
                    by,
                    reverse,
                ),
        decreases high - low,
    {
        let middle: usize = low + (high - low) / 2;
        if entry_before(&keys[next], &keys[order[middle]], by, reverse) {
            proof {
                assert forall|later: int| middle <= later < order.len() implies precedes(
                    keys@[next as int],
                    keys@[#[trigger] order@[later] as int],
                    by,
                    reverse,
                ) by {
                    lemma_precedes_later(
                        keys@,
                        by,
                        reverse,
                        order@,
                        next,
                        middle as int,
                        later,
                    );
                }
            }
            high = middle;
        } else {
            proof {
                assert forall|earlier: int| 0 <= earlier < middle + 1 implies !precedes(
                    keys@[next as int],
                    keys@[#[trigger] order@[earlier] as int],
                    by,
                    reverse,
                ) by {
                    if precedes(keys@[next as int], keys@[order@[earlier] as int], by, reverse) {
                        lemma_precedes_later(
                            keys@,
                            by,
                            reverse,
                            order@,
                            next,
                            earlier,
                            middle as int,
                        );
                    }
                }
            }
            low = middle + 1;
        }
    }
    low
}

/// Orders the entries by the given key. The result holds the entry numbers
/// (positions in `keys`) in the order of the listing. Entries that the
/// comparison leaves undecided keep the order in which they were given, with
/// the reverse flag too: it inverts the comparison, not the result.
pub fn sort_order(keys: &Vec<EntryKeys>, by: SortingKey, reverse: bool) -> (order: Vec<usize>)
    ensures
        is_listing_order(keys@, by, reverse, order@),
{
    let mut order: Vec<usize> = Vec::new();
    let mut next: usize = 0;
    while next < keys.len()
        invariant
            next <= keys.len(),
            orders_prefix(keys@, by, reverse, order@, next as nat),
        decreases keys.len() - next,
    {
        let at: usize = insertion_point(keys, by, reverse, &order, next);
        proof {
            lemma_insert_keeps_order(keys@, by, reverse, order@, next, at as int);
        }
        order.insert(at, next);
        next = next + 1;
    }
    order
}

} // verus!
