//! What holds of every listing order.

use vstd::prelude::*;

use crate::options::SortingKey;
use crate::path_order::{lemma_path_precedes_total, path_precedes};
use crate::sorter::{
    ascends, is_listing_order, lemma_precedes_asymmetric, listed_before, precedes, EntryKeys,
};

verus! {

/// No two different entries have keys that the comparison leaves undecided.
pub open spec fn no_ties(keys: Seq<EntryKeys>, by: SortingKey) -> bool {
    forall|i: int, j: int|
        #![trigger keys[i], keys[j]]
        0 <= i < keys.len() && 0 <= j < keys.len() && i != j ==> ascends(keys[i], keys[j], by)
            || ascends(keys[j], keys[i], by)
}

/// No two different entries have the same path.
pub open spec fn distinct_paths(keys: Seq<EntryKeys>) -> bool {
    forall|i: int, j: int|
        #![trigger keys[i], keys[j]]
        0 <= i < keys.len() && 0 <= j < keys.len() && i != j ==> keys[i].path@ != keys[j].path@
}

/// Two lists of entries that agree, entry by entry, on the key that the
/// order is by.
pub open spec fn same_keys(keys: Seq<EntryKeys>, other: Seq<EntryKeys>, by: SortingKey) -> bool {
    &&& keys.len() == other.len()
    &&& forall|i: int|
        #![trigger keys[i]]
        #![trigger other[i]]
        0 <= i < keys.len() ==> match by {
            SortingKey::Size => keys[i].size == other[i].size,
            SortingKey::Name => keys[i].path@ == other[i].path@,
        }
}

/// The order reads nothing but its key: by name the sizes play no part, and
/// by size the paths play none.
pub proof fn lemma_order_reads_its_key_only(
    keys: Seq<EntryKeys>,
    other: Seq<EntryKeys>,
    by: SortingKey,
    reverse: bool,
    order: Seq<usize>,
)
    requires
        same_keys(keys, other, by),
        is_listing_order(keys, by, reverse, order),
    ensures
        is_listing_order(other, by, reverse, order),
{
    assert forall|a: int, b: int| 0 <= a < b < order.len() implies listed_before(
        other,
        by,
        reverse,
        #[trigger] order[a] as int,
        #[trigger] order[b] as int,
    ) by {
        assert(listed_before(keys, by, reverse, order[a] as int, order[b] as int));
    }
}

/// The reverse flag inverts the comparison: with it `first` has to stand
/// before `second` where without it `second` has to stand before `first`.
/// Inverting twice gives the comparison back.
pub proof fn lemma_reverse_inverts_comparison(
    first: EntryKeys,
    second: EntryKeys,
    by: SortingKey,
    reverse: bool,
)
    ensures
        precedes(first, second, by, !reverse) == precedes(second, first, by, reverse),
        precedes(first, second, by, !!reverse) == precedes(first, second, by, reverse),
{
}

/// Of two entry numbers at most one is listed before the other, and none
/// before itself.
pub proof fn lemma_listed_before_asymmetric(
    keys: Seq<EntryKeys>,
    by: SortingKey,
    reverse: bool,
    first: int,
    second: int,
)
    ensures
        !(listed_before(keys, by, reverse, first, second) && listed_before(
            keys,
            by,
            reverse,
            second,
            first,
        )),
{
    lemma_precedes_asymmetric(keys[first], keys[second], by, reverse);
}

/// Of two different entry numbers one is listed before the other.
pub proof fn lemma_listed_before_total(
    keys: Seq<EntryKeys>,
    by: SortingKey,
    reverse: bool,
    first: int,
    second: int,
)
    ensures
        first == second || listed_before(keys, by, reverse, first, second) || listed_before(
            keys,
            by,
            reverse,
            second,
            first,
        ),
{
}

/// A listing order holds no entry number twice.
pub proof fn lemma_listing_order_distinct(
    keys: Seq<EntryKeys>,
    by: SortingKey,
    reverse: bool,
    order: Seq<usize>,
    a: int,
    b: int,
)
    requires
        is_listing_order(keys, by, reverse, order),
        0 <= a < order.len(),
        0 <= b < order.len(),
        a != b,
    ensures
        order[a] != order[b],
{
    lemma_listed_before_asymmetric(keys, by, reverse, order[a] as int, order[b] as int);
}

/// Two listing orders of the same entries agree on their first `count`
/// positions.
proof fn lemma_listing_orders_agree(
    keys: Seq<EntryKeys>,
    by: SortingKey,
    reverse: bool,
    one: Seq<usize>,
    other: Seq<usize>,
    count: nat,
)
    requires
        is_listing_order(keys, by, reverse, one),
        is_listing_order(keys, by, reverse, other),
        count <= keys.len(),
    ensures
        forall|at: int| 0 <= at < count ==> one[at] == other[at],
    decreases count,
{
    if count > 0 {
        lemma_listing_orders_agree(keys, by, reverse, one, other, (count - 1) as nat);
        let at = count - 1;
        let here = one[at];
        let there = other[at];
        if here != there {
            assert(other.contains(here));
            let later = choose|i: int| 0 <= i < other.len() && other[i] == here;
            if later < at {
                lemma_listing_order_distinct(keys, by, reverse, one, later, at);
            }
            assert(one.contains(there));
            let behind = choose|i: int| 0 <= i < one.len() && one[i] == there;
            if behind < at {
                lemma_listing_order_distinct(keys, by, reverse, other, behind, at);
            }
            lemma_listed_before_asymmetric(keys, by, reverse, here as int, there as int);
        }
    }
}

/// The listing order is unique: the entries, the key and the reverse flag
/// determine it, so that the same input is always listed in the same order.
pub proof fn lemma_listing_order_unique(
    keys: Seq<EntryKeys>,
    by: SortingKey,
    reverse: bool,
    one: Seq<usize>,
    other: Seq<usize>,
)
    requires
        is_listing_order(keys, by, reverse, one),
        is_listing_order(keys, by, reverse, other),
    ensures
        one == other,
{
    lemma_listing_orders_agree(keys, by, reverse, one, other, keys.len());
}

/// The listing is sorted: an entry that the comparison puts before another
/// one stands before it.
pub proof fn lemma_listing_order_sorted(
    keys: Seq<EntryKeys>,
    by: SortingKey,
    reverse: bool,
    order: Seq<usize>,
    a: int,
    b: int,
)
    requires
        is_listing_order(keys, by, reverse, order),
        0 <= a < order.len(),
        0 <= b < order.len(),
        precedes(keys[order[a] as int], keys[order[b] as int], by, reverse),
    ensures
        a < b,
{
    lemma_precedes_asymmetric(keys[order[a] as int], keys[order[b] as int], by, reverse);
}

/// The listing is stable: entries that the comparison leaves undecided
/// stand in the order in which they were given.
pub proof fn lemma_listing_order_stable(
    keys: Seq<EntryKeys>,
    by: SortingKey,
    reverse: bool,
    order: Seq<usize>,
    a: int,
    b: int,
)
    requires
        is_listing_order(keys, by, reverse, order),
        0 <= a < order.len(),
        0 <= b < order.len(),
        !precedes(keys[order[a] as int], keys[order[b] as int], by, reverse),
        !precedes(keys[order[b] as int], keys[order[a] as int], by, reverse),
        order[a] < order[b],
    ensures
        a < b,
{
}

/// By size, of two entries with different sizes the smaller one is listed
/// first, and with the reverse flag the larger one.
pub proof fn lemma_size_order(
    keys: Seq<EntryKeys>,
    reverse: bool,
    order: Seq<usize>,
    a: int,
    b: int,
)
    requires
        is_listing_order(keys, SortingKey::Size, reverse, order),
        0 <= a < order.len(),
        0 <= b < order.len(),
        keys[order[a] as int].size < keys[order[b] as int].size,
    ensures
        reverse ==> b < a,
        !reverse ==> a < b,
{
    if reverse {
        lemma_listing_order_sorted(keys, SortingKey::Size, reverse, order, b, a);
    } else {
        lemma_listing_order_sorted(keys, SortingKey::Size, reverse, order, a, b);
    }
}

/// By name, of two entries the one whose path is the smaller, byte by byte,
/// is listed first, and with the reverse flag the one whose path is the
/// larger.
pub proof fn lemma_name_order(
    keys: Seq<EntryKeys>,
    reverse: bool,
    order: Seq<usize>,
    a: int,
    b: int,
)
    requires
        is_listing_order(keys, SortingKey::Name, reverse, order),
        0 <= a < order.len(),
        0 <= b < order.len(),
        path_precedes(keys[order[a] as int].path@, keys[order[b] as int].path@),
    ensures
        reverse ==> b < a,
        !reverse ==> a < b,
{
    if reverse {
        lemma_listing_order_sorted(keys, SortingKey::Name, reverse, order, b, a);
    } else {
        lemma_listing_order_sorted(keys, SortingKey::Name, reverse, order, a, b);
    }
}

/// By name, different paths never tie: one of them is the smaller.
pub proof fn lemma_distinct_paths_no_ties(keys: Seq<EntryKeys>)
    requires
        distinct_paths(keys),
    ensures
        no_ties(keys, SortingKey::Name),
{
    assert forall|i: int, j: int|
        #![trigger keys[i], keys[j]]
        0 <= i < keys.len() && 0 <= j < keys.len() && i != j implies ascends(
        keys[i],
        keys[j],
        SortingKey::Name,
    ) || ascends(keys[j], keys[i], SortingKey::Name) by {
        lemma_path_precedes_total(keys[i].path@, keys[j].path@);
    }
}

/// Where no two entries tie, the reverse flag turns the listing round: the
/// descending order is the ascending one read from its end, and turning it
/// round once more gives the ascending order back.
pub proof fn lemma_reverse_flag_mirrors(
    keys: Seq<EntryKeys>,
    by: SortingKey,
    ascending: Seq<usize>,
    descending: Seq<usize>,
)
    requires
        no_ties(keys, by),
        is_listing_order(keys, by, false, ascending),
        is_listing_order(keys, by, true, descending),
    ensures
        descending == ascending.reverse(),
        descending.reverse() == ascending,
{
    let mirrored = ascending.reverse();
    let count = ascending.len() as int;
    assert forall|index: usize| index < keys.len() implies mirrored.contains(index) by {
        assert(ascending.contains(index));
        let at = choose|i: int| 0 <= i < ascending.len() && ascending[i] == index;
        assert(mirrored[count - 1 - at] == index);
    }
    assert forall|a: int, b: int| 0 <= a < b < mirrored.len() implies listed_before(
        keys,
        by,
        true,
        #[trigger] mirrored[a] as int,
        #[trigger] mirrored[b] as int,
    ) by {
        let late = count - 1 - a;
        let early = count - 1 - b;
        let above = ascending[late];
        let below = ascending[early];
        lemma_listing_order_distinct(keys, by, false, ascending, early, late);
        assert(ascends(keys[below as int], keys[above as int], by) || ascends(
            keys[above as int],
            keys[below as int],
            by,
        ));
        lemma_precedes_asymmetric(keys[below as int], keys[above as int], by, false);
    }
    lemma_listing_order_unique(keys, by, true, descending, mirrored);
}

/// By name, for entries with different paths, the flag turns the listing
/// round.
pub proof fn lemma_reverse_flag_mirrors_names(
    keys: Seq<EntryKeys>,
    ascending: Seq<usize>,
    descending: Seq<usize>,
)
    requires
        distinct_paths(keys),
        is_listing_order(keys, SortingKey::Name, false, ascending),
        is_listing_order(keys, SortingKey::Name, true, descending),
    ensures
        descending == ascending.reverse(),
        descending.reverse() == ascending,
{
    lemma_distinct_paths_no_ties(keys);
    lemma_reverse_flag_mirrors(keys, SortingKey::Name, ascending, descending);
}

} // verus!
