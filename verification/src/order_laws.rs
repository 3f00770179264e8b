//! Why putting each name at its place puts the names in order: the places
//! are all different, so every position is the place of one name, and a
//! name with a smaller index has a smaller place.

use vstd::prelude::*;
use vstd::relations::injective_on;
use vstd::set_lib::{lemma_int_range, lemma_map_size, lemma_subset_equality, set_int_range};
use crate::order::{count_before, count_equal, index_precedes, place};

verus! {

/// The keys before a key and the keys equal to it are different keys, and
/// no more than all.
proof fn lemma_counts(keys: Seq<Option<i64>>, key: Option<i64>)
    ensures
        0 <= count_before(keys, key),
        0 <= count_equal(keys, key),
        count_before(keys, key) + count_equal(keys, key) <= keys.len(),
    decreases keys.len(),
{
    if keys.len() > 0 {
        lemma_counts(keys.drop_last(), key);
    }
}

/// Whatever stands before or at a key stands before every greater key.
proof fn lemma_before_greater(keys: Seq<Option<i64>>, a: Option<i64>, b: Option<i64>)
    requires
        index_precedes(a, b),
    ensures
        count_before(keys, a) + count_equal(keys, a) <= count_before(keys, b),
    decreases keys.len(),
{
    if keys.len() > 0 {
        lemma_before_greater(keys.drop_last(), a, b);
    }
}

/// A longer beginning of the keys holds no fewer keys equal to one key.
proof fn lemma_equal_in_prefix(keys: Seq<Option<i64>>, key: Option<i64>, i: int, j: int)
    requires
        0 <= i <= j <= keys.len(),
    ensures
        count_equal(keys.take(i), key) <= count_equal(keys.take(j), key),
    decreases j - i,
{
    if i < j {
        lemma_equal_in_prefix(keys, key, i, j - 1);
        assert(keys.take(j).drop_last() == keys.take(j - 1));
    }
}

/// The beginning of the keys that ends with key `i` holds one more key
/// equal to it than the beginning before it.
proof fn lemma_equal_counts_itself(keys: Seq<Option<i64>>, i: int)
    requires
        0 <= i < keys.len(),
    ensures
        count_equal(keys.take(i + 1), keys[i]) == count_equal(keys.take(i), keys[i]) + 1,
{
    assert(keys.take(i + 1).drop_last() == keys.take(i));
    assert(keys.take(i + 1).last() == keys[i]);
}

/// Every place is a position.
pub proof fn lemma_place_in_range(keys: Seq<Option<i64>>, i: int)
    requires
        0 <= i < keys.len(),
    ensures
        0 <= place(keys, i) < keys.len(),
{
    lemma_counts(keys, keys[i]);
    lemma_counts(keys.take(i), keys[i]);
    lemma_equal_counts_itself(keys, i);
    lemma_equal_in_prefix(keys, keys[i], i + 1, keys.len() as int);
    assert(keys.take(keys.len() as int) == keys);
}

/// A name with a smaller index has a smaller place, and of two names with
/// the same index the earlier one has.
pub proof fn lemma_place_grows(keys: Seq<Option<i64>>, i: int, j: int)
    requires
        0 <= i < keys.len(),
        0 <= j < keys.len(),
        index_precedes(keys[i], keys[j]) || (keys[i] == keys[j] && i < j),
    ensures
        place(keys, i) < place(keys, j),
{
    lemma_equal_counts_itself(keys, i);
    if index_precedes(keys[i], keys[j]) {
        lemma_before_greater(keys, keys[i], keys[j]);
        lemma_equal_in_prefix(keys, keys[i], i + 1, keys.len() as int);
        assert(keys.take(keys.len() as int) == keys);
        lemma_counts(keys.take(j), keys[j]);
    } else {
        lemma_equal_in_prefix(keys, keys[i], i + 1, j);
    }
}

/// Two names have two places.
pub proof fn lemma_places_differ(keys: Seq<Option<i64>>, i: int, j: int)
    requires
        0 <= i < keys.len(),
        0 <= j < keys.len(),
        i != j,
    ensures
        place(keys, i) != place(keys, j),
{
    if index_precedes(keys[i], keys[j]) || (keys[i] == keys[j] && i < j) {
        lemma_place_grows(keys, i, j);
    } else {
        lemma_place_grows(keys, j, i);
    }
}

/// Every position is the place of a name.
pub proof fn lemma_place_onto(keys: Seq<Option<i64>>, p: int)
    requires
        0 <= p < keys.len(),
    ensures
        exists|i: int| 0 <= i < keys.len() && #[trigger] place(keys, i) == p,
{
    let n = keys.len() as int;
    let positions = set_int_range(0, n);
    let f = |i: int| place(keys, i);
    let places = positions.map(f);
    lemma_int_range(0, n);
    assert(injective_on(f, positions)) by {
        assert forall|a: int, b: int|
            positions.contains(a) && positions.contains(b) && #[trigger] f(a) == #[trigger] f(
                b,
            ) implies a == b by {
            if a != b {
                lemma_places_differ(keys, a, b);
            }
        }
    }
    lemma_map_size(positions, places, f);
    assert(places.subset_of(positions)) by {
        assert forall|q: int| places.contains(q) implies positions.contains(q) by {
            let i = choose|i: int| positions.contains(i) && q == f(i);
            lemma_place_in_range(keys, i);
        }
    }
    lemma_subset_equality(places, positions);
    assert(places.contains(p));
    let i = choose|i: int| positions.contains(i) && p == f(i);
    assert(0 <= i < keys.len() && place(keys, i) == p);
}

} // verus!
