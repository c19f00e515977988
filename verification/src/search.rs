//! Finding the first item of a sequence with some property, and the first
//! item that repeats an earlier one.

use vstd::prelude::*;

verus! {

/// `i` is the first position of `items` at which `bad` holds.
pub open spec fn is_first_such<T>(items: Seq<T>, bad: spec_fn(T) -> bool, i: int) -> bool {
    &&& 0 <= i < items.len()
    &&& bad(items[i])
    &&& forall|j: int| 0 <= j < i ==> !bad(#[trigger] items[j])
}

/// The first position of `items` at which `bad` holds.
pub open spec fn first_such<T>(items: Seq<T>, bad: spec_fn(T) -> bool) -> int {
    choose|i: int| is_first_such(items, bad, i)
}

/// The first position at which `bad` holds is unique.
pub proof fn lemma_first_such<T>(items: Seq<T>, bad: spec_fn(T) -> bool, i: int)
    requires
        is_first_such(items, bad, i),
    ensures
        first_such(items, bad) == i,
{
    let j = first_such(items, bad);
    assert(is_first_such(items, bad, j));
    if j < i {
        assert(!bad(items[j]));
    } else if i < j {
        assert(!bad(items[i]));
    }
}

/// No item of `items` occurs twice.
pub open spec fn distinct<T>(items: Seq<T>) -> bool {
    forall|i: int, j: int|
        0 <= i < j < items.len() ==> #[trigger] items[i] != #[trigger] items[j]
}

/// The item at position `j` has occurred at an earlier position.
pub open spec fn repeats<T>(items: Seq<T>, j: int) -> bool {
    exists|i: int| 0 <= i < j && #[trigger] items[i] == items[j]
}

/// `j` is the first position whose item has occurred earlier.
pub open spec fn is_first_repeat<T>(items: Seq<T>, j: int) -> bool {
    &&& 0 <= j < items.len()
    &&& repeats(items, j)
    &&& forall|k: int| 0 <= k < j ==> !#[trigger] repeats(items, k)
}

/// The first position whose item has occurred earlier.
pub open spec fn first_repeat<T>(items: Seq<T>) -> int {
    choose|j: int| is_first_repeat(items, j)
}

/// `i` is the first position that holds the item at position `j`.
pub open spec fn is_first_equal<T>(items: Seq<T>, j: int, i: int) -> bool {
    &&& 0 <= i < j
    &&& items[i] == items[j]
    &&& forall|k: int| 0 <= k < i ==> #[trigger] items[k] != items[j]
}

/// The first position that holds the item at position `j`.
pub open spec fn first_equal<T>(items: Seq<T>, j: int) -> int {
    choose|i: int| is_first_equal(items, j, i)
}

/// The first repeat, and the first occurrence of its item, are unique; and a
/// sequence with a repeat is not distinct.
pub proof fn lemma_first_repeat<T>(items: Seq<T>, i: int, j: int)
    requires
        is_first_repeat(items, j),
        is_first_equal(items, j, i),
    ensures
        first_repeat(items) == j,
        first_equal(items, j) == i,
        !distinct(items),
{
    let j2 = first_repeat(items);
    assert(is_first_repeat(items, j2));
    if j2 < j {
        assert(!repeats(items, j2));
    } else if j < j2 {
        assert(!repeats(items, j));
    }
    let i2 = first_equal(items, j);
    assert(is_first_equal(items, j, i2));
    if i2 < i {
        assert(items[i2] != items[j]);
    } else if i < i2 {
        assert(items[i] != items[j]);
    }
}

/// A sequence in which no position repeats an earlier one is distinct.
pub proof fn lemma_no_repeat<T>(items: Seq<T>)
    requires
        forall|k: int| 0 <= k < items.len() ==> !#[trigger] repeats(items, k),
    ensures
        distinct(items),
{
    assert forall|i: int, j: int| 0 <= i < j < items.len() implies #[trigger] items[i]
        != #[trigger] items[j] by {
        assert(!repeats(items, j));
    }
}

} // verus!
