use crate::order::{lemma_insert_sorted_at, sort_by};
use crate::paging::{key_before, key_le, PageKey};
use vstd::prelude::*;

verus! {

/// A key by which items are put in order.
pub trait Ranked {
    /// Whether an item with this key may stand before one with the other key.
    spec fn ranks_before(&self, other: &Self) -> bool;

    /// Decides `ranks_before`.
    fn before(&self, other: &Self) -> (r: bool)
        ensures
            r == self.ranks_before(other),
    ;
}

impl Ranked for PageKey {
    open spec fn ranks_before(&self, other: &Self) -> bool {
        key_le(*self, *other)
    }

    fn before(&self, other: &Self) -> (r: bool) {
        key_before(self, other)
    }
}

/// The items at the given positions, in the order of the positions.
pub open spec fn pick<T>(items: Seq<T>, order: Seq<usize>) -> Seq<T> {
    Seq::new(order.len(), |x: int| items[order[x] as int])
}

/// Puts the positions `0..keys.len()` in the order of their keys. `items` are the values
/// that the keys stand for: picked in the resulting order they are sorted by `le`.
pub(crate) fn sort_positions<K: Ranked, T>(
    keys: &Vec<K>,
    Ghost(items): Ghost<Seq<T>>,
    Ghost(le): Ghost<spec_fn(T, T) -> bool>,
) -> (order: Vec<usize>)
    requires
        items.len() == keys.len(),
        forall|i: int, j: int|
            0 <= i < keys.len() && 0 <= j < keys.len() ==> le(items[i], items[j])
                == #[trigger] keys[i].ranks_before(&keys[j]),
    ensures
        order.len() == keys.len(),
        forall|x: int| 0 <= x < order.len() ==> (#[trigger] order[x]) < keys.len(),
        pick(items, order@) == sort_by(items, le),
{
    let mut order: Vec<usize> = Vec::new();
    let mut n: usize = 0;
    while n < keys.len()
        invariant
            n <= keys.len(),
            items.len() == keys.len(),
            order.len() == n,
            forall|x: int| 0 <= x < order.len() ==> (#[trigger] order[x]) < keys.len(),
            pick(items, order@) == sort_by(items.take(n as int), le),
            forall|i: int, j: int|
                0 <= i < keys.len() && 0 <= j < keys.len() ==> le(items[i], items[j])
                    == #[trigger] keys[i].ranks_before(&keys[j]),
        decreases keys.len() - n,
    {
        let ghost sorted = pick(items, order@);
        let mut j: usize = order.len();
        while j > 0 && !keys[order[j - 1]].before(&keys[n])
            invariant
                j <= order.len(),
                n < keys.len(),
                items.len() == keys.len(),
                sorted == pick(items, order@),
                forall|x: int| 0 <= x < order.len() ==> (#[trigger] order[x]) < keys.len(),
                forall|k: int| j <= k < order.len() ==> !le(#[trigger] sorted[k], items[n as int]),
                forall|i: int, j: int|
                    0 <= i < keys.len() && 0 <= j < keys.len() ==> le(items[i], items[j])
                        == #[trigger] keys[i].ranks_before(&keys[j]),
            decreases j,
        {
            assert(sorted[j - 1] == items[order[j - 1] as int]);
            assert(keys[order[j - 1] as int].ranks_before(&keys[n as int]) == le(
                items[order[j - 1] as int],
                items[n as int],
            ));
            j = j - 1;
        }
        proof {
            if j > 0 {
                assert(sorted[j - 1] == items[order[j - 1] as int]);
                assert(keys[order[j - 1] as int].ranks_before(&keys[n as int]) == le(
                    items[order[j - 1] as int],
                    items[n as int],
                ));
            }
            lemma_insert_sorted_at(sorted, items[n as int], le, j as int);
            assert(items.take(n + 1).drop_last() =~= items.take(n as int));
            assert(items.take(n + 1).last() == items[n as int]);
        }
        order.insert(j, n);
        assert(pick(items, order@) =~= sorted.insert(j as int, items[n as int]));
        n = n + 1;
    }
    assert(items.take(n as int) =~= items);
    order
}

} // verus!
