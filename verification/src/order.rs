use vstd::prelude::*;

verus! {

/// `s` with `x` put in behind the last item that may stand before it. `s` is meant to be
/// sorted by `le`.
pub open spec fn insert_sorted<T>(s: Seq<T>, x: T, le: spec_fn(T, T) -> bool) -> Seq<T>
    decreases s.len(),
{
    if s.len() == 0 {
        seq![x]
    } else if le(s.last(), x) {
        s.push(x)
    } else {
        insert_sorted(s.drop_last(), x, le).push(s.last())
    }
}

/// The items of `s` sorted by `le`; items that `le` ranks alike keep their order.
pub open spec fn sort_by<T>(s: Seq<T>, le: spec_fn(T, T) -> bool) -> Seq<T>
    decreases s.len(),
{
    if s.len() == 0 {
        Seq::empty()
    } else {
        insert_sorted(sort_by(s.drop_last(), le), s.last(), le)
    }
}

/// Whether each item of `s` may stand before the next one.
pub open spec fn sorted_by<T>(s: Seq<T>, le: spec_fn(T, T) -> bool) -> bool {
    forall|i: int| 0 <= i < s.len() - 1 ==> le(#[trigger] s[i], s[i + 1])
}

/// Whether `le` ranks any two items one way or the other.
pub open spec fn total<T>(le: spec_fn(T, T) -> bool) -> bool {
    forall|a: T, b: T| #[trigger] le(a, b) || le(b, a)
}

/// Whether `le` carries over: what may stand before something that may stand before a
/// third may stand before the third.
pub open spec fn transitive<T>(le: spec_fn(T, T) -> bool) -> bool {
    forall|a: T, b: T, c: T| #[trigger] le(a, b) && #[trigger] le(b, c) ==> le(a, c)
}

/// In a sorted sequence every item may stand before every later one, where the order
/// carries over.
pub proof fn lemma_sorted_all_pairs<T>(s: Seq<T>, le: spec_fn(T, T) -> bool, i: int, j: int)
    requires
        sorted_by(s, le),
        transitive(le),
        0 <= i < j < s.len(),
    ensures
        le(s[i], s[j]),
    decreases j - i,
{
    if j == i + 1 {
    } else {
        lemma_sorted_all_pairs(s, le, i, j - 1);
        assert(le(s[j - 1], s[j - 1 + 1]));
    }
}

/// Where `insert_sorted` puts the new item: behind position `j - 1`, which may stand
/// before it, and before everything from `j` on, which may not.
pub proof fn lemma_insert_sorted_at<T>(s: Seq<T>, x: T, le: spec_fn(T, T) -> bool, j: int)
    requires
        0 <= j <= s.len(),
        j == 0 || le(s[j - 1], x),
        forall|k: int| j <= k < s.len() ==> !le(#[trigger] s[k], x),
    ensures
        insert_sorted(s, x, le) == s.insert(j, x),
    decreases s.len(),
{
    if s.len() == 0 {
        assert(s.insert(0, x) =~= seq![x]);
    } else if j == s.len() {
        assert(s.insert(j, x) =~= s.push(x));
    } else {
        assert(!le(s[s.len() - 1], x));
        let t = s.drop_last();
        lemma_insert_sorted_at(t, x, le, j);
        assert(t.insert(j, x).push(s.last()) =~= s.insert(j, x));
    }
}

/// Inserting adds exactly the new item.
pub proof fn lemma_insert_sorted_multiset<T>(s: Seq<T>, x: T, le: spec_fn(T, T) -> bool)
    ensures
        insert_sorted(s, x, le).to_multiset() == s.to_multiset().insert(x),
        insert_sorted(s, x, le).len() == s.len() + 1,
    decreases s.len(),
{
    broadcast use vstd::seq_lib::group_to_multiset_ensures;

    if s.len() == 0 {
    } else if le(s.last(), x) {
    } else {
        let t = s.drop_last();
        lemma_insert_sorted_multiset(t, x, le);
        assert(t.push(s.last()) =~= s);
        assert(insert_sorted(s, x, le).to_multiset() =~= s.to_multiset().insert(x));
    }
}

/// Sorting rearranges: each item occurs in the result as often as before.
pub proof fn lemma_sort_by_permutes<T>(s: Seq<T>, le: spec_fn(T, T) -> bool)
    ensures
        sort_by(s, le).to_multiset() == s.to_multiset(),
        sort_by(s, le).len() == s.len(),
    decreases s.len(),
{
    broadcast use vstd::seq_lib::group_to_multiset_ensures;

    if s.len() > 0 {
        let t = s.drop_last();
        lemma_sort_by_permutes(t, le);
        lemma_insert_sorted_multiset(sort_by(t, le), s.last(), le);
        assert(t.push(s.last()) =~= s);
    }
}

/// Sorting neither adds nor drops an item, and brings in no duplicates.
pub proof fn lemma_sort_by_members<T>(s: Seq<T>, le: spec_fn(T, T) -> bool)
    ensures
        forall|x: T| sort_by(s, le).contains(x) <==> s.contains(x),
        s.no_duplicates() ==> sort_by(s, le).no_duplicates(),
{
    broadcast use vstd::seq_lib::group_to_multiset_ensures;

    lemma_sort_by_permutes(s, le);
    let t = sort_by(s, le);
    assert forall|x: T| t.contains(x) <==> s.contains(x) by {
        assert(t.to_multiset().count(x) == s.to_multiset().count(x));
    }
    if s.no_duplicates() {
        s.lemma_multiset_has_no_duplicates();
        assert forall|x: T| t.to_multiset().contains(x) implies t.to_multiset().count(x) == 1 by {
            assert(s.to_multiset().contains(x));
        }
        t.lemma_multiset_has_no_duplicates_conv();
    }
}

/// Inserting into a sorted sequence leaves it sorted, where the order is total.
pub proof fn lemma_insert_sorted_sorted<T>(s: Seq<T>, x: T, le: spec_fn(T, T) -> bool)
    requires
        sorted_by(s, le),
        total(le),
    ensures
        sorted_by(insert_sorted(s, x, le), le),
        insert_sorted(s, x, le).len() == s.len() + 1,
        insert_sorted(s, x, le).last() == x || (s.len() > 0 && insert_sorted(s, x, le).last()
            == s.last() && le(x, s.last())),
    decreases s.len(),
{
    if s.len() == 0 {
    } else if le(s.last(), x) {
        let r = s.push(x);
        assert forall|i: int| 0 <= i < r.len() - 1 implies le(#[trigger] r[i], r[i + 1]) by {
            if i < s.len() - 1 {
                assert(le(s[i], s[i + 1]));
            }
        }
    } else {
        let t = s.drop_last();
        assert forall|i: int| 0 <= i < t.len() - 1 implies le(#[trigger] t[i], t[i + 1]) by {
            assert(le(s[i], s[i + 1]));
        }
        lemma_insert_sorted_sorted(t, x, le);
        let u = insert_sorted(t, x, le);
        let r = u.push(s.last());
        assert(le(x, s.last()) || le(s.last(), x));
        assert forall|i: int| 0 <= i < r.len() - 1 implies le(#[trigger] r[i], r[i + 1]) by {
            if i < u.len() - 1 {
                assert(le(u[i], u[i + 1]));
            } else {
                if u.last() == x {
                } else {
                    assert(t.last() == s[s.len() - 2]);
                    assert(le(s[s.len() - 2], s[s.len() - 2 + 1]));
                }
            }
        }
    }
}

/// The result of sorting is sorted, where the order is total.
pub proof fn lemma_sort_by_sorted<T>(s: Seq<T>, le: spec_fn(T, T) -> bool)
    requires
        total(le),
    ensures
        sorted_by(sort_by(s, le), le),
    decreases s.len(),
{
    if s.len() > 0 {
        lemma_sort_by_sorted(s.drop_last(), le);
        lemma_insert_sorted_sorted(sort_by(s.drop_last(), le), s.last(), le);
    }
}

} // verus!
