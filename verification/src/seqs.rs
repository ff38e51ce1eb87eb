use vstd::prelude::*;

verus! {

/// The views of the items of a sequence, in the same order.
pub open spec fn view_all<T: View>(s: Seq<T>) -> Seq<T::V> {
    Seq::new(s.len(), |i: int| s[i]@)
}

/// The position of the first item of `s` that satisfies `p`, if there is one.
pub open spec fn first_match<T>(s: Seq<T>, p: spec_fn(T) -> bool) -> Option<int>
    decreases s.len(),
{
    if s.len() == 0 {
        None
    } else if p(s[0]) {
        Some(0)
    } else {
        match first_match(s.drop_first(), p) {
            Some(i) => Some(i + 1),
            None => None,
        }
    }
}

/// Whether `r` is the position of the first item of `s` that satisfies `p`.
pub open spec fn is_first_match<T>(s: Seq<T>, p: spec_fn(T) -> bool, r: Option<int>) -> bool {
    match r {
        Some(i) => 0 <= i < s.len() && p(s[i]) && forall|j: int| 0 <= j < i ==> !p(#[trigger] s[j]),
        None => forall|j: int| 0 <= j < s.len() ==> !p(#[trigger] s[j]),
    }
}

/// `first_match` gives the first position that satisfies the predicate, and nothing else does.
pub proof fn lemma_first_match<T>(s: Seq<T>, p: spec_fn(T) -> bool, r: Option<int>)
    ensures
        is_first_match(s, p, r) <==> r == first_match(s, p),
    decreases s.len(),
{
    if s.len() == 0 {
    } else if p(s[0]) {
    } else {
        let t = s.drop_first();
        let rt = match r {
            Some(i) => Some(i - 1),
            None => None,
        };
        lemma_first_match(t, p, rt);
        if is_first_match(s, p, r) {
            match r {
                Some(i) => {
                    assert(i > 0);
                    assert(t[i - 1] == s[i]);
                    assert forall|j: int| 0 <= j < i - 1 implies !p(#[trigger] t[j]) by {
                        assert(t[j] == s[j + 1]);
                    }
                },
                None => {
                    assert forall|j: int| 0 <= j < t.len() implies !p(#[trigger] t[j]) by {
                        assert(t[j] == s[j + 1]);
                    }
                },
            }
            assert(is_first_match(t, p, rt));
        }
        if r == first_match(s, p) {
            assert(is_first_match(t, p, first_match(t, p)));
            match r {
                Some(i) => {
                    assert(t[i - 1] == s[i]);
                    assert forall|j: int| 0 <= j < i implies !p(#[trigger] s[j]) by {
                        if j > 0 {
                            assert(t[j - 1] == s[j]);
                        }
                    }
                },
                None => {
                    assert forall|j: int| 0 <= j < s.len() implies !p(#[trigger] s[j]) by {
                        if j > 0 {
                            assert(t[j - 1] == s[j]);
                        }
                    }
                },
            }
        }
    }
}

/// Moving the first item of the rest of `s` over to the front part changes nothing.
pub proof fn lemma_shift_kept<T>(a: Seq<T>, s: Seq<T>, k: int)
    requires
        0 <= k < s.len(),
    ensures
        a.push(s[k]) + s.skip(k + 1) == a + s.skip(k),
        (a + s.skip(k)).remove(a.len() as int) == a + s.skip(k + 1),
{
    let l = a.push(s[k]) + s.skip(k + 1);
    let r = a + s.skip(k);
    assert(l.len() == r.len());
    assert forall|i: int| 0 <= i < l.len() implies l[i] == r[i] by {
        if i < a.len() {
        } else if i == a.len() {
        } else {
            assert(l[i] == s.skip(k + 1)[i - a.len() - 1]);
            assert(r[i] == s.skip(k)[i - a.len()]);
        }
    }
    assert(l =~= r);
    let l2 = r.remove(a.len() as int);
    let r2 = a + s.skip(k + 1);
    assert(l2.len() == r2.len());
    assert forall|i: int| 0 <= i < l2.len() implies l2[i] == r2[i] by {
        if i < a.len() {
        } else {
            assert(l2[i] == r[i + 1]);
            assert(r[i + 1] == s.skip(k)[i + 1 - a.len()]);
            assert(r2[i] == s.skip(k + 1)[i - a.len()]);
        }
    }
    assert(l2 =~= r2);
}

/// The items of `s` that satisfy `p`, in their order in `s`.
pub open spec fn keep<T>(s: Seq<T>, p: spec_fn(T) -> bool) -> Seq<T>
    decreases s.len(),
{
    if s.len() == 0 {
        Seq::empty()
    } else if p(s.last()) {
        keep(s.drop_last(), p).push(s.last())
    } else {
        keep(s.drop_last(), p)
    }
}

/// Every item that `keep` gives satisfies the predicate and comes from the sequence.
pub proof fn lemma_keep_members<T>(s: Seq<T>, p: spec_fn(T) -> bool)
    ensures
        keep(s, p).len() <= s.len(),
        forall|i: int| 0 <= i < keep(s, p).len() ==> p(#[trigger] keep(s, p)[i]) && s.contains(keep(s, p)[i]),
        forall|j: int| 0 <= j < s.len() && p(s[j]) ==> keep(s, p).contains(#[trigger] s[j]),
    decreases s.len(),
{
    if s.len() == 0 {
    } else {
        let t = s.drop_last();
        lemma_keep_members(t, p);
        let k = keep(s, p);
        assert forall|i: int| 0 <= i < k.len() implies p(#[trigger] k[i]) && s.contains(k[i]) by {
            if i < keep(t, p).len() {
                let x = keep(t, p)[i];
                assert(t.contains(x));
                let j = choose|j: int| 0 <= j < t.len() && t[j] == x;
                assert(s[j] == x);
            } else {
                assert(k[i] == s.last());
                assert(s[s.len() - 1] == s.last());
            }
        }
        assert forall|j: int| 0 <= j < s.len() && p(s[j]) implies k.contains(#[trigger] s[j]) by {
            if j < t.len() {
                assert(t[j] == s[j]);
                assert(keep(t, p).contains(t[j]));
                let i = choose|i: int| 0 <= i < keep(t, p).len() && keep(t, p)[i] == t[j];
                assert(k[i] == s[j]);
            } else {
                assert(k[k.len() - 1] == s[j]);
            }
        }
    }
}

/// Whether no two items of `s` have the same key.
pub open spec fn keys_distinct<T, K>(s: Seq<T>, key: spec_fn(T) -> K) -> bool {
    forall|i: int, j: int|
        0 <= i < s.len() && 0 <= j < s.len() && i != j ==> key(#[trigger] s[i]) != key(
            #[trigger] s[j],
        )
}

/// Dropping items keeps the keys distinct.
pub proof fn lemma_keep_keys_distinct<T, K>(s: Seq<T>, p: spec_fn(T) -> bool, key: spec_fn(T) -> K)
    requires
        keys_distinct(s, key),
    ensures
        keys_distinct(keep(s, p), key),
    decreases s.len(),
{
    if s.len() > 0 {
        let t = s.drop_last();
        assert forall|i: int, j: int| 0 <= i < t.len() && 0 <= j < t.len() && i != j implies key(
            #[trigger] t[i],
        ) != key(#[trigger] t[j]) by {
            assert(t[i] == s[i] && t[j] == s[j]);
        }
        lemma_keep_keys_distinct(t, p, key);
        lemma_keep_members(t, p);
        let k = keep(s, p);
        let kt = keep(t, p);
        if p(s.last()) {
            assert forall|i: int, j: int| 0 <= i < k.len() && 0 <= j < k.len() && i != j implies key(
                #[trigger] k[i],
            ) != key(#[trigger] k[j]) by {
                if i < kt.len() && j < kt.len() {
                    assert(k[i] == kt[i] && k[j] == kt[j]);
                } else {
                    let a = if i < kt.len() { i } else { j };
                    assert(k[a] == kt[a]);
                    assert(t.contains(kt[a]));
                    let x = choose|x: int| 0 <= x < t.len() && t[x] == kt[a];
                    assert(s[x] == kt[a]);
                    assert(s[s.len() - 1] == s.last());
                }
            }
        }
    }
}

/// Adding an item whose key no item has keeps the keys distinct.
pub proof fn lemma_push_keys_distinct<T, K>(s: Seq<T>, x: T, key: spec_fn(T) -> K)
    requires
        keys_distinct(s, key),
        forall|i: int| 0 <= i < s.len() ==> key(#[trigger] s[i]) != key(x),
    ensures
        keys_distinct(s.push(x), key),
{
    let out = s.push(x);
    assert forall|i: int, j: int| 0 <= i < out.len() && 0 <= j < out.len() && i != j implies key(
        #[trigger] out[i],
    ) != key(#[trigger] out[j]) by {
        if i < s.len() {
            assert(out[i] == s[i]);
        }
        if j < s.len() {
            assert(out[j] == s[j]);
        }
    }
}

} // verus!
