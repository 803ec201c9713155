use vstd::prelude::*;
use crate::order::Ordered;

verus! {

/// The views of the items of `s`, in order.
pub open spec fn views<T: View>(s: Seq<T>) -> Seq<T::V> {
    s.map_values(|x: T| x@)
}

/// Every item is less than every later one: ascending, with no two equal.
pub open spec fn strictly_ascending<T: Ordered>(s: Seq<T::V>) -> bool {
    forall|i: int, j: int| 0 <= i < j < s.len() ==> T::less(#[trigger] s[i], #[trigger] s[j])
}

/// `out` holds the values of `items`, each once, in ascending order.
pub open spec fn is_canonical<T: Ordered>(out: Seq<T::V>, items: Seq<T::V>) -> bool {
    strictly_ascending::<T>(out) && out.to_set() == items.to_set()
}

/// The ascending sequence of the distinct values of `items`.
pub open spec fn canonical<T: Ordered>(items: Seq<T::V>) -> Seq<T::V> {
    choose|out: Seq<T::V>| is_canonical::<T>(out, items)
}

/// Two sequences that are both canonical for the same items are equal.
pub proof fn lemma_canonical_unique<T: Ordered>(a: Seq<T::V>, b: Seq<T::V>)
    requires
        strictly_ascending::<T>(a),
        strictly_ascending::<T>(b),
        a.to_set() == b.to_set(),
    ensures
        a == b,
    decreases a.len(),
{
    if a.len() == 0 {
        if b.len() > 0 {
            assert(b.to_set().contains(b[0]));
        }
        assert(a =~= b);
    } else {
        assert(a.to_set().contains(a[0]));
        assert(b.to_set().contains(a[0]));
        assert(b.len() > 0);
        assert(b.to_set().contains(b[0]));
        assert(a.to_set().contains(b[0]));
        let j = choose|j: int| 0 <= j < b.len() && b[j] == a[0];
        let i = choose|i: int| 0 <= i < a.len() && a[i] == b[0];
        T::lemma_strict_total_order(a[0], b[0], a[0]);
        T::lemma_strict_total_order(b[0], a[0], b[0]);
        if j > 0 && i > 0 {
            assert(T::less(b[0], b[j]));
            assert(T::less(a[0], a[i]));
        }
        assert(a[0] == b[0]);
        let ta = a.drop_first();
        let tb = b.drop_first();
        assert forall|x: T::V| ta.to_set().contains(x) implies tb.to_set().contains(x) by {
            let k = choose|k: int| 0 <= k < ta.len() && ta[k] == x;
            assert(a[k + 1] == x);
            assert(T::less(a[0], a[k + 1]));
            T::lemma_strict_total_order(a[0], a[0], a[0]);
            assert(a.to_set().contains(x));
            let m = choose|m: int| 0 <= m < b.len() && b[m] == x;
            assert(m != 0);
            assert(tb[m - 1] == x);
        }
        assert forall|x: T::V| tb.to_set().contains(x) implies ta.to_set().contains(x) by {
            let k = choose|k: int| 0 <= k < tb.len() && tb[k] == x;
            assert(b[k + 1] == x);
            assert(T::less(b[0], b[k + 1]));
            T::lemma_strict_total_order(b[0], b[0], b[0]);
            assert(b.to_set().contains(x));
            let m = choose|m: int| 0 <= m < a.len() && a[m] == x;
            assert(m != 0);
            assert(ta[m - 1] == x);
        }
        assert(ta.to_set() =~= tb.to_set());
        lemma_canonical_unique::<T>(ta, tb);
        assert(a =~= seq![a[0]] + ta);
        assert(b =~= seq![b[0]] + tb);
    }
}

/// When `out` is canonical for `items`, it is the canonical sequence.
pub proof fn lemma_canonical_is<T: Ordered>(out: Seq<T::V>, items: Seq<T::V>)
    requires
        is_canonical::<T>(out, items),
    ensures
        canonical::<T>(items) == out,
{
    let c = canonical::<T>(items);
    assert(is_canonical::<T>(c, items));
    lemma_canonical_unique::<T>(c, out);
}

/// No items have no values: the canonical sequence is empty.
pub proof fn lemma_canonical_empty<T: Ordered>()
    ensures
        canonical::<T>(Seq::empty()) == Seq::<T::V>::empty(),
{
    let e = Seq::<T::V>::empty();
    assert(e.to_set() =~= Set::empty());
    lemma_canonical_is::<T>(e, e);
}

proof fn lemma_insert_to_set<A>(s: Seq<A>, p: int, v: A)
    requires
        0 <= p <= s.len(),
    ensures
        s.insert(p, v).to_set() == s.to_set().insert(v),
{
    let t = s.insert(p, v);
    assert forall|y: A| t.to_set().contains(y) implies s.to_set().insert(v).contains(y) by {
        let k = choose|k: int| 0 <= k < t.len() && t[k] == y;
        if k < p {
            assert(s[k] == y);
        } else if k > p {
            assert(s[k - 1] == y);
        }
    }
    assert forall|y: A| s.to_set().insert(v).contains(y) implies t.to_set().contains(y) by {
        if y == v {
            assert(t[p] == v);
        } else {
            let k = choose|k: int| 0 <= k < s.len() && s[k] == y;
            if k < p {
                assert(t[k] == y);
            } else {
                assert(t[k + 1] == y);
            }
        }
    }
    assert(t.to_set() =~= s.to_set().insert(v));
}

/// Sorts `items` ascending and drops repeated values.
pub fn canonicalize<T: Ordered>(items: Vec<T>) -> (r: Vec<T>)
    ensures
        views(r@) == canonical::<T>(views(items@)),
        strictly_ascending::<T>(views(r@)),
        views(r@).to_set() == views(items@).to_set(),
{
    let ghost all = views(items@).to_set();
    let mut rest = items;
    let mut r: Vec<T> = Vec::new();
    assert(views(r@).to_set() =~= Set::empty());
    while rest.len() > 0
        invariant
            strictly_ascending::<T>(views(r@)),
            views(r@).to_set().union(views(rest@).to_set()) == all,
        decreases rest.len(),
    {
        let ghost before_rest = views(rest@);
        let ghost before = views(r@);
        let x = rest.pop().unwrap();
        assert(before_rest =~= views(rest@).push(x@));
        let mut p: usize = 0;
        let mut go = true;
        while go && p < r.len()
            invariant
                p <= r.len(),
                forall|j: int| 0 <= j < p ==> T::less(#[trigger] r@[j]@, x@),
                !go ==> p < r.len() && !T::less(r@[p as int]@, x@),
            decreases r.len() - p, if go { 1int } else { 0int },
        {
            if r[p].is_less(&x) {
                p = p + 1;
            } else {
                go = false;
            }
        }
        if p < r.len() && !x.is_less(&r[p]) {
            proof {
                T::lemma_strict_total_order(r@[p as int]@, x@, x@);
                assert(before[p as int] == x@);
                views(rest@).lemma_push_to_set_commute(x@);
                assert(before.to_set().contains(x@));
                assert(before.to_set().union(views(rest@).to_set()) =~= all);
            }
        } else {
            r.insert(p, x);
            proof {
                let after = views(r@);
                assert(after =~= before.insert(p as int, x@));
                assert forall|i: int, j: int| 0 <= i < j < after.len() implies T::less(
                    #[trigger] after[i],
                    #[trigger] after[j],
                ) by {
                    if j == p {
                        assert(after[i] == before[i]);
                    } else if i == p {
                        assert(after[j] == before[j - 1]);
                        if j - 1 > p {
                            assert(T::less(before[p as int], before[j - 1]));
                            T::lemma_strict_total_order(x@, before[p as int], before[j - 1]);
                        }
                        T::lemma_strict_total_order(before[p as int], x@, x@);
                    } else if i < p && j > p {
                        assert(after[i] == before[i]);
                        assert(after[j] == before[j - 1]);
                    } else if i > p {
                        assert(after[i] == before[i - 1]);
                        assert(after[j] == before[j - 1]);
                    } else {
                        assert(after[i] == before[i]);
                        assert(after[j] == before[j]);
                    }
                }
                lemma_insert_to_set(before, p as int, x@);
                views(rest@).lemma_push_to_set_commute(x@);
                assert(after.to_set().union(views(rest@).to_set()) =~= all);
            }
        }
    }
    proof {
        assert(views(rest@).to_set() =~= Set::empty());
        assert(views(r@).to_set() =~= all);
        lemma_canonical_is::<T>(views(r@), views(items@));
    }
    r
}

} // verus!
