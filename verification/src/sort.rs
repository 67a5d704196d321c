//! A stable order of keys.

use vstd::prelude::*;

verus! {

/// Whether the entry at place `i` comes before the entry at place `j`: by key, and by place where
/// the keys are equal.
pub open spec fn comes_before(keys: Seq<u64>, i: int, j: int) -> bool {
    keys[i] < keys[j] || (keys[i] == keys[j] && i < j)
}

/// Whether the places in `order` are places of keys, each once, and ascend.
pub open spec fn ascends(keys: Seq<u64>, order: Seq<usize>) -> bool {
    &&& forall|a: int| 0 <= a < order.len() ==> #[trigger] order[a] < keys.len()
    &&& forall|a: int, b: int|
        0 <= a < b < order.len() ==> comes_before(keys, #[trigger] order[a] as int, #[trigger] order[b] as int)
}

/// Whether `order` lists all places of the keys such that the keys ascend and equal keys keep
/// the order of their places.
pub open spec fn is_stable_order(keys: Seq<u64>, order: Seq<usize>) -> bool {
    order.len() == keys.len() && ascends(keys, order)
}

/// The places of the keys in ascending order of the keys; equal keys keep their order.
pub open spec fn stable_order(keys: Seq<u64>) -> Seq<usize> {
    choose|order: Seq<usize>| is_stable_order(keys, order)
}

/// A stable order lists every place.
pub proof fn lemma_lists_every_place(keys: Seq<u64>, order: Seq<usize>, i: int)
    requires
        is_stable_order(keys, order),
        0 <= i < keys.len(),
    ensures
        exists|a: int| 0 <= a < order.len() && order[a] == i,
{
    let n = keys.len() as int;
    let places = order.map_values(|p: usize| p as int);
    assert(places.no_duplicates()) by {
        assert forall|a: int, b: int| 0 <= a < places.len() && 0 <= b < places.len() && a != b
            implies places[a] != places[b] by {
            if a < b {
                assert(comes_before(keys, order[a] as int, order[b] as int));
            } else {
                assert(comes_before(keys, order[b] as int, order[a] as int));
            }
        }
    }
    places.unique_seq_to_set();
    let all = vstd::set_lib::set_int_range(0, n);
    vstd::set_lib::lemma_int_range(0, n);
    assert(places.to_set().subset_of(all)) by {
        assert forall|p: int| places.to_set().contains(p) implies all.contains(p) by {
            let a = choose|a: int| 0 <= a < places.len() && places[a] == p;
            assert(order[a] < keys.len());
        }
    }
    vstd::set_lib::lemma_subset_equality(places.to_set(), all);
    assert(all.contains(i));
    assert(places.to_set().contains(i));
    let a = choose|a: int| 0 <= a < places.len() && places[a] == i;
    assert(order[a] == i);
}

/// Two stable orders agree on ever longer beginnings.
proof fn lemma_unique_prefix(keys: Seq<u64>, x: Seq<usize>, y: Seq<usize>, k: int)
    requires
        is_stable_order(keys, x),
        is_stable_order(keys, y),
        0 <= k <= keys.len(),
    ensures
        x.take(k) == y.take(k),
    decreases k,
{
    if k > 0 {
        let m = k - 1;
        lemma_unique_prefix(keys, x, y, m);
        assert forall|j: int| 0 <= j < m implies x[j] == y[j] by {
            assert(x.take(m)[j] == y.take(m)[j]);
        }
        lemma_lists_every_place(keys, y, x[m] as int);
        let j = choose|j: int| 0 <= j < y.len() && y[j] == x[m];
        lemma_lists_every_place(keys, x, y[m] as int);
        let l = choose|l: int| 0 <= l < x.len() && x[l] == y[m];
        if j < m {
            assert(comes_before(keys, x[j] as int, x[m] as int));
        }
        if l < m {
            assert(comes_before(keys, y[l] as int, y[m] as int));
        }
        if j > m {
            assert(comes_before(keys, y[m] as int, y[j] as int));
            if l > m {
                assert(comes_before(keys, x[m] as int, x[l] as int));
            }
        }
        assert(x[m] == y[m]);
        assert(x.take(k) =~= x.take(m).push(x[m]));
        assert(y.take(k) =~= y.take(m).push(y[m]));
    }
}

/// There is only one stable order.
pub proof fn law_stable_order_is_unique(keys: Seq<u64>, x: Seq<usize>, y: Seq<usize>)
    requires
        is_stable_order(keys, x),
        is_stable_order(keys, y),
    ensures
        x == y,
        x == stable_order(keys),
{
    lemma_unique_prefix(keys, x, y, keys.len() as int);
    assert(x.take(keys.len() as int) =~= x);
    assert(y.take(keys.len() as int) =~= y);
    lemma_unique_prefix(keys, x, stable_order(keys), keys.len() as int);
    assert(stable_order(keys).take(keys.len() as int) =~= stable_order(keys));
}

/// The places behind a given one, with the place put in where it belongs.
proof fn lemma_order_with(keys: Seq<u64>, order: Seq<usize>, place: usize) -> (r: Seq<usize>)
    requires
        ascends(keys, order),
        place < keys.len(),
        forall|a: int| 0 <= a < order.len() ==> #[trigger] order[a] != place,
    ensures
        ascends(keys, r),
        r.len() == order.len() + 1,
        forall|a: int| 0 <= a < r.len() ==> #[trigger] r[a] == place || order.contains(r[a]),
    decreases order.len(),
{
    if order.len() == 0 {
        seq![place]
    } else if comes_before(keys, order.last() as int, place as int) {
        let r = order.push(place);
        assert forall|a: int, b: int| 0 <= a < b < r.len() implies comes_before(
            keys,
            #[trigger] r[a] as int,
            #[trigger] r[b] as int,
        ) by {
            if b == order.len() && a < order.len() - 1 {
                assert(comes_before(keys, order[a] as int, order[order.len() - 1] as int));
            }
        }
        assert forall|a: int| 0 <= a < r.len() implies #[trigger] r[a] == place || order.contains(
            r[a],
        ) by {
            if a < order.len() {
                assert(order[a] == r[a]);
            }
        }
        r
    } else {
        let rest = order.drop_last();
        assert forall|a: int| 0 <= a < rest.len() implies #[trigger] rest[a] != place by {
            assert(order[a] != place);
        }
        let inner = lemma_order_with(keys, rest, place);
        let r = inner.push(order.last());
        assert(order[order.len() - 1] != place);
        assert forall|a: int, b: int| 0 <= a < b < r.len() implies comes_before(
            keys,
            #[trigger] r[a] as int,
            #[trigger] r[b] as int,
        ) by {
            if b == inner.len() {
                if inner[a] != place {
                    assert(rest.contains(inner[a]));
                    let c = choose|c: int| 0 <= c < rest.len() && rest[c] == inner[a];
                    assert(comes_before(keys, order[c] as int, order[order.len() - 1] as int));
                }
            }
        }
        assert forall|a: int| 0 <= a < r.len() implies #[trigger] r[a] == place || order.contains(
            r[a],
        ) by {
            if a < inner.len() {
                if inner[a] != place {
                    assert(rest.contains(inner[a]));
                    let c = choose|c: int| 0 <= c < rest.len() && rest[c] == inner[a];
                    assert(order[c] == r[a]);
                }
            } else {
                assert(order[order.len() - 1] == r[a]);
            }
        }
        r
    }
}

proof fn lemma_order_of_first(keys: Seq<u64>, n: int) -> (r: Seq<usize>)
    requires
        0 <= n <= keys.len(),
        n <= usize::MAX,
    ensures
        ascends(keys, r),
        r.len() == n,
        forall|a: int| 0 <= a < r.len() ==> #[trigger] r[a] < n,
    decreases n,
{
    if n == 0 {
        Seq::empty()
    } else {
        let before = lemma_order_of_first(keys, n - 1);
        let r = lemma_order_with(keys, before, (n - 1) as usize);
        assert forall|a: int| 0 <= a < r.len() implies #[trigger] r[a] < n by {
            if before.contains(r[a]) {
                let c = choose|c: int| 0 <= c < before.len() && before[c] == r[a];
                assert(before[c] < n - 1);
            }
        }
        r
    }
}

/// Keys that can be stored have a stable order.
pub proof fn lemma_stable_order_exists(keys: Seq<u64>)
    requires
        keys.len() <= usize::MAX,
    ensures
        is_stable_order(keys, stable_order(keys)),
{
    let r = lemma_order_of_first(keys, keys.len() as int);
    assert(is_stable_order(keys, r));
}

/// Merges two ascending lists of places, where the places of the second lie behind those of the
/// first.
fn merge(keys: &[u64], left: &Vec<usize>, right: &Vec<usize>, Ghost(mid): Ghost<int>) -> (r: Vec<usize>)
    requires
        ascends(keys@, left@),
        ascends(keys@, right@),
        left@.len() + right@.len() <= keys@.len(),
        forall|a: int| 0 <= a < left@.len() ==> #[trigger] left@[a] < mid,
        forall|a: int| 0 <= a < right@.len() ==> #[trigger] right@[a] >= mid,
    ensures
        ascends(keys@, r@),
        r@.len() == left@.len() + right@.len(),
        forall|a: int|
            0 <= a < r@.len() ==> left@.contains(#[trigger] r@[a]) || right@.contains(r@[a]),
{
    let total: usize = keys.len();
    let mut out: Vec<usize> = Vec::new();
    let mut i: usize = 0;
    let mut j: usize = 0;
    while i < left.len() || j < right.len()
        invariant
            i <= left@.len(),
            j <= right@.len(),
            left@.len() + right@.len() <= total,
            out@.len() == i + j,
            ascends(keys@, left@),
            ascends(keys@, right@),
            ascends(keys@, out@),
            forall|a: int| 0 <= a < left@.len() ==> #[trigger] left@[a] < mid,
            forall|a: int| 0 <= a < right@.len() ==> #[trigger] right@[a] >= mid,
            forall|a: int|
                0 <= a < out@.len() ==> left@.contains(#[trigger] out@[a]) || right@.contains(
                    out@[a],
                ),
            forall|a: int, b: int|
                0 <= a < out@.len() && i <= b < left@.len() ==> comes_before(
                    keys@,
                    #[trigger] out@[a] as int,
                    #[trigger] left@[b] as int,
                ),
            forall|a: int, b: int|
                0 <= a < out@.len() && j <= b < right@.len() ==> comes_before(
                    keys@,
                    #[trigger] out@[a] as int,
                    #[trigger] right@[b] as int,
                ),
        decreases left@.len() + right@.len() - i - j,
    {
        let take_left: bool = if i >= left.len() {
            false
        } else if j >= right.len() {
            true
        } else {
            keys[left[i]] <= keys[right[j]]
        };
        if take_left {
            let p: usize = left[i];
            assert(left@.contains(p));
            assert forall|b: int| j <= b < right@.len() implies comes_before(
                keys@,
                p as int,
                #[trigger] right@[b] as int,
            ) by {
                if b > j {
                    assert(comes_before(keys@, right@[j as int] as int, right@[b] as int));
                }
            }
            out.push(p);
            i = i + 1;
        } else {
            let p: usize = right[j];
            assert(right@.contains(p));
            assert forall|b: int| i <= b < left@.len() implies comes_before(
                keys@,
                p as int,
                #[trigger] left@[b] as int,
            ) by {
                if b > i {
                    assert(comes_before(keys@, left@[i as int] as int, left@[b] as int));
                }
            }
            out.push(p);
            j = j + 1;
        }
    }
    out
}

/// Orders the places from `low` up to, not including, `high`.
fn order_range(keys: &[u64], low: usize, high: usize) -> (r: Vec<usize>)
    requires
        low <= high <= keys@.len(),
    ensures
        ascends(keys@, r@),
        r@.len() == high - low,
        forall|a: int| 0 <= a < r@.len() ==> low <= #[trigger] r@[a] < high,
    decreases high - low,
{
    if high - low <= 1 {
        let mut out: Vec<usize> = Vec::new();
        if low < high {
            out.push(low);
        }
        return out;
    }
    let mid: usize = low + (high - low) / 2;
    let left = order_range(keys, low, mid);
    let right = order_range(keys, mid, high);
    let out = merge(keys, &left, &right, Ghost(mid as int));
    assert forall|a: int| 0 <= a < out@.len() implies low <= #[trigger] out@[a] < high by {
        if left@.contains(out@[a]) {
        } else {
            assert(right@.contains(out@[a]));
        }
    }
    out
}

/// The places of the keys in ascending order of the keys; equal keys keep their order.
pub fn order_by_key(keys: &[u64]) -> (r: Vec<usize>)
    ensures
        is_stable_order(keys@, r@),
        r@ == stable_order(keys@),
{
    let r = order_range(keys, 0, keys.len());
    proof {
        law_stable_order_is_unique(keys@, r@, r@);
    }
    r
}

} // verus!
