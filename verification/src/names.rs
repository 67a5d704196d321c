//! Lists of names in alphabetical order, each name once.

use vstd::prelude::*;

use crate::text;

verus! {

/// Whether one name stands before another in alphabetical order: by the first character in which
/// they differ, and a name before its continuations.
pub open spec fn precedes(a: Seq<char>, b: Seq<char>) -> bool
    decreases a.len(),
{
    if b.len() == 0 {
        false
    } else if a.len() == 0 {
        true
    } else if a[0] != b[0] {
        a[0] < b[0]
    } else {
        precedes(a.skip(1), b.skip(1))
    }
}

/// Whether names are in alphabetical order, each once.
pub open spec fn is_ascending(names: Seq<Seq<char>>) -> bool {
    forall|i: int, j: int|
        0 <= i < j < names.len() ==> precedes(#[trigger] names[i], #[trigger] names[j])
}

/// Whether `names` are the listed names in alphabetical order, each once.
pub open spec fn is_sorted_set(names: Seq<Seq<char>>, listed: Seq<Seq<char>>) -> bool {
    is_ascending(names) && forall|name: Seq<char>|
        #![trigger names.contains(name)]
        #![trigger listed.contains(name)]
        names.contains(name) <==> listed.contains(name)
}

/// The listed names in alphabetical order, each once.
pub open spec fn sorted_set(listed: Seq<Seq<char>>) -> Seq<Seq<char>> {
    choose|names: Seq<Seq<char>>| is_sorted_set(names, listed)
}

/// No name stands before itself.
pub proof fn lemma_precedes_irreflexive(a: Seq<char>)
    ensures
        !precedes(a, a),
    decreases a.len(),
{
    if a.len() > 0 {
        lemma_precedes_irreflexive(a.skip(1));
    }
}

/// Alphabetical order is transitive.
pub proof fn lemma_precedes_transitive(a: Seq<char>, b: Seq<char>, c: Seq<char>)
    requires
        precedes(a, b),
        precedes(b, c),
    ensures
        precedes(a, c),
    decreases a.len(),
{
    if a.len() > 0 && b.len() > 0 && c.len() > 0 && a[0] == b[0] && b[0] == c[0] {
        lemma_precedes_transitive(a.skip(1), b.skip(1), c.skip(1));
    }
}

/// Of two different names one stands before the other.
pub proof fn lemma_precedes_total(a: Seq<char>, b: Seq<char>)
    ensures
        a == b || precedes(a, b) || precedes(b, a),
    decreases a.len(),
{
    if a.len() == 0 {
        if b.len() == 0 {
            assert(a =~= b);
        }
    } else if b.len() > 0 && a[0] == b[0] {
        lemma_precedes_total(a.skip(1), b.skip(1));
        if a.skip(1) == b.skip(1) {
            assert(a =~= seq![a[0]] + a.skip(1));
            assert(b =~= seq![b[0]] + b.skip(1));
        }
    }
}

/// There is only one sorted list of given names.
pub proof fn law_sorted_set_is_unique(x: Seq<Seq<char>>, y: Seq<Seq<char>>, listed: Seq<Seq<char>>)
    requires
        is_sorted_set(x, listed),
        is_sorted_set(y, listed),
    ensures
        x == y,
        x == sorted_set(listed),
{
    lemma_same_set_same_list(x, y);
    lemma_same_set_same_list(x, sorted_set(listed));
}

proof fn lemma_same_set_same_list(x: Seq<Seq<char>>, y: Seq<Seq<char>>)
    requires
        is_ascending(x),
        is_ascending(y),
        forall|name: Seq<char>|
            #![trigger x.contains(name)]
            #![trigger y.contains(name)]
            x.contains(name) <==> y.contains(name),
    ensures
        x == y,
    decreases x.len(),
{
    if x.len() == 0 {
        if y.len() > 0 {
            assert(y.contains(y[0]));
            assert(x.contains(y[0]));
        }
        assert(x =~= y);
    } else if y.len() == 0 {
        assert(x.contains(x[0]));
        assert(y.contains(x[0]));
    } else {
        let a = x.last();
        let b = y.last();
        assert(x.contains(a) && y.contains(b));
        assert(y.contains(a) && x.contains(b));
        let i = choose|i: int| 0 <= i < x.len() && x[i] == b;
        let j = choose|j: int| 0 <= j < y.len() && y[j] == a;
        if i < x.len() - 1 {
            assert(precedes(x[i], x[x.len() - 1]));
            if j < y.len() - 1 {
                assert(precedes(y[j], y[y.len() - 1]));
                lemma_precedes_transitive(a, b, a);
                lemma_precedes_irreflexive(a);
            } else {
                lemma_precedes_irreflexive(a);
            }
        }
        assert(a == b);
        let xs = x.drop_last();
        let ys = y.drop_last();
        assert forall|p: int, q: int| 0 <= p < q < xs.len() implies precedes(
            #[trigger] xs[p],
            #[trigger] xs[q],
        ) by {
            assert(precedes(x[p], x[q]));
        }
        assert forall|p: int, q: int| 0 <= p < q < ys.len() implies precedes(
            #[trigger] ys[p],
            #[trigger] ys[q],
        ) by {
            assert(precedes(y[p], y[q]));
        }
        assert forall|name: Seq<char>|
            #![trigger xs.contains(name)]
            #![trigger ys.contains(name)]
            xs.contains(name) <==> ys.contains(name) by {
            if xs.contains(name) {
                let p = choose|p: int| 0 <= p < xs.len() && xs[p] == name;
                assert(x[p] == name);
                assert(x.contains(name));
                assert(y.contains(name));
                let q = choose|q: int| 0 <= q < y.len() && y[q] == name;
                if q == y.len() - 1 {
                    assert(precedes(x[p], x[x.len() - 1]));
                    lemma_precedes_irreflexive(a);
                }
                assert(ys[q] == name);
            }
            if ys.contains(name) {
                let p = choose|p: int| 0 <= p < ys.len() && ys[p] == name;
                assert(y[p] == name);
                assert(y.contains(name));
                assert(x.contains(name));
                let q = choose|q: int| 0 <= q < x.len() && x[q] == name;
                if q == x.len() - 1 {
                    assert(precedes(y[p], y[y.len() - 1]));
                    lemma_precedes_irreflexive(a);
                }
                assert(xs[q] == name);
            }
        }
        lemma_same_set_same_list(xs, ys);
        assert(x =~= xs.push(a));
        assert(y =~= ys.push(b));
    }
}

/// Every list of names has a sorted list of them.
pub proof fn lemma_sorted_set_exists(listed: Seq<Seq<char>>)
    ensures
        is_sorted_set(sorted_set(listed), listed),
{
    let names = lemma_sorted(listed);
    assert(is_sorted_set(names, listed));
}

proof fn lemma_sorted(listed: Seq<Seq<char>>) -> (names: Seq<Seq<char>>)
    ensures
        is_sorted_set(names, listed),
    decreases listed.len(),
{
    if listed.len() == 0 {
        let names = Seq::<Seq<char>>::empty();
        assert(names =~= listed);
        names
    } else {
        let rest = listed.drop_last();
        let name = listed.last();
        let sorted = lemma_sorted(rest);
        let names = lemma_with_name(sorted, name, sorted.len() as int);
        assert forall|n: Seq<char>|
            #![trigger names.contains(n)]
            #![trigger listed.contains(n)]
            names.contains(n) <==> listed.contains(n) by {
            assert(listed =~= rest.push(name));
            assert(sorted.contains(n) <==> rest.contains(n));
            if rest.contains(n) {
                let k = choose|k: int| 0 <= k < rest.len() && rest[k] == n;
                assert(listed[k] == n);
            }
            if n == name {
                assert(listed[listed.len() - 1] == n);
            }
            if listed.contains(n) && n != name {
                let k = choose|k: int| 0 <= k < listed.len() && listed[k] == n;
                assert(rest[k] == n);
            }
        }
        names
    }
}

/// Names in alphabetical order with one more, which stands before all from a place on.
proof fn lemma_with_name(names: Seq<Seq<char>>, name: Seq<char>, i: int) -> (r: Seq<Seq<char>>)
    requires
        is_ascending(names),
        0 <= i <= names.len(),
        forall|j: int| i <= j < names.len() ==> precedes(name, #[trigger] names[j]),
    ensures
        is_ascending(r),
        forall|n: Seq<char>| #[trigger] r.contains(n) <==> names.contains(n) || n == name,
    decreases i,
{
    if i == 0 {
        lemma_insert_keeps_order(names, 0, name);
        names.insert(0, name)
    } else {
        lemma_precedes_total(names[i - 1], name);
        if names[i - 1] == name {
            assert(names.contains(name));
            names
        } else if precedes(names[i - 1], name) {
            lemma_insert_keeps_order(names, i, name);
            names.insert(i, name)
        } else {
            lemma_with_name(names, name, i - 1)
        }
    }
}

/// How one name stands to another.
enum Place {
    Before,
    Same,
    Behind,
}

fn place(a: &[char], b: &[char]) -> (r: Place)
    ensures
        match r {
            Place::Before => precedes(a@, b@),
            Place::Same => a@ == b@,
            Place::Behind => precedes(b@, a@),
        },
{
    let mut i: usize = 0;
    assert(a@.skip(0) =~= a@);
    assert(b@.skip(0) =~= b@);
    while i < a.len() && i < b.len()
        invariant
            i <= a@.len(),
            i <= b@.len(),
            a@.take(i as int) == b@.take(i as int),
            precedes(a@, b@) == precedes(a@.skip(i as int), b@.skip(i as int)),
            precedes(b@, a@) == precedes(b@.skip(i as int), a@.skip(i as int)),
        decreases a@.len() - i,
    {
        assert(a@.skip(i as int)[0] == a@[i as int]);
        assert(b@.skip(i as int)[0] == b@[i as int]);
        if a[i] < b[i] {
            return Place::Before;
        }
        if a[i] > b[i] {
            return Place::Behind;
        }
        assert(a@.skip(i as int).skip(1) =~= a@.skip(i + 1));
        assert(b@.skip(i as int).skip(1) =~= b@.skip(i + 1));
        assert(a@.take(i + 1) =~= a@.take(i as int).push(a@[i as int]));
        assert(b@.take(i + 1) =~= b@.take(i as int).push(b@[i as int]));
        i = i + 1;
    }
    if a.len() < b.len() {
        Place::Before
    } else if a.len() > b.len() {
        Place::Behind
    } else {
        assert(a@.take(i as int) =~= a@);
        assert(b@.take(i as int) =~= b@);
        Place::Same
    }
}

/// Puts a name at its place among names in alphabetical order, unless it is there.
fn insert_name(names: &mut Vec<Vec<char>>, name: Vec<char>)
    requires
        is_ascending(text::views(old(names)@)),
    ensures
        is_ascending(text::views(final(names)@)),
        forall|n: Seq<char>| #[trigger]
            text::views(final(names)@).contains(n) <==> text::views(old(names)@).contains(n) || n
                == name@,
{
    let ghost before = text::views(names@);
    let mut i: usize = names.len();
    while i > 0
        invariant
            i <= names@.len(),
            before == text::views(names@),
            before == text::views(old(names)@),
            is_ascending(before),
            forall|j: int| i <= j < before.len() ==> precedes(name@, #[trigger] before[j]),
        decreases i,
    {
        assert(before[i - 1] == names@[i - 1]@);
        match place(names[i - 1].as_slice(), name.as_slice()) {
            Place::Same => {
                proof {
                    assert forall|n: Seq<char>| n == name@ implies #[trigger] before.contains(n) by {
                        assert(before[i - 1] == n);
                    }
                }
                return;
            },
            Place::Before => {
                names.insert(i, name);
                let ghost after = text::views(names@);
                proof {
                    assert(after =~= before.insert(i as int, name@));
                    lemma_insert_keeps_order(before, i as int, name@);
                }
                return;
            },
            Place::Behind => {
                i = i - 1;
            },
        }
    }
    names.insert(0, name);
    proof {
        assert(text::views(names@) =~= before.insert(0, name@));
        lemma_insert_keeps_order(before, 0, name@);
    }
}

proof fn lemma_insert_keeps_order(names: Seq<Seq<char>>, i: int, name: Seq<char>)
    requires
        is_ascending(names),
        0 <= i <= names.len(),
        i > 0 ==> precedes(names[i - 1], name),
        forall|j: int| i <= j < names.len() ==> precedes(name, #[trigger] names[j]),
    ensures
        is_ascending(names.insert(i, name)),
        forall|n: Seq<char>| #[trigger]
            names.insert(i, name).contains(n) <==> names.contains(n) || n == name,
{
    let after = names.insert(i, name);
    assert forall|p: int, q: int| 0 <= p < q < after.len() implies precedes(
        #[trigger] after[p],
        #[trigger] after[q],
    ) by {
        if q < i {
            assert(precedes(names[p], names[q]));
        } else if q == i {
            if p < i - 1 {
                assert(precedes(names[p], names[i - 1]));
                lemma_precedes_transitive(names[p], names[i - 1], name);
            }
        } else if p < i {
            assert(precedes(names[p], names[q - 1]));
        } else if p == i {
            assert(precedes(name, names[q - 1]));
        } else {
            assert(precedes(names[p - 1], names[q - 1]));
        }
    }
    assert forall|n: Seq<char>| #[trigger]
        after.contains(n) <==> names.contains(n) || n == name by {
        if names.contains(n) {
            let k = choose|k: int| 0 <= k < names.len() && names[k] == n;
            if k < i {
                assert(after[k] == n);
            } else {
                assert(after[k + 1] == n);
            }
        }
        if n == name {
            assert(after[i] == n);
        }
        if after.contains(n) {
            let k = choose|k: int| 0 <= k < after.len() && after[k] == n;
            if k < i {
                assert(names[k] == n);
            } else if k > i {
                assert(names[k - 1] == n);
            }
        }
    }
}

/// The listed names in alphabetical order, each once.
pub fn sort_names(listed: Vec<Vec<char>>) -> (r: Vec<Vec<char>>)
    ensures
        is_sorted_set(text::views(r@), text::views(listed@)),
        text::views(r@) == sorted_set(text::views(listed@)),
{
    let ghost originals = listed@;
    let ghost all = text::views(listed@);
    let mut out: Vec<Vec<char>> = Vec::new();
    for name in it: listed
        invariant
            it.seq() == originals,
            all == text::views(originals),
            is_ascending(text::views(out@)),
            forall|n: Seq<char>| #[trigger]
                text::views(out@).contains(n) <==> all.take(it.index()).contains(n),
    {
        let ghost i = it.index();
        let ghost done = text::views(out@);
        let ghost n = name@;
        assert(n == all[i]);
        insert_name(&mut out, name);
        proof {
            assert forall|m: Seq<char>| #[trigger]
                text::views(out@).contains(m) <==> all.take(i + 1).contains(m) by {
                let shorter = all.take(i);
                let longer = all.take(i + 1);
                if shorter.contains(m) {
                    let k = choose|k: int| 0 <= k < shorter.len() && shorter[k] == m;
                    assert(longer[k] == m);
                }
                if m == n {
                    assert(longer[i] == m);
                }
                if longer.contains(m) {
                    let k = choose|k: int| 0 <= k < longer.len() && longer[k] == m;
                    if k < i {
                        assert(shorter[k] == m);
                    }
                }
            }
        }
    }
    proof {
        assert(all.take(all.len() as int) =~= all);
        law_sorted_set_is_unique(text::views(out@), text::views(out@), all);
    }
    out
}

} // verus!
