//! The order in which a writer puts its records: by a key of numbers,
//! compared number by number, with records whose keys are equal kept in
//! the order in which they were made.

use vstd::prelude::*;

verus! {

/// Key `a` comes before key `b`: at the first number where they differ,
/// `a` has the smaller one, or `a` is the shorter where one begins the other.
pub open spec fn key_less(a: Seq<u64>, b: Seq<u64>) -> bool
    decreases a.len(),
{
    if a.len() == 0 {
        b.len() > 0
    } else if b.len() == 0 {
        false
    } else if a[0] != b[0] {
        a[0] < b[0]
    } else {
        key_less(a.drop_first(), b.drop_first())
    }
}

/// The keys as sequences of numbers.
pub open spec fn key_views(keys: Seq<Vec<u64>>) -> Seq<Seq<u64>> {
    keys.map_values(|key: Vec<u64>| key@)
}

/// `order` with record `i` put after every record whose key is not greater
/// than its own.
pub open spec fn insert_record(keys: Seq<Seq<u64>>, order: Seq<int>, i: int) -> Seq<int>
    decreases order.len(),
{
    if order.len() == 0 || !key_less(keys[i], keys[order.last()]) {
        order.push(i)
    } else {
        insert_record(keys, order.drop_last(), i).push(order.last())
    }
}

/// The first `k` records sorted by key, with records whose keys are equal
/// kept in their given order.
pub open spec fn key_order(keys: Seq<Seq<u64>>, k: nat) -> Seq<int>
    decreases k,
{
    if k == 0 {
        Seq::empty()
    } else {
        insert_record(keys, key_order(keys, (k - 1) as nat), k - 1)
    }
}

/// No record is listed after one whose key is greater, and records whose
/// keys are equal are listed by their index.
pub open spec fn sorted_by_key(keys: Seq<Seq<u64>>, order: Seq<int>) -> bool {
    forall|a: int, b: int|
        #![trigger order[a], order[b]]
        0 <= a < b < order.len() ==> {
            &&& !key_less(keys[order[b]], keys[order[a]])
            &&& (!key_less(keys[order[a]], keys[order[b]]) ==> order[a] < order[b])
        }
}

/// No key comes before itself.
proof fn lemma_key_less_irreflexive(a: Seq<u64>)
    ensures
        !key_less(a, a),
    decreases a.len(),
{
    if a.len() > 0 {
        lemma_key_less_irreflexive(a.drop_first());
    }
}

/// Of two different keys exactly one comes before the other.
proof fn lemma_key_less_total(a: Seq<u64>, b: Seq<u64>)
    ensures
        key_less(a, b) ==> !key_less(b, a),
        !key_less(a, b) && !key_less(b, a) ==> a == b,
    decreases a.len(),
{
    if a.len() > 0 && b.len() > 0 {
        lemma_key_less_total(a.drop_first(), b.drop_first());
        if !key_less(a, b) && !key_less(b, a) {
            assert(a =~= seq![a[0]] + a.drop_first());
            assert(b =~= seq![b[0]] + b.drop_first());
        }
    }
}

/// Coming before is transitive.
proof fn lemma_key_less_transitive(a: Seq<u64>, b: Seq<u64>, c: Seq<u64>)
    ensures
        key_less(a, b) && key_less(b, c) ==> key_less(a, c),
    decreases a.len(),
{
    if a.len() > 0 && b.len() > 0 && c.len() > 0 {
        lemma_key_less_transitive(a.drop_first(), b.drop_first(), c.drop_first());
    }
}

/// Coming before is a strict total order of keys.
pub proof fn lemma_key_less_order(a: Seq<u64>, b: Seq<u64>, c: Seq<u64>)
    ensures
        !key_less(a, a),
        key_less(a, b) ==> !key_less(b, a),
        key_less(a, b) && key_less(b, c) ==> key_less(a, c),
        key_less(a, c) ==> key_less(a, b) || key_less(b, c),
        !key_less(a, b) && !key_less(b, a) ==> a == b,
{
    lemma_key_less_irreflexive(a);
    lemma_key_less_total(a, b);
    lemma_key_less_total(b, c);
    lemma_key_less_total(a, c);
    lemma_key_less_transitive(a, b, c);
    lemma_key_less_transitive(c, b, a);
    lemma_key_less_transitive(b, a, c);
    lemma_key_less_transitive(a, c, b);
    lemma_key_less_transitive(c, a, b);
    lemma_key_less_transitive(b, c, a);
}

/// Inserting record `i`, later in the list than every record of a sorted
/// order, keeps the order sorted and adds `i` to it.
proof fn lemma_insert_record(keys: Seq<Seq<u64>>, order: Seq<int>, i: int)
    requires
        0 <= i < keys.len(),
        sorted_by_key(keys, order),
        order.no_duplicates(),
        forall|a: int| 0 <= a < order.len() ==> 0 <= #[trigger] order[a] < i,
    ensures
        ({
            let inserted = insert_record(keys, order, i);
            &&& inserted.len() == order.len() + 1
            &&& sorted_by_key(keys, inserted)
            &&& inserted.no_duplicates()
            &&& forall|a: int|
                0 <= a < inserted.len() ==> #[trigger] inserted[a] == i || order.contains(inserted[a])
            &&& inserted.contains(i)
            &&& forall|a: int| 0 <= a < order.len() ==> inserted.contains(#[trigger] order[a])
        }),
    decreases order.len(),
{
    let inserted = insert_record(keys, order, i);
    if order.len() == 0 || !key_less(keys[i], keys[order.last()]) {
        assert(inserted == order.push(i));
        assert(inserted[order.len() as int] == i);
        assert forall|a: int, b: int|
            #![trigger inserted[a], inserted[b]]
            0 <= a < b < inserted.len() implies {
            &&& !key_less(keys[inserted[b]], keys[inserted[a]])
            &&& (!key_less(keys[inserted[a]], keys[inserted[b]]) ==> inserted[a] < inserted[b])
        } by {
            if b == order.len() {
                let last = order.last();
                let x = order[a];
                assert(inserted[a] == x);
                if a < order.len() - 1 {
                    assert(!key_less(keys[order[order.len() - 1]], keys[order[a]]));
                }
                lemma_key_less_order(keys[i], keys[last], keys[x]);
            } else {
                assert(inserted[a] == order[a]);
                assert(inserted[b] == order[b]);
            }
        }
        assert forall|a: int, b: int|
            0 <= a < inserted.len() && 0 <= b < inserted.len() && a != b implies inserted[a] != inserted[b] by {
            if a < order.len() && b < order.len() {
                assert(inserted[a] == order[a]);
                assert(inserted[b] == order[b]);
            } else if a < order.len() {
                assert(inserted[a] == order[a]);
            } else if b < order.len() {
                assert(inserted[b] == order[b]);
            }
        }
        assert forall|a: int| 0 <= a < inserted.len() implies #[trigger] inserted[a] == i || order.contains(
            inserted[a],
        ) by {
            if a < order.len() {
                assert(inserted[a] == order[a]);
            }
        }
        assert forall|a: int| 0 <= a < order.len() implies inserted.contains(#[trigger] order[a]) by {
            assert(inserted[a] == order[a]);
        }
    } else {
        let last = order.last();
        let front = order.drop_last();
        assert forall|a: int, b: int|
            #![trigger front[a], front[b]]
            0 <= a < b < front.len() implies {
            &&& !key_less(keys[front[b]], keys[front[a]])
            &&& (!key_less(keys[front[a]], keys[front[b]]) ==> front[a] < front[b])
        } by {
            assert(front[a] == order[a]);
            assert(front[b] == order[b]);
        }
        assert forall|a: int| 0 <= a < front.len() implies 0 <= #[trigger] front[a] < i by {
            assert(front[a] == order[a]);
        }
        lemma_insert_record(keys, front, i);
        let rest = insert_record(keys, front, i);
        assert(inserted == rest.push(last));
        let n = rest.len() as int;
        assert forall|a: int| 0 <= a < n implies #[trigger] rest[a] == i || order.contains(rest[a]) by {
            if rest[a] != i {
                let j = choose|j: int| 0 <= j < front.len() && front[j] == rest[a];
                assert(order[j] == rest[a]);
            }
        }
        assert forall|a: int| 0 <= a < n implies #[trigger] rest[a] != last by {
            if rest[a] != i {
                let j = choose|j: int| 0 <= j < front.len() && front[j] == rest[a];
                assert(order[j] == front[j]);
                assert(order[order.len() - 1] == last);
            }
        }
        assert forall|a: int, b: int|
            #![trigger inserted[a], inserted[b]]
            0 <= a < b < inserted.len() implies {
            &&& !key_less(keys[inserted[b]], keys[inserted[a]])
            &&& (!key_less(keys[inserted[a]], keys[inserted[b]]) ==> inserted[a] < inserted[b])
        } by {
            assert(inserted[a] == rest[a]);
            if b == n {
                assert(inserted[b] == last);
                let y = rest[a];
                if y == i {
                    lemma_key_less_order(keys[i], keys[last], keys[i]);
                } else {
                    let j = choose|j: int| 0 <= j < front.len() && front[j] == y;
                    assert(order[j] == y);
                    assert(!key_less(keys[order[order.len() - 1]], keys[order[j]]));
                }
            } else {
                assert(inserted[b] == rest[b]);
            }
        }
        assert forall|a: int, b: int|
            0 <= a < inserted.len() && 0 <= b < inserted.len() && a != b implies inserted[a] != inserted[b] by {
            if a < n && b < n {
                assert(inserted[a] == rest[a]);
                assert(inserted[b] == rest[b]);
            } else if a < n {
                assert(inserted[a] == rest[a]);
            } else if b < n {
                assert(inserted[b] == rest[b]);
            }
        }
        assert forall|a: int| 0 <= a < inserted.len() implies #[trigger] inserted[a] == i || order.contains(
            inserted[a],
        ) by {
            if a < n {
                assert(inserted[a] == rest[a]);
            } else {
                assert(order[order.len() - 1] == last);
            }
        }
        let k = choose|k: int| 0 <= k < n && rest[k] == i;
        assert(inserted[k] == i);
        assert forall|a: int| 0 <= a < order.len() implies inserted.contains(#[trigger] order[a]) by {
            if a < order.len() - 1 {
                assert(front[a] == order[a]);
                let j = choose|j: int| 0 <= j < n && rest[j] == front[a];
                assert(inserted[j] == order[a]);
            } else {
                assert(inserted[n] == order[a]);
            }
        }
    }
}

/// The first `k` records in key order: each index below `k` once, sorted
/// by key, ties by index.
proof fn lemma_key_order(keys: Seq<Seq<u64>>, k: nat)
    requires
        k <= keys.len(),
    ensures
        ({
            let order = key_order(keys, k);
            &&& order.len() == k
            &&& order.no_duplicates()
            &&& forall|a: int| 0 <= a < order.len() ==> 0 <= #[trigger] order[a] < k
            &&& sorted_by_key(keys, order)
        }),
    decreases k,
{
    if k > 0 {
        lemma_key_order(keys, (k - 1) as nat);
        let before = key_order(keys, (k - 1) as nat);
        lemma_insert_record(keys, before, k - 1);
        let order = key_order(keys, k);
        assert forall|a: int| 0 <= a < order.len() implies 0 <= #[trigger] order[a] < k by {
            if order[a] != k - 1 {
                let j = choose|j: int| 0 <= j < before.len() && before[j] == order[a];
            }
        }
    }
}

/// Records are written in key order: every record once, none after a
/// record with a greater key, and records with equal keys in the order in
/// which they were made.
pub proof fn lemma_records_in_key_order(keys: Seq<Seq<u64>>)
    ensures
        ({
            let order = key_order(keys, keys.len());
            &&& order.len() == keys.len()
            &&& order.no_duplicates()
            &&& forall|a: int| 0 <= a < order.len() ==> 0 <= #[trigger] order[a] < keys.len()
            &&& sorted_by_key(keys, order)
        }),
{
    lemma_key_order(keys, keys.len());
}

/// Whether key `a` comes before key `b`.
fn less(a: &Vec<u64>, b: &Vec<u64>) -> (before: bool)
    ensures
        before == key_less(a@, b@),
{
    let mut i: usize = 0;
    proof {
        assert(a@.skip(0) =~= a@);
        assert(b@.skip(0) =~= b@);
    }
    while i < a.len() && i < b.len()
        invariant
            i <= a@.len(),
            i <= b@.len(),
            key_less(a@, b@) == key_less(a@.skip(i as int), b@.skip(i as int)),
        decreases a@.len() - i,
    {
        proof {
            let (x, y) = (a@.skip(i as int), b@.skip(i as int));
            assert(x[0] == a@[i as int] && y[0] == b@[i as int]);
            assert(x.drop_first() =~= a@.skip(i + 1));
            assert(y.drop_first() =~= b@.skip(i + 1));
        }
        if a[i] != b[i] {
            return a[i] < b[i];
        }
        i += 1;
    }
    i < b.len()
}

/// The indices as integers.
pub open spec fn indices(order: Seq<usize>) -> Seq<int> {
    order.map_values(|i: usize| i as int)
}

/// The order in which to write records with the keys given: sorted by key,
/// records with equal keys in their given order.
pub fn record_order(keys: &Vec<Vec<u64>>) -> (order: Vec<usize>)
    ensures
        indices(order@) == key_order(key_views(keys@), keys@.len()),
        forall|j: int| 0 <= j < order@.len() ==> #[trigger] order@[j] < keys@.len(),
{
    let ghost views = key_views(keys@);
    let mut order: Vec<usize> = Vec::new();
    let mut k: usize = 0;
    proof {
        assert(indices(order@) =~= Seq::<int>::empty());
    }
    while k < keys.len()
        invariant
            k <= keys@.len(),
            views == key_views(keys@),
            indices(order@) == key_order(views, k as nat),
            forall|j: int| 0 <= j < order@.len() ==> #[trigger] order@[j] < k,
        decreases keys@.len() - k,
    {
        let ghost sorted = indices(order@);
        let mut p: usize = order.len();
        proof {
            assert(sorted.take(p as int) =~= sorted);
            assert(sorted.take(p as int) + sorted.skip(p as int) =~= sorted);
        }
        while p > 0 && less(&keys[k], &keys[order[p - 1]])
            invariant
                p <= order@.len(),
                k < keys@.len(),
                views == key_views(keys@),
                indices(order@) == sorted,
                forall|j: int| 0 <= j < order@.len() ==> #[trigger] order@[j] < k,
                insert_record(views, sorted, k as int) == insert_record(views, sorted.take(p as int), k as int)
                    + sorted.skip(p as int),
            decreases p,
        {
            proof {
                let front = sorted.take(p as int);
                assert(front.last() == sorted[p - 1]);
                assert(front.drop_last() =~= sorted.take(p - 1));
                let rest = insert_record(views, sorted.take(p - 1), k as int);
                assert(rest.push(sorted[p - 1]) + sorted.skip(p as int) =~= rest + sorted.skip(p - 1));
            }
            p -= 1;
        }
        proof {
            assert(sorted.take(p as int).push(k as int) + sorted.skip(p as int) =~= sorted.insert(p as int, k as int));
        }
        order.insert(p, k);
        proof {
            assert(indices(order@) =~= sorted.insert(p as int, k as int));
            assert forall|j: int| 0 <= j < order@.len() implies #[trigger] order@[j] < k + 1 by {
                if j < p {
                    assert(order@[j] == sorted[j]);
                } else if j > p {
                    assert(order@[j] as int == sorted[j - 1]);
                }
            }
        }
        k += 1;
    }
    order
}

} // verus!
