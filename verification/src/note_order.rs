//! The order in which a standard SUS document lists notes: a note that hangs
//! from another one (an AIR note from its parent) comes after it.

use vstd::prelude::*;

verus! {

/// The note that note `j` hangs from, where `parents[j]` names a note of the chart.
pub open spec fn parent_of(parents: Seq<Option<u32>>, j: int) -> Option<int> {
    match parents[j] {
        Some(p) => if p < parents.len() {
            Some(p as int)
        } else {
            None
        },
        None => None,
    }
}

/// The number of notes not yet placed.
pub open spec fn unplaced(placed: Seq<bool>) -> nat
    decreases placed.len(),
{
    if placed.len() == 0 {
        0
    } else {
        unplaced(placed.drop_last()) + if placed.last() {
            0nat
        } else {
            1nat
        }
    }
}

/// Placing a note leaves one note fewer to place.
pub proof fn lemma_place_one(placed: Seq<bool>, i: int)
    requires
        0 <= i < placed.len(),
        !placed[i],
    ensures
        unplaced(placed.update(i, true)) + 1 == unplaced(placed),
    decreases placed.len(),
{
    let marked = placed.update(i, true);
    if i == placed.len() - 1 {
        assert(marked.drop_last() =~= placed.drop_last());
    } else {
        assert(marked.drop_last() =~= placed.drop_last().update(i, true));
        lemma_place_one(placed.drop_last(), i);
    }
}

/// Starting at note `j`, the notes met by going from each note to the one it
/// hangs from, until a placed note or a note that hangs from none; each is
/// placed as it is met. Gives the placements after the walk and the notes met.
pub open spec fn walk(parents: Seq<Option<u32>>, j: int, placed: Seq<bool>) -> (Seq<bool>, Seq<int>)
    decreases unplaced(placed),
{
    if j < 0 || j >= placed.len() || placed[j] {
        (placed, Seq::empty())
    } else {
        let marked = placed.update(j, true);
        proof {
            lemma_place_one(placed, j);
        }
        match parent_of(parents, j) {
            Some(p) => {
                let (after, chain) = walk(parents, p, marked);
                (after, seq![j] + chain)
            },
            None => (marked, seq![j]),
        }
    }
}

/// The order built from note `k` on: each note not yet placed is listed
/// after the notes it hangs from, deepest first.
pub open spec fn order_from(parents: Seq<Option<u32>>, k: int, placed: Seq<bool>, order: Seq<int>) -> Seq<int>
    decreases parents.len() - k,
{
    if k >= parents.len() {
        order
    } else {
        let (after, chain) = walk(parents, k, placed);
        order_from(parents, k + 1, after, order + chain.reverse())
    }
}

/// The order of the notes, given the note each hangs from, in which standard
/// SUS lists them.
pub open spec fn parent_first_order(parents: Seq<Option<u32>>) -> Seq<int> {
    order_from(parents, 0, Seq::new(parents.len(), |i: int| false), Seq::empty())
}

/// The note `steps` links above note `j`, following the note each hangs from.
pub open spec fn ancestor(parents: Seq<Option<u32>>, j: int, steps: nat) -> Option<int>
    decreases steps,
{
    if steps == 0 {
        Some(j)
    } else {
        match ancestor(parents, j, (steps - 1) as nat) {
            Some(a) => parent_of(parents, a),
            None => None,
        }
    }
}

/// No note hangs, through the notes above it, from itself.
pub open spec fn acyclic(parents: Seq<Option<u32>>) -> bool {
    forall|j: int, steps: nat|
        0 <= j < parents.len() && steps > 0 ==> #[trigger] ancestor(parents, j, steps) != Some(j)
}

/// Every note of `order` is listed after the note it hangs from.
pub open spec fn parents_listed_first(parents: Seq<Option<u32>>, order: Seq<int>) -> bool {
    forall|a: int|
        0 <= a < order.len() ==> match parent_of(parents, #[trigger] order[a]) {
            Some(p) => exists|b: int| 0 <= b < a && order[b] == p,
            None => true,
        }
}

/// A walk places the notes it meets, none of them placed before and each met
/// once, beginning with `j`, each the note that the one before hangs from; it
/// stops at a note that hangs from none or from a note already placed.
proof fn lemma_walk(parents: Seq<Option<u32>>, j: int, placed: Seq<bool>)
    requires
        placed.len() == parents.len(),
    ensures
        ({
            let (after, chain) = walk(parents, j, placed);
            &&& after.len() == placed.len()
            &&& forall|x: int| 0 <= x < placed.len() ==> (#[trigger] after[x] <==> (placed[x] || chain.contains(x)))
            &&& chain.no_duplicates()
            &&& forall|m: int| 0 <= m < chain.len() ==> 0 <= #[trigger] chain[m] < placed.len() && !placed[chain[m]]
            &&& (0 <= j < placed.len() ==> after[j])
            &&& (chain.len() > 0 ==> chain[0] == j)
            &&& forall|m: int|
                0 <= m < chain.len() - 1 ==> parent_of(parents, #[trigger] chain[m]) == Some(chain[m + 1])
            &&& (chain.len() > 0 ==> match parent_of(parents, chain.last()) {
                Some(p) => placed[p] || chain.contains(p),
                None => true,
            })
        }),
    decreases unplaced(placed),
{
    if j < 0 || j >= placed.len() || placed[j] {
    } else {
        let marked = placed.update(j, true);
        lemma_place_one(placed, j);
        match parent_of(parents, j) {
            Some(p) => {
                lemma_walk(parents, p, marked);
                let (after, rest) = walk(parents, p, marked);
                let chain = seq![j] + rest;
                assert(walk(parents, j, placed) == (after, chain));
                assert forall|x: int| 0 <= x < placed.len() implies (#[trigger] after[x] <==> (placed[x]
                    || chain.contains(x))) by {
                    if rest.contains(x) {
                        let i = choose|i: int| 0 <= i < rest.len() && rest[i] == x;
                        assert(chain[i + 1] == x);
                    }
                    if chain.contains(x) && x != j {
                        let i = choose|i: int| 0 <= i < chain.len() && chain[i] == x;
                        assert(rest[i - 1] == x);
                    }
                    assert(chain[0] == j);
                }
                assert forall|m: int| 0 <= m < chain.len() implies 0 <= #[trigger] chain[m] < placed.len()
                    && !placed[chain[m]] by {
                    if m > 0 {
                        assert(chain[m] == rest[m - 1]);
                    }
                }
                assert forall|a: int, b: int|
                    0 <= a < chain.len() && 0 <= b < chain.len() && a != b implies chain[a] != chain[b] by {
                    if a > 0 {
                        assert(chain[a] == rest[a - 1]);
                    }
                    if b > 0 {
                        assert(chain[b] == rest[b - 1]);
                    }
                }
                assert forall|m: int| 0 <= m < chain.len() - 1 implies parent_of(
                    parents,
                    #[trigger] chain[m],
                ) == Some(chain[m + 1]) by {
                    assert(chain[m + 1] == rest[m]);
                    if m > 0 {
                        assert(chain[m] == rest[m - 1]);
                    }
                }
                if rest.len() > 0 {
                    assert(chain.last() == rest.last());
                    match parent_of(parents, rest.last()) {
                        Some(q) => {
                            if rest.contains(q) {
                                let i = choose|i: int| 0 <= i < rest.len() && rest[i] == q;
                                assert(chain[i + 1] == q);
                            }
                            if q == j {
                                assert(chain[0] == q);
                            }
                        },
                        None => {},
                    }
                } else {
                    assert(chain.last() == j);
                    assert(chain[0] == j);
                }
            },
            None => {
                let chain = seq![j];
                assert forall|x: int| 0 <= x < placed.len() implies (#[trigger] marked[x] <==> (placed[x]
                    || chain.contains(x))) by {
                    if x == j {
                        assert(chain[0] == x);
                    }
                }
            },
        }
    }
}

/// Going `b - a` links up from a note of a walk reaches the note met `b - a`
/// steps later.
proof fn lemma_chain_ancestor(parents: Seq<Option<u32>>, chain: Seq<int>, a: int, b: int)
    requires
        0 <= a <= b < chain.len(),
        forall|m: int| 0 <= m < chain.len() - 1 ==> parent_of(parents, #[trigger] chain[m]) == Some(chain[m + 1]),
    ensures
        ancestor(parents, chain[a], (b - a) as nat) == Some(chain[b]),
    decreases b - a,
{
    if b > a {
        lemma_chain_ancestor(parents, chain, a, b - 1);
        assert(parent_of(parents, chain[b - 1]) == Some(chain[b]));
    }
}

/// Building the order from note `k` on lists every note once, and, where no
/// note hangs from itself through others, keeps each note after the note it
/// hangs from.
proof fn lemma_order_from(parents: Seq<Option<u32>>, k: int, placed: Seq<bool>, order: Seq<int>)
    requires
        0 <= k <= parents.len(),
        placed.len() == parents.len(),
        forall|x: int| 0 <= x < parents.len() ==> (#[trigger] placed[x] <==> order.contains(x)),
        order.no_duplicates(),
        forall|a: int| 0 <= a < order.len() ==> 0 <= #[trigger] order[a] < parents.len(),
        forall|x: int| 0 <= x < k ==> #[trigger] placed[x],
        acyclic(parents) ==> parents_listed_first(parents, order),
    ensures
        ({
            let listed = order_from(parents, k, placed, order);
            &&& listed.no_duplicates()
            &&& forall|a: int| 0 <= a < listed.len() ==> 0 <= #[trigger] listed[a] < parents.len()
            &&& forall|x: int| 0 <= x < parents.len() ==> #[trigger] listed.contains(x)
            &&& acyclic(parents) ==> parents_listed_first(parents, listed)
        }),
    decreases parents.len() - k,
{
    let n = parents.len();
    if k >= n {
        assert forall|x: int| 0 <= x < n implies #[trigger] order.contains(x) by {
            assert(placed[x]);
        }
    } else {
        lemma_walk(parents, k, placed);
        let (after, chain) = walk(parents, k, placed);
        let rev = chain.reverse();
        let next = order + rev;
        let size = order.len();
        let len = chain.len();
        assert forall|i: int| 0 <= i < len implies #[trigger] rev[i] == chain[len - 1 - i] by {}
        assert forall|x: int| 0 <= x < n implies (#[trigger] after[x] <==> next.contains(x)) by {
            if order.contains(x) {
                let i = choose|i: int| 0 <= i < order.len() && order[i] == x;
                assert(next[i] == x);
            }
            if chain.contains(x) {
                let i = choose|i: int| 0 <= i < len && chain[i] == x;
                assert(next[size + len - 1 - i] == x);
            }
            if next.contains(x) {
                let i = choose|i: int| 0 <= i < next.len() && next[i] == x;
                if i < size {
                    assert(order[i] == x);
                } else {
                    assert(chain[len - 1 - (i - size)] == x);
                }
            }
        }
        assert forall|a: int, b: int|
            0 <= a < next.len() && 0 <= b < next.len() && a != b implies next[a] != next[b] by {
            if a >= size {
                assert(next[a] == chain[len - 1 - (a - size)]);
            }
            if b >= size {
                assert(next[b] == chain[len - 1 - (b - size)]);
            }
            if a < size && b >= size {
                assert(placed[order[a]]);
            }
            if b < size && a >= size {
                assert(placed[order[b]]);
            }
        }
        assert forall|a: int| 0 <= a < next.len() implies 0 <= #[trigger] next[a] < n by {
            if a >= size {
                assert(next[a] == chain[len - 1 - (a - size)]);
            }
        }
        assert forall|x: int| 0 <= x < k + 1 implies #[trigger] after[x] by {
            if x < k {
                assert(placed[x]);
            }
        }
        if acyclic(parents) {
            assert forall|a: int| 0 <= a < next.len() implies match parent_of(parents, #[trigger] next[a]) {
                Some(p) => exists|b: int| 0 <= b < a && next[b] == p,
                None => true,
            } by {
                if a < size {
                    assert(next[a] == order[a]);
                    match parent_of(parents, order[a]) {
                        Some(p) => {
                            let b = choose|b: int| 0 <= b < a && order[b] == p;
                            assert(next[b] == p);
                        },
                        None => {},
                    }
                } else {
                    let r = a - size;
                    let i = len - 1 - r;
                    assert(next[a] == chain[i]);
                    if i < len - 1 {
                        assert(parent_of(parents, chain[i]) == Some(chain[i + 1]));
                        assert(next[a - 1] == chain[i + 1]);
                    } else {
                        match parent_of(parents, chain.last()) {
                            Some(p) => {
                                if placed[p] {
                                    let b = choose|b: int| 0 <= b < order.len() && order[b] == p;
                                    assert(next[b] == p);
                                } else {
                                    let m = choose|m: int| 0 <= m < len && chain[m] == p;
                                    lemma_chain_ancestor(parents, chain, m, len - 1);
                                    assert(ancestor(parents, chain[m], (len - m) as nat) == Some(chain[m]));
                                    assert(false);
                                }
                            },
                            None => {},
                        }
                    }
                }
            }
        }
        lemma_order_from(parents, k + 1, after, next);
    }
}

/// The order lists every note of the chart exactly once.
pub proof fn lemma_order_lists_each_note_once(parents: Seq<Option<u32>>)
    ensures
        ({
            let order = parent_first_order(parents);
            &&& order.no_duplicates()
            &&& forall|a: int| 0 <= a < order.len() ==> 0 <= #[trigger] order[a] < parents.len()
            &&& forall|x: int| 0 <= x < parents.len() ==> #[trigger] order.contains(x)
        }),
{
    let placed = Seq::new(parents.len(), |i: int| false);
    lemma_order_from(parents, 0, placed, Seq::empty());
}

/// Where no note hangs, through the notes above it, from itself, the order
/// lists every note after the note it hangs from.
pub proof fn lemma_parents_listed_first(parents: Seq<Option<u32>>)
    requires
        acyclic(parents),
    ensures
        parents_listed_first(parents, parent_first_order(parents)),
{
    let placed = Seq::new(parents.len(), |i: int| false);
    lemma_order_from(parents, 0, placed, Seq::empty());
}

/// The indices as integers.
pub open spec fn indices(ids: Seq<u32>) -> Seq<int> {
    ids.map_values(|id: u32| id as int)
}

/// The note that note `j` hangs from, if it is a note of the chart.
fn parent_index(parents: &Vec<Option<u32>>, j: usize) -> (parent: Option<usize>)
    requires
        j < parents.len(),
    ensures
        match parent_of(parents@, j as int) {
            Some(p) => parent == Some(p as usize),
            None => parent is None,
        },
{
    match parents[j] {
        Some(p) => if (p as usize) < parents.len() {
            Some(p as usize)
        } else {
            None
        },
        None => None,
    }
}

/// Orders notes, given the index of the note each hangs from, so that every
/// note follows the notes it hangs from: each note in index order, after the
/// notes above it that are not listed yet.
pub fn standard_note_order(parents: &Vec<Option<u32>>) -> (order: Vec<u32>)
    requires
        parents.len() <= 0x1_0000_0000,
    ensures
        indices(order@) == parent_first_order(parents@),
{
    let n = parents.len();
    let mut placed: Vec<bool> = Vec::new();
    let mut t: usize = 0;
    while t < n
        invariant
            t <= n,
            placed@ == Seq::new(t as nat, |i: int| false),
        decreases n - t,
    {
        placed.push(false);
        t += 1;
        proof {
            assert(placed@ =~= Seq::new(t as nat, |i: int| false));
        }
    }
    let mut order: Vec<u32> = Vec::new();
    let mut k: usize = 0;
    proof {
        assert(indices(order@) =~= Seq::<int>::empty());
    }
    while k < n
        invariant
            k <= n,
            n == parents.len(),
            n <= 0x1_0000_0000,
            placed@.len() == n,
            order_from(parents@, k as int, placed@, indices(order@)) == parent_first_order(parents@),
        decreases n - k,
    {
        let ghost start = placed@;
        let ghost before = indices(order@);
        let ghost after = walk(parents@, k as int, start).0;
        let ghost met = walk(parents@, k as int, start).1;
        let mut chain: Vec<u32> = Vec::new();
        let mut j: usize = k;
        let mut walking = true;
        proof {
            assert(indices(chain@) + met =~= met);
        }
        while walking
            invariant
                n == parents.len(),
                n <= 0x1_0000_0000,
                placed@.len() == n,
                j < n,
                walking ==> walk(parents@, j as int, placed@).0 == after,
                walking ==> indices(chain@) + walk(parents@, j as int, placed@).1 == met,
                !walking ==> placed@ == after && indices(chain@) == met,
            decreases unplaced(placed@) + if walking {
                1nat
            } else {
                0nat
            },
        {
            if placed[j] {
                walking = false;
                proof {
                    assert(indices(chain@) + Seq::<int>::empty() =~= indices(chain@));
                }
            } else {
                let ghost previous = indices(chain@);
                proof {
                    lemma_place_one(placed@, j as int);
                }
                placed.set(j, true);
                chain.push(j as u32);
                proof {
                    assert(indices(chain@) =~= previous + seq![j as int]);
                }
                match parent_index(parents, j) {
                    Some(p) => {
                        proof {
                            let rest = walk(parents@, p as int, placed@).1;
                            assert(previous + seq![j as int] + rest =~= previous + (seq![j as int] + rest));
                        }
                        j = p;
                    },
                    None => {
                        walking = false;
                    },
                }
            }
        }
        let mut m: usize = chain.len();
        proof {
            assert(met.subrange(m as int, met.len() as int).reverse() =~= Seq::<int>::empty());
            assert(before + Seq::<int>::empty() =~= before);
        }
        while m > 0
            invariant
                m <= chain@.len(),
                indices(chain@) == met,
                indices(order@) == before + met.subrange(m as int, met.len() as int).reverse(),
            decreases m,
        {
            m -= 1;
            let ghost shorter = met.subrange(m as int + 1, met.len() as int).reverse();
            let ghost listed = order@;
            order.push(chain[m]);
            proof {
                assert(met[m as int] == chain@[m as int] as int);
                assert(indices(order@) =~= indices(listed).push(chain@[m as int] as int));
                assert(met.subrange(m as int, met.len() as int).reverse() =~= shorter.push(met[m as int]));
                assert(indices(order@) =~= before + shorter.push(met[m as int]));
            }
        }
        proof {
            assert(met.subrange(0, met.len() as int) =~= met);
        }
        k += 1;
    }
    order
}

} // verus!
