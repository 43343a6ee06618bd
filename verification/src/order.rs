use vstd::prelude::*;

verus! {

/// Result of comparing two sort keys.
#[derive(Clone, Copy, Debug, PartialEq, Eq, Structural)]
pub enum KeyOrder {
    Less,
    Equal,
    Greater,
}

/// Lexicographic comparison of two keys (a proper prefix comes first).
pub open spec fn lex_order(a: Seq<u64>, b: Seq<u64>) -> KeyOrder
    decreases a.len(),
{
    if a.len() == 0 {
        if b.len() == 0 { KeyOrder::Equal } else { KeyOrder::Less }
    } else if b.len() == 0 {
        KeyOrder::Greater
    } else if a[0] < b[0] {
        KeyOrder::Less
    } else if a[0] > b[0] {
        KeyOrder::Greater
    } else {
        lex_order(a.drop_first(), b.drop_first())
    }
}

/// Comparison in the requested direction: descending order compares the
/// keys the other way round.
pub open spec fn directed_order(a: Seq<u64>, b: Seq<u64>, desc: bool) -> KeyOrder {
    if desc { lex_order(b, a) } else { lex_order(a, b) }
}

/// `order` lists positions into `keys` sorted in the requested direction,
/// and positions whose keys compare equal keep their relative order.
pub open spec fn stably_sorted(order: Seq<usize>, keys: Seq<Seq<u64>>, desc: bool) -> bool {
    &&& forall|i: int| 0 <= i < order.len() ==> #[trigger] order[i] < keys.len()
    &&& forall|i: int, j: int|
        0 <= i < j < order.len() ==> directed_order(
            keys[#[trigger] order[i] as int],
            keys[#[trigger] order[j] as int],
            desc,
        ) != KeyOrder::Greater
    &&& forall|i: int, j: int|
        0 <= i < j < order.len() && directed_order(
            keys[#[trigger] order[i] as int],
            keys[#[trigger] order[j] as int],
            desc,
        ) == KeyOrder::Equal ==> order[i] < order[j]
}

/// Swapping the arguments swaps `Less` and `Greater`; `Equal` means equal keys.
pub proof fn lemma_lex_antisymmetric(a: Seq<u64>, b: Seq<u64>)
    ensures
        (lex_order(a, b) == KeyOrder::Greater) == (lex_order(b, a) == KeyOrder::Less),
        (lex_order(a, b) == KeyOrder::Equal) == (a == b),
    decreases a.len(),
{
    if a.len() > 0 && b.len() > 0 && a[0] == b[0] {
        lemma_lex_antisymmetric(a.drop_first(), b.drop_first());
        if lex_order(a.drop_first(), b.drop_first()) == KeyOrder::Equal {
            let (da, db) = (a.drop_first(), b.drop_first());
            assert(da == db);
            assert forall|i: int| 0 <= i < a.len() implies a[i] == b[i] by {
                if i > 0 {
                    assert(a[i] == da[i - 1]);
                    assert(b[i] == db[i - 1]);
                }
            }
            assert(a =~= b);
        }
    }
    if a.len() == 0 && b.len() == 0 {
        assert(a =~= b);
    }
    if a == b {
        lemma_lex_reflexive(a);
    }
}

/// Every key compares equal to itself.
pub proof fn lemma_lex_reflexive(a: Seq<u64>)
    ensures
        lex_order(a, a) == KeyOrder::Equal,
    decreases a.len(),
{
    if a.len() > 0 {
        lemma_lex_reflexive(a.drop_first());
    }
}

/// "Not after" is transitive.
pub proof fn lemma_lex_transitive(a: Seq<u64>, b: Seq<u64>, c: Seq<u64>)
    requires
        lex_order(a, b) != KeyOrder::Greater,
        lex_order(b, c) != KeyOrder::Greater,
    ensures
        lex_order(a, c) != KeyOrder::Greater,
    decreases a.len(),
{
    if a.len() > 0 && b.len() > 0 && c.len() > 0 && a[0] == b[0] && b[0] == c[0] {
        lemma_lex_transitive(a.drop_first(), b.drop_first(), c.drop_first());
    }
}

/// "Strictly before" is transitive.
pub proof fn lemma_lex_strict_transitive(a: Seq<u64>, b: Seq<u64>, c: Seq<u64>)
    requires
        lex_order(a, b) == KeyOrder::Less,
        lex_order(b, c) != KeyOrder::Greater,
    ensures
        lex_order(a, c) == KeyOrder::Less,
    decreases a.len(),
{
    if a.len() > 0 && b.len() > 0 && c.len() > 0 && a[0] == b[0] && b[0] == c[0] {
        lemma_lex_strict_transitive(a.drop_first(), b.drop_first(), c.drop_first());
    }
}

/// The directed comparison inherits antisymmetry and transitivity.
pub proof fn lemma_directed_laws(a: Seq<u64>, b: Seq<u64>, c: Seq<u64>, desc: bool)
    ensures
        (directed_order(a, b, desc) == KeyOrder::Greater) == (directed_order(b, a, desc) == KeyOrder::Less),
        (directed_order(a, b, desc) == KeyOrder::Equal) == (a == b),
        directed_order(a, b, desc) != KeyOrder::Greater && directed_order(b, c, desc) != KeyOrder::Greater
            ==> directed_order(a, c, desc) != KeyOrder::Greater,
{
    lemma_lex_antisymmetric(a, b);
    lemma_lex_antisymmetric(b, a);
    if directed_order(a, b, desc) != KeyOrder::Greater && directed_order(b, c, desc) != KeyOrder::Greater {
        if desc {
            lemma_lex_transitive(c, b, a);
        } else {
            lemma_lex_transitive(a, b, c);
        }
    }
}

/// Compares two keys lexicographically.
pub fn compare_keys(a: &Vec<u64>, b: &Vec<u64>) -> (r: KeyOrder)
    ensures
        r == lex_order(a@, b@),
{
    let n = a.len();
    let m = b.len();
    let mut i: usize = 0;
    assert(a@.skip(0) =~= a@);
    assert(b@.skip(0) =~= b@);
    while i < n && i < m && a[i] == b[i]
        invariant
            n == a@.len(),
            m == b@.len(),
            i <= n,
            i <= m,
            lex_order(a@, b@) == lex_order(a@.skip(i as int), b@.skip(i as int)),
        decreases n - i,
    {
        assert(a@.skip(i as int).drop_first() =~= a@.skip(i + 1));
        assert(b@.skip(i as int).drop_first() =~= b@.skip(i + 1));
        i = i + 1;
    }
    if i == n {
        if i == m { KeyOrder::Equal } else { KeyOrder::Less }
    } else if i == m {
        KeyOrder::Greater
    } else if a[i] < b[i] {
        KeyOrder::Less
    } else {
        KeyOrder::Greater
    }
}

/// Compares two keys in the requested direction.
pub fn compare_directed(a: &Vec<u64>, b: &Vec<u64>, desc: bool) -> (r: KeyOrder)
    ensures
        r == directed_order(a@, b@, desc),
{
    if desc {
        compare_keys(b, a)
    } else {
        compare_keys(a, b)
    }
}

/// The keys of a list of key vectors, as sequences.
pub open spec fn key_views(keys: Seq<Vec<u64>>) -> Seq<Seq<u64>> {
    keys.map_values(|k: Vec<u64>| k@)
}

/// Sorts the given positions (each below `keys.len()`, increasing) by their
/// keys in the requested direction, keeping the given order among equal keys,
/// as a stable sort does.
pub(crate) fn sort_positions_within(positions: &Vec<usize>, keys: &Vec<Vec<u64>>, desc: bool) -> (order:
    Vec<usize>)
    requires
        forall|i: int| 0 <= i < positions@.len() ==> #[trigger] positions@[i] < keys@.len(),
        forall|i: int, j: int|
            0 <= i < j < positions@.len() ==> #[trigger] positions@[i] < #[trigger] positions@[j],
    ensures
        order@.to_multiset() == positions@.to_multiset(),
        order@.len() == positions@.len(),
        stably_sorted(order@, key_views(keys@), desc),
{
    let ghost kv = key_views(keys@);
    let mut order: Vec<usize> = Vec::new();
    let n = positions.len();
    proof {
        assert(positions@.subrange(0, 0) =~= Seq::<usize>::empty());
    }
    for t in 0..n
        invariant
            n == positions@.len(),
            kv == key_views(keys@),
            kv.len() == keys@.len(),
            forall|i: int| 0 <= i < positions@.len() ==> #[trigger] positions@[i] < keys@.len(),
            forall|i: int, j: int|
                0 <= i < j < positions@.len() ==> #[trigger] positions@[i] < #[trigger] positions@[j],
            order@.len() == t,
            order@.to_multiset() == positions@.subrange(0, t as int).to_multiset(),
            forall|i: int| 0 <= i < order@.len() ==> #[trigger] order@[i] < keys@.len(),
            t > 0 ==> forall|i: int| 0 <= i < order@.len() ==> #[trigger] order@[i] <= positions@[t - 1],
            stably_sorted(order@, kv, desc),
    {
        let x = positions[t];
        proof {
            assert forall|i: int| 0 <= i < order@.len() implies #[trigger] order@[i] < x by {
                assert(positions@.subrange(0, t as int).to_multiset().count(order@[i]) > 0) by {
                    assert(order@.to_multiset().count(order@[i]) > 0) by {
                        order@.to_multiset_ensures();
                        assert(order@.contains(order@[i]));
                    }
                }
                positions@.subrange(0, t as int).to_multiset_ensures();
                let k = choose|k: int| 0 <= k < t && positions@.subrange(0, t as int)[k] == order@[i];
                assert(positions@[k] == order@[i]);
            }
        }
        let mut p = order.len();
        while p > 0 && compare_directed(&keys[order[p - 1]], &keys[x], desc) == KeyOrder::Greater
            invariant
                p <= order@.len(),
                x < keys@.len(),
                kv == key_views(keys@),
                forall|i: int| 0 <= i < order@.len() ==> #[trigger] order@[i] < keys@.len(),
                forall|i: int| p <= i < order@.len() ==> directed_order(
                    kv[#[trigger] order@[i] as int],
                    kv[x as int],
                    desc,
                ) == KeyOrder::Greater,
            decreases p,
        {
            p = p - 1;
        }
        proof {
            let k = kv[x as int];
            assert forall|i: int| 0 <= i < p implies directed_order(
                kv[#[trigger] order@[i] as int],
                k,
                desc,
            ) != KeyOrder::Greater by {
                if i < p - 1 {
                    lemma_directed_laws(kv[order@[i] as int], kv[order@[p - 1] as int], k, desc);
                }
            }
        }
        let ghost old_order = order@;
        order.insert(p, x);
        proof {
            let k = kv[x as int];
            assert(order@ == old_order.insert(p as int, x));
            assert forall|i: int, j: int|
                0 <= i < j < order@.len() implies directed_order(
                kv[#[trigger] order@[i] as int],
                kv[#[trigger] order@[j] as int],
                desc,
            ) != KeyOrder::Greater && (directed_order(kv[order@[i] as int], kv[order@[j] as int], desc)
                == KeyOrder::Equal ==> order@[i] < order@[j]) by {
                if j < p {
                    assert(order@[i] == old_order[i] && order@[j] == old_order[j]);
                } else if j == p {
                    assert(order@[j] == x);
                    assert(order@[i] == old_order[i]);
                } else if i == p {
                    assert(order@[i] == x);
                    assert(order@[j] == old_order[j - 1]);
                    lemma_directed_laws(kv[old_order[j - 1] as int], k, k, desc);
                    lemma_directed_laws(k, kv[old_order[j - 1] as int], k, desc);
                } else if i < p {
                    assert(order@[i] == old_order[i] && order@[j] == old_order[j - 1]);
                } else {
                    assert(order@[i] == old_order[i - 1] && order@[j] == old_order[j - 1]);
                }
            }
            assert(positions@.subrange(0, t + 1) =~= positions@.subrange(0, t as int).push(x));
            old_order.insert_ensures(p as int, x);
            vstd::seq_lib::to_multiset_insert(old_order, p as int, x);
            vstd::seq_lib::to_multiset_build(positions@.subrange(0, t as int), x);
            assert forall|i: int| 0 <= i < order@.len() implies #[trigger] order@[i] <= positions@[t as int] by {
                if i != p {
                    if i < p { assert(order@[i] == old_order[i]); } else { assert(order@[i] == old_order[i - 1]); }
                }
            }
        }
    }
    proof {
        assert(positions@.subrange(0, n as int) =~= positions@);
    }
    order
}

/// All positions `0, 1, ..., n - 1`, in order.
pub open spec fn all_positions(n: nat) -> Seq<usize> {
    Seq::new(n, |i: int| i as usize)
}

/// Stable sort: lists every position into `keys` once, ordered by key in the
/// requested direction, positions with equal keys in their original order.
pub fn stable_sort_positions(keys: &Vec<Vec<u64>>, desc: bool) -> (order: Vec<usize>)
    ensures
        order@.to_multiset() == all_positions(keys@.len()).to_multiset(),
        order@.len() == keys@.len(),
        stably_sorted(order@, key_views(keys@), desc),
{
    let n = keys.len();
    let mut positions: Vec<usize> = Vec::new();
    for i in 0..n
        invariant
            n == keys@.len(),
            positions@ == all_positions(i as nat),
    {
        positions.push(i);
        assert(positions@ =~= all_positions((i + 1) as nat));
    }
    sort_positions_within(&positions, keys, desc)
}

/// Position `a` is listed before position `b`: its key comes first in the
/// requested direction, or the keys tie and `a` is the smaller position.
pub open spec fn listed_before(keys: Seq<Seq<u64>>, desc: bool, a: usize, b: usize) -> bool {
    directed_order(keys[a as int], keys[b as int], desc) == KeyOrder::Less
        || (directed_order(keys[a as int], keys[b as int], desc) == KeyOrder::Equal && a < b)
}

proof fn lemma_listed_before_asymmetric(keys: Seq<Seq<u64>>, desc: bool, a: usize, b: usize)
    requires
        listed_before(keys, desc, a, b),
    ensures
        !listed_before(keys, desc, b, a),
{
    lemma_directed_laws(keys[a as int], keys[b as int], keys[b as int], desc);
    lemma_directed_laws(keys[b as int], keys[a as int], keys[a as int], desc);
}

proof fn lemma_sorted_means_listed_before(order: Seq<usize>, keys: Seq<Seq<u64>>, desc: bool, i: int, j: int)
    requires
        stably_sorted(order, keys, desc),
        order.no_duplicates(),
        0 <= i < j < order.len(),
    ensures
        listed_before(keys, desc, order[i], order[j]),
{
    assert(directed_order(keys[order[i] as int], keys[order[j] as int], desc) != KeyOrder::Greater);
    assert(order[i] != order[j]);
}

/// A stable sort has only one possible outcome: two lists, each holding the
/// same positions once and each stably sorted for the same keys and
/// direction, are equal.
pub proof fn lemma_stable_order_unique(o1: Seq<usize>, o2: Seq<usize>, keys: Seq<Seq<u64>>, desc: bool)
    requires
        stably_sorted(o1, keys, desc),
        stably_sorted(o2, keys, desc),
        o1.no_duplicates(),
        o2.no_duplicates(),
        forall|x: usize| o1.contains(x) <==> o2.contains(x),
    ensures
        o1 == o2,
    decreases o1.len(),
{
    if o1.len() == 0 {
        if o2.len() > 0 {
            assert(o2.contains(o2[0]));
        }
        assert(o1 =~= o2);
    } else {
        assert(o1.contains(o1[0]));
        assert(o2.len() > 0);
        assert(o2.contains(o2[0]));
        if o1[0] != o2[0] {
            let k = choose|k: int| 0 <= k < o1.len() && o1[k] == o2[0];
            let m = choose|m: int| 0 <= m < o2.len() && o2[m] == o1[0];
            assert(k > 0);
            assert(m > 0);
            lemma_sorted_means_listed_before(o1, keys, desc, 0, k);
            lemma_sorted_means_listed_before(o2, keys, desc, 0, m);
            lemma_listed_before_asymmetric(keys, desc, o1[0], o2[0]);
        }
        let t1 = o1.drop_first();
        let t2 = o2.drop_first();
        assert forall|x: usize| t1.contains(x) <==> t2.contains(x) by {
            if t1.contains(x) {
                let p = choose|p: int| 0 <= p < t1.len() && t1[p] == x;
                assert(o1[p + 1] == x);
                assert(x != o1[0]);
                assert(o1.contains(x));
                let q = choose|q: int| 0 <= q < o2.len() && o2[q] == x;
                assert(q != 0);
                assert(t2[q - 1] == x);
            }
            if t2.contains(x) {
                let p = choose|p: int| 0 <= p < t2.len() && t2[p] == x;
                assert(o2[p + 1] == x);
                assert(x != o2[0]);
                assert(o2.contains(x));
                let q = choose|q: int| 0 <= q < o1.len() && o1[q] == x;
                assert(q != 0);
                assert(t1[q - 1] == x);
            }
        }
        assert(stably_sorted(t1, keys, desc)) by {
            assert forall|i: int, j: int| 0 <= i < j < t1.len() implies directed_order(
                keys[#[trigger] t1[i] as int],
                keys[#[trigger] t1[j] as int],
                desc,
            ) != KeyOrder::Greater by {
                assert(t1[i] == o1[i + 1] && t1[j] == o1[j + 1]);
            }
            assert forall|i: int, j: int| 0 <= i < j < t1.len() && directed_order(
                keys[#[trigger] t1[i] as int],
                keys[#[trigger] t1[j] as int],
                desc,
            ) == KeyOrder::Equal implies t1[i] < t1[j] by {
                assert(t1[i] == o1[i + 1] && t1[j] == o1[j + 1]);
            }
        }
        assert(stably_sorted(t2, keys, desc)) by {
            assert forall|i: int, j: int| 0 <= i < j < t2.len() implies directed_order(
                keys[#[trigger] t2[i] as int],
                keys[#[trigger] t2[j] as int],
                desc,
            ) != KeyOrder::Greater by {
                assert(t2[i] == o2[i + 1] && t2[j] == o2[j + 1]);
            }
            assert forall|i: int, j: int| 0 <= i < j < t2.len() && directed_order(
                keys[#[trigger] t2[i] as int],
                keys[#[trigger] t2[j] as int],
                desc,
            ) == KeyOrder::Equal implies t2[i] < t2[j] by {
                assert(t2[i] == o2[i + 1] && t2[j] == o2[j + 1]);
            }
        }
        lemma_stable_order_unique(t1, t2, keys, desc);
        assert(o1 =~= seq![o1[0]] + t1);
        assert(o2 =~= seq![o2[0]] + t2);
    }
}

/// Switching the direction reverses the list when no two listed positions
/// share a key: the descending list is the ascending one read backwards.
pub proof fn lemma_descending_reverses_ascending(asc: Seq<usize>, desc: Seq<usize>, keys: Seq<Seq<u64>>)
    requires
        stably_sorted(asc, keys, false),
        stably_sorted(desc, keys, true),
        asc.no_duplicates(),
        desc.no_duplicates(),
        forall|x: usize| asc.contains(x) <==> desc.contains(x),
        forall|i: int, j: int| 0 <= i < j < asc.len() ==> keys[#[trigger] asc[i] as int] != keys[#[trigger] asc[j] as int],
    ensures
        desc == asc.reverse(),
{
    let r = asc.reverse();
    let n = asc.len();
    assert forall|i: int| 0 <= i < r.len() implies #[trigger] r[i] < keys.len() by {
        assert(r[i] == asc[n - 1 - i]);
    }
    assert forall|i: int, j: int| 0 <= i < j < r.len() implies directed_order(
        keys[#[trigger] r[i] as int],
        keys[#[trigger] r[j] as int],
        true,
    ) == KeyOrder::Less by {
        assert(r[i] == asc[n - 1 - i] && r[j] == asc[n - 1 - j]);
        let (ka, kb) = (keys[asc[n - 1 - j] as int], keys[asc[n - 1 - i] as int]);
        assert(lex_order(ka, kb) != KeyOrder::Greater);
        lemma_lex_antisymmetric(ka, kb);
        assert(ka != kb);
    }
    assert(r.no_duplicates()) by {
        assert forall|i: int, j: int| 0 <= i < r.len() && 0 <= j < r.len() && i != j implies r[i] != r[j] by {
            assert(r[i] == asc[n - 1 - i] && r[j] == asc[n - 1 - j]);
        }
    }
    assert forall|x: usize| r.contains(x) <==> desc.contains(x) by {
        if r.contains(x) {
            let p = choose|p: int| 0 <= p < r.len() && r[p] == x;
            assert(asc[n - 1 - p] == x);
        }
        if asc.contains(x) {
            let p = choose|p: int| 0 <= p < asc.len() && asc[p] == x;
            assert(r[n - 1 - p] == x);
        }
    }
    lemma_stable_order_unique(r, desc, keys, true);
}

} // verus!
