//! Stable rankings: sequences of indices ordered by a strict order, and the
//! fact that such an ordering of a given set of indices is unique.

use vstd::prelude::*;

verus! {

/// Every earlier element of `s` comes strictly before every later one.
pub open spec fn strictly_sorted(s: Seq<int>, lt: spec_fn(int, int) -> bool) -> bool {
    forall|i: int, j: int| 0 <= i < j < s.len() ==> #[trigger] lt(s[i], s[j])
}

/// `lt` is irreflexive and transitive on the elements of `s`.
pub open spec fn strict_order_on(s: Seq<int>, lt: spec_fn(int, int) -> bool) -> bool {
    &&& forall|x: int| s.contains(x) ==> !lt(x, x)
    &&& forall|x: int, y: int, z: int|
        s.contains(x) && s.contains(y) && s.contains(z) && #[trigger] lt(x, y) && #[trigger] lt(
            y,
            z,
        ) ==> lt(x, z)
}

/// `a` and `b` hold the same elements.
pub open spec fn same_elements(a: Seq<int>, b: Seq<int>) -> bool {
    forall|x: int| a.contains(x) <==> b.contains(x)
}

proof fn lemma_sorted_first_is_least(s: Seq<int>, lt: spec_fn(int, int) -> bool, x: int)
    requires
        strictly_sorted(s, lt),
        s.len() > 0,
        s.contains(x),
        x != s[0],
    ensures
        lt(s[0], x),
{
    let j = choose|j: int| 0 <= j < s.len() && s[j] == x;
    assert(j != 0);
    assert(lt(s[0], s[j]));
}

/// Two sequences that hold the same elements and are both strictly sorted by
/// one strict order are equal: a ranking is determined by what it ranks.
pub proof fn lemma_sorted_unique(a: Seq<int>, b: Seq<int>, lt: spec_fn(int, int) -> bool)
    requires
        strictly_sorted(a, lt),
        strictly_sorted(b, lt),
        same_elements(a, b),
        strict_order_on(a, lt),
    ensures
        a == b,
    decreases a.len(),
{
    if a.len() == 0 {
        if b.len() > 0 {
            assert(b.contains(b[0]));
            assert(a.contains(b[0]));
        }
        assert(a =~= b);
    } else {
        assert(a.contains(a[0]));
        assert(b.len() > 0);
        if a[0] != b[0] {
            assert(b.contains(b[0]));
            lemma_sorted_first_is_least(a, lt, b[0]);
            lemma_sorted_first_is_least(b, lt, a[0]);
            assert(lt(a[0], a[0]));
        }
        let a1 = a.drop_first();
        let b1 = b.drop_first();
        assert forall|x: int| a1.contains(x) implies b1.contains(x) by {
            let i = choose|i: int| 0 <= i < a1.len() && a1[i] == x;
            assert(lt(a[0], a[i + 1]));
            assert(x != a[0]);
            assert(b.contains(x));
            let k = choose|k: int| 0 <= k < b.len() && b[k] == x;
            assert(k != 0);
            assert(b1[k - 1] == x);
        }
        assert forall|x: int| b1.contains(x) implies a1.contains(x) by {
            let i = choose|i: int| 0 <= i < b1.len() && b1[i] == x;
            assert(lt(b[0], b[i + 1]));
            assert(x != b[0]);
            assert(a.contains(x));
            let k = choose|k: int| 0 <= k < a.len() && a[k] == x;
            if k == 0 {
                assert(lt(x, x));
                assert(a.contains(x));
            }
            assert(a1[k - 1] == x);
        }
        assert forall|x: int| a1.contains(x) implies a.contains(x) by {
            let i = choose|i: int| 0 <= i < a1.len() && a1[i] == x;
            assert(a[i + 1] == x);
        }
        lemma_sorted_unique(a1, b1, lt);
        assert(a.len() == b.len());
        assert forall|i: int| 0 <= i < a.len() implies a[i] == b[i] by {
            if i > 0 {
                assert(a[i] == a1[i - 1]);
                assert(b[i] == b1[i - 1]);
            }
        }
        assert(a =~= b);
    }
}

/// `a` comes strictly before `b` in lexicographic order of code points, the
/// order in which `String`'s `Ord` compares (UTF-8 bytes order as code points do).
pub open spec fn lex_lt(a: Seq<char>, b: Seq<char>) -> bool
    decreases a.len(),
{
    if a.len() == 0 {
        b.len() > 0
    } else if b.len() == 0 {
        false
    } else if a[0] < b[0] {
        true
    } else if a[0] == b[0] {
        lex_lt(a.drop_first(), b.drop_first())
    } else {
        false
    }
}

proof fn lemma_cons_eq(a: Seq<char>, b: Seq<char>)
    requires
        a.len() > 0,
        b.len() > 0,
        a[0] == b[0],
        a.drop_first() == b.drop_first(),
    ensures
        a == b,
{
    assert(a.len() == a.drop_first().len() + 1);
    assert(b.len() == b.drop_first().len() + 1);
    assert forall|i: int| 0 <= i < a.len() implies a[i] == b[i] by {
        if i > 0 {
            assert(a[i] == a.drop_first()[i - 1]);
            assert(b[i] == b.drop_first()[i - 1]);
        }
    }
    assert(a =~= b);
}

/// Lexicographic order is a strict total order.
pub proof fn lemma_lex_order(a: Seq<char>, b: Seq<char>, c: Seq<char>)
    ensures
        !lex_lt(a, a),
        lex_lt(a, b) ==> !lex_lt(b, a),
        lex_lt(a, b) && lex_lt(b, c) ==> lex_lt(a, c),
        a != b ==> lex_lt(a, b) || lex_lt(b, a),
    decreases a.len(),
{
    if a.len() > 0 && b.len() > 0 && c.len() > 0 {
        lemma_lex_order(a.drop_first(), b.drop_first(), c.drop_first());
        if a[0] == b[0] && a.drop_first() == b.drop_first() {
            lemma_cons_eq(a, b);
        }
    } else if a.len() > 0 && b.len() > 0 {
        lemma_lex_order(a.drop_first(), b.drop_first(), b.drop_first());
        if a[0] == b[0] && a.drop_first() == b.drop_first() {
            lemma_cons_eq(a, b);
        }
    } else if a.len() > 0 {
        lemma_lex_order(a.drop_first(), a.drop_first(), a.drop_first());
    } else if b.len() == 0 {
        assert(a =~= b);
    }
}

/// Whether `a` comes strictly before `b` lexicographically.
pub fn chars_lt(a: &[char], b: &[char]) -> (r: bool)
    ensures
        r == lex_lt(a@, b@),
{
    let mut i: usize = 0;
    assert(a@.skip(0) =~= a@);
    assert(b@.skip(0) =~= b@);
    while i < a.len() && i < b.len() && a[i] == b[i]
        invariant
            i <= a@.len(),
            i <= b@.len(),
            a@.take(i as int) == b@.take(i as int),
            lex_lt(a@, b@) == lex_lt(a@.skip(i as int), b@.skip(i as int)),
        decreases a@.len() - i,
    {
        proof {
            let sa = a@.skip(i as int);
            let sb = b@.skip(i as int);
            assert(sa.drop_first() =~= a@.skip(i + 1));
            assert(sb.drop_first() =~= b@.skip(i + 1));
            assert(a@.take(i + 1) =~= a@.take(i as int).push(a@[i as int]));
            assert(b@.take(i + 1) =~= b@.take(i as int).push(b@[i as int]));
        }
        i = i + 1;
    }
    let ghost sa = a@.skip(i as int);
    let ghost sb = b@.skip(i as int);
    if i == a.len() {
        assert(sa.len() == 0);
        i < b.len()
    } else if i == b.len() {
        false
    } else {
        a[i] < b[i]
    }
}

/// Pair `p` ranks before pair `q` when ordering by key, ties by position.
pub open spec fn key_pair_lt(p: (Seq<char>, int), q: (Seq<char>, int)) -> bool {
    lex_lt(p.0, q.0) || (p.0 == q.0 && p.1 < q.1)
}

/// Index `i` ranks before index `j` in the stable ascending order of `keys`.
pub open spec fn key_rank_lt(keys: Seq<Seq<char>>) -> spec_fn(int, int) -> bool {
    |i: int, j: int| key_pair_lt((keys[i], i), (keys[j], j))
}

/// `order` is a permutation of `0..keys.len()` sorted stably by ascending key.
pub open spec fn is_key_order(keys: Seq<Seq<char>>, order: Seq<int>) -> bool {
    &&& strictly_sorted(order, key_rank_lt(keys))
    &&& forall|x: int| #[trigger] order.contains(x) <==> 0 <= x < keys.len()
}

/// There is only one stable ascending order of a list of keys.
pub proof fn lemma_key_order_unique(keys: Seq<Seq<char>>, a: Seq<int>, b: Seq<int>)
    requires
        is_key_order(keys, a),
        is_key_order(keys, b),
    ensures
        a == b,
{
    let lt = key_rank_lt(keys);
    assert forall|x: int, y: int, z: int|
        a.contains(x) && a.contains(y) && a.contains(z) && #[trigger] lt(x, y) && #[trigger] lt(
            y,
            z,
        ) implies lt(x, z) by {
        lemma_lex_order(keys[x], keys[y], keys[z]);
    }
    assert forall|x: int| a.contains(x) implies !lt(x, x) by {
        lemma_lex_order(keys[x], keys[x], keys[x]);
    }
    lemma_sorted_unique(a, b, lt);
}

proof fn lemma_key_pair_trans(p: (Seq<char>, int), q: (Seq<char>, int), r: (Seq<char>, int))
    requires
        key_pair_lt(p, q),
        key_pair_lt(q, r),
    ensures
        key_pair_lt(p, r),
{
    lemma_lex_order(p.0, q.0, r.0);
}

/// The positions of `keys`, sorted stably by ascending key.
pub fn order_by_key(keys: &Vec<Vec<char>>) -> (order: Vec<usize>)
    ensures
        is_key_order(keys@.map_values(|k: Vec<char>| k@), order@.map_values(|i: usize| i as int)),
{
    let ghost kv = keys@.map_values(|k: Vec<char>| k@);
    let mut order: Vec<usize> = Vec::new();
    let mut m: usize = 0;
    while m < keys.len()
        invariant
            m <= keys@.len(),
            kv == keys@.map_values(|k: Vec<char>| k@),
            forall|a: int, b: int|
                0 <= a < b < order@.len() ==> key_pair_lt(
                    (kv[order@[a] as int], order@[a] as int),
                    (kv[order@[b] as int], order@[b] as int),
                ),
            forall|a: int| 0 <= a < order@.len() ==> #[trigger] order@[a] < m,
            forall|x: int| 0 <= x < m ==> #[trigger] order@.contains(x as usize),
            order@.len() == m,
        decreases keys@.len() - m,
    {
        let mut j: usize = order.len();
        while j > 0 && chars_lt(&keys[m], &keys[order[j - 1]])
            invariant
                j <= order@.len(),
                m < keys@.len(),
                kv == keys@.map_values(|k: Vec<char>| k@),
                forall|a: int| 0 <= a < order@.len() ==> #[trigger] order@[a] < m,
                forall|t: int| j <= t < order@.len() ==> lex_lt(kv[m as int], kv[#[trigger] order@[t] as int]),
            decreases j,
        {
            j = j - 1;
        }
        let ghost old_order = order@;
        order.insert(j, m);
        proof {
            assert forall|a: int, b: int| 0 <= a < b < order@.len() implies key_pair_lt(
                (kv[order@[a] as int], order@[a] as int),
                (kv[order@[b] as int], order@[b] as int),
            ) by {
                let pm = (kv[m as int], m as int);
                if b < j {
                    assert(order@[a] == old_order[a] && order@[b] == old_order[b]);
                } else if b == j {
                    assert(order@[a] == old_order[a]);
                    let pj = (kv[old_order[j - 1] as int], old_order[j - 1] as int);
                    lemma_lex_order(kv[m as int], pj.0, pj.0);
                    assert(key_pair_lt(pj, pm));
                    if a < j - 1 {
                        lemma_key_pair_trans((kv[old_order[a] as int], old_order[a] as int), pj, pm);
                    }
                } else if a < j {
                    assert(order@[a] == old_order[a] && order@[b] == old_order[b - 1]);
                } else if a == j {
                    assert(order@[b] == old_order[b - 1]);
                } else {
                    assert(order@[a] == old_order[a - 1] && order@[b] == old_order[b - 1]);
                }
            }
            assert forall|x: int| 0 <= x < m + 1 implies #[trigger] order@.contains(x as usize) by {
                if x == m {
                    assert(order@[j as int] == m);
                } else {
                    assert(old_order.contains(x as usize));
                    let a = choose|a: int| 0 <= a < old_order.len() && old_order[a] == x as usize;
                    if a < j {
                        assert(order@[a] == old_order[a]);
                    } else {
                        assert(order@[a + 1] == old_order[a]);
                    }
                }
            }
            assert forall|a: int| 0 <= a < order@.len() implies #[trigger] order@[a] < m + 1 by {
                if a < j {
                    assert(order@[a] == old_order[a]);
                } else if a > j {
                    assert(order@[a] == old_order[a - 1]);
                }
            }
        }
        m = m + 1;
    }
    proof {
        let ov = order@.map_values(|i: usize| i as int);
        assert forall|a: int, b: int| 0 <= a < b < ov.len() implies #[trigger] key_rank_lt(kv)(
            ov[a],
            ov[b],
        ) by {
            assert(key_pair_lt(
                (kv[order@[a] as int], order@[a] as int),
                (kv[order@[b] as int], order@[b] as int),
            ));
        }
        assert forall|x: int| #[trigger] ov.contains(x) <==> 0 <= x < kv.len() by {
            if ov.contains(x) {
                let a = choose|a: int| 0 <= a < ov.len() && ov[a] == x;
                assert(order@[a] < m);
            }
            if 0 <= x < kv.len() {
                assert(order@.contains(x as usize));
                let a = choose|a: int| 0 <= a < order@.len() && order@[a] == x as usize;
                assert(ov[a] == x);
            }
        }
    }
    order
}

} // verus!
