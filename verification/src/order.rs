//! Stable ordering by sort keys: a key is compared field by field, numbers
//! by value and text by code points, and items with equal keys keep their
//! input order.
use vstd::prelude::*;

verus! {

/// A sort key: four numbers, a text, then two more numbers, compared in
/// that order.
#[derive(Debug)]
pub struct SortKey {
    pub a: i128,
    pub b: i128,
    pub c: i128,
    pub d: i128,
    pub text: Vec<char>,
    pub e: i128,
    pub f: i128,
}

/// Three-way comparison of numbers: -1, 0 or 1.
pub open spec fn int_order(x: int, y: int) -> int {
    if x < y {
        -1
    } else if x > y {
        1
    } else {
        0
    }
}

/// Three-way comparison of texts by code points, a proper prefix first.
pub open spec fn text_order(s: Seq<char>, t: Seq<char>) -> int
    decreases s.len(),
{
    if s.len() == 0 {
        if t.len() == 0 {
            0
        } else {
            -1
        }
    } else if t.len() == 0 {
        1
    } else if (s[0] as int) < (t[0] as int) {
        -1
    } else if (s[0] as int) > (t[0] as int) {
        1
    } else {
        text_order(s.drop_first(), t.drop_first())
    }
}

/// Three-way comparison of sort keys, field by field.
pub open spec fn key_order(x: SortKey, y: SortKey) -> int {
    if int_order(x.a as int, y.a as int) != 0 {
        int_order(x.a as int, y.a as int)
    } else if int_order(x.b as int, y.b as int) != 0 {
        int_order(x.b as int, y.b as int)
    } else if int_order(x.c as int, y.c as int) != 0 {
        int_order(x.c as int, y.c as int)
    } else if int_order(x.d as int, y.d as int) != 0 {
        int_order(x.d as int, y.d as int)
    } else if text_order(x.text@, y.text@) != 0 {
        text_order(x.text@, y.text@)
    } else if int_order(x.e as int, y.e as int) != 0 {
        int_order(x.e as int, y.e as int)
    } else {
        int_order(x.f as int, y.f as int)
    }
}

pub proof fn lemma_text_order_range(s: Seq<char>, t: Seq<char>)
    ensures
        -1 <= text_order(s, t) <= 1,
        text_order(s, t) == -text_order(t, s),
        text_order(s, t) == 0 ==> s == t,
        text_order(s, s) == 0,
    decreases s.len(),
{
    if s.len() > 0 && t.len() > 0 {
        lemma_text_order_range(s.drop_first(), t.drop_first());
        if (s[0] as int) == (t[0] as int) && text_order(s, t) == 0 {
            assert(s[0] == t[0]);
            assert(s =~= seq![s[0]] + s.drop_first());
            assert(t =~= seq![t[0]] + t.drop_first());
        }
    }
    if s.len() > 0 {
        lemma_text_order_range(s.drop_first(), s.drop_first());
    }
}

pub proof fn lemma_text_order_trans(s: Seq<char>, t: Seq<char>, u: Seq<char>)
    requires
        text_order(s, t) <= 0,
        text_order(t, u) <= 0,
    ensures
        text_order(s, u) <= 0,
        text_order(s, t) < 0 || text_order(t, u) < 0 ==> text_order(s, u) < 0,
    decreases s.len(),
{
    lemma_text_order_range(s, t);
    lemma_text_order_range(t, u);
    lemma_text_order_range(s, u);
    if s.len() > 0 && t.len() > 0 && u.len() > 0 {
        if (s[0] as int) == (t[0] as int) && (t[0] as int) == (u[0] as int) {
            lemma_text_order_trans(s.drop_first(), t.drop_first(), u.drop_first());
        }
    }
}

/// Key comparison is a total order up to equal keys: antisymmetric and
/// reflexive.
pub proof fn lemma_key_order_antisym(x: SortKey, y: SortKey)
    ensures
        key_order(x, y) == -key_order(y, x),
        key_order(x, x) == 0,
{
    lemma_text_order_range(x.text@, y.text@);
    lemma_text_order_range(x.text@, x.text@);
}

/// Key comparison is transitive, and strictly so where one step is strict.
pub proof fn lemma_key_order_trans(x: SortKey, y: SortKey, z: SortKey)
    requires
        key_order(x, y) <= 0,
        key_order(y, z) <= 0,
    ensures
        key_order(x, z) <= 0,
        key_order(x, y) < 0 || key_order(y, z) < 0 ==> key_order(x, z) < 0,
{
    lemma_text_order_range(x.text@, y.text@);
    lemma_text_order_range(y.text@, z.text@);
    lemma_text_order_range(x.text@, z.text@);
    if x.a == y.a && y.a == z.a && x.b == y.b && y.b == z.b && x.c == y.c && y.c == z.c && x.d
        == y.d && y.d == z.d {
        if text_order(x.text@, y.text@) <= 0 && text_order(y.text@, z.text@) <= 0 {
            lemma_text_order_trans(x.text@, y.text@, z.text@);
        }
    }
}

/// Item `i` goes before item `j`: a smaller key, or an equal key and an
/// earlier place.
pub open spec fn goes_before(keys: Seq<SortKey>, i: int, j: int) -> bool {
    key_order(keys[i], keys[j]) < 0 || (key_order(keys[i], keys[j]) == 0 && i < j)
}

/// `order` lists the chosen items, each once, in stable key order.
pub open spec fn is_stable_order(keys: Seq<SortKey>, chosen: Seq<bool>, order: Seq<usize>) -> bool {
    &&& forall|k: int| 0 <= k < order.len() ==> order[k] < keys.len() && chosen[order[k] as int]
    &&& forall|i: int| 0 <= i < keys.len() && chosen[i] ==> order.contains(i as usize)
    &&& forall|p: int, q: int|
        0 <= p < q < order.len() ==> goes_before(keys, order[p] as int, order[q] as int)
}

fn int_order_exec(x: i128, y: i128) -> (r: i8)
    ensures
        r as int == int_order(x as int, y as int),
{
    if x < y {
        -1
    } else if x > y {
        1
    } else {
        0
    }
}

fn text_order_exec(s: &Vec<char>, t: &Vec<char>) -> (r: i8)
    ensures
        r as int == text_order(s@, t@),
{
    let mut i: usize = 0;
    proof {
        assert(s@.skip(0) =~= s@);
        assert(t@.skip(0) =~= t@);
    }
    while i < s.len() && i < t.len()
        invariant
            i <= s@.len(),
            i <= t@.len(),
            text_order(s@, t@) == text_order(s@.skip(i as int), t@.skip(i as int)),
        decreases s.len() - i,
    {
        let a = s[i];
        let b = t[i];
        proof {
            assert(s@.skip(i as int)[0] == s@[i as int]);
            assert(t@.skip(i as int)[0] == t@[i as int]);
        }
        if a < b {
            return -1;
        }
        if a > b {
            return 1;
        }
        proof {
            assert(s@.skip(i as int).drop_first() =~= s@.skip(i + 1));
            assert(t@.skip(i as int).drop_first() =~= t@.skip(i + 1));
        }
        i += 1;
    }
    if i < t.len() {
        -1
    } else if i < s.len() {
        1
    } else {
        0
    }
}

/// Compares two sort keys.
pub fn compare_keys(x: &SortKey, y: &SortKey) -> (r: i8)
    ensures
        r as int == key_order(*x, *y),
{
    let c = int_order_exec(x.a, y.a);
    if c != 0 {
        return c;
    }
    let c = int_order_exec(x.b, y.b);
    if c != 0 {
        return c;
    }
    let c = int_order_exec(x.c, y.c);
    if c != 0 {
        return c;
    }
    let c = int_order_exec(x.d, y.d);
    if c != 0 {
        return c;
    }
    let c = text_order_exec(&x.text, &y.text);
    if c != 0 {
        return c;
    }
    let c = int_order_exec(x.e, y.e);
    if c != 0 {
        return c;
    }
    int_order_exec(x.f, y.f)
}

/// The places of the chosend items in stable key order (a stable sort).
pub fn stable_order(keys: &Vec<SortKey>, chosen: &Vec<bool>) -> (r: Vec<usize>)
    requires
        chosen@.len() == keys@.len(),
    ensures
        is_stable_order(keys@, chosen@, r@),
{
    let n = keys.len();
    let mut order: Vec<usize> = Vec::new();
    let mut m: usize = 0;
    while m < n
        invariant
            n == keys@.len(),
            chosen@.len() == n,
            m <= n,
            forall|k: int| 0 <= k < order@.len() ==> order@[k] < m && chosen@[order@[k] as int],
            forall|i: int| 0 <= i < m && chosen@[i] ==> order@.contains(i as usize),
            forall|p: int, q: int|
                0 <= p < q < order@.len() ==> goes_before(keys@, order@[p] as int, order@[q] as int),
        decreases n - m,
    {
        if chosen[m] {
            let mut p: usize = 0;
            while p < order.len() && compare_keys(&keys[m], &keys[order[p]]) >= 0
                invariant
                    n == keys@.len(),
                    m < n,
                    p <= order@.len(),
                    forall|k: int| 0 <= k < order@.len() ==> order@[k] < m,
                    forall|k: int|
                        0 <= k < p ==> key_order(keys@[m as int], keys@[order@[k] as int]) >= 0,
                decreases order.len() - p,
            {
                p += 1;
            }
            let ghost old_order = order@;
            order.insert(p, m);
            proof {
                assert(order@ == old_order.insert(p as int, m));
                assert forall|k: int| 0 <= k < order@.len() implies order@[k] < m + 1 && chosen@[order@[k] as int] by {
                    if k < p {
                        assert(order@[k] == old_order[k]);
                    } else if k > p {
                        assert(order@[k] == old_order[k - 1]);
                    }
                }
                assert forall|i: int| 0 <= i < m + 1 && chosen@[i] implies order@.contains(i as usize) by {
                    if i == m {
                        assert(order@[p as int] == m);
                    } else {
                        let w = choose|w: int| 0 <= w < old_order.len() && old_order[w] == i;
                        if w < p {
                            assert(order@[w] == i);
                        } else {
                            assert(order@[w + 1] == i);
                        }
                    }
                }
                assert forall|a: int, b: int| 0 <= a < b < order@.len() implies goes_before(
                    keys@,
                    order@[a] as int,
                    order@[b] as int,
                ) by {
                    let km = keys@[m as int];
                    if a < p && b < p {
                        assert(order@[a] == old_order[a] && order@[b] == old_order[b]);
                    } else if a < p && b == p {
                        let ka = keys@[old_order[a] as int];
                        lemma_key_order_antisym(km, ka);
                        assert(order@[a] == old_order[a]);
                    } else if a < p && b > p {
                        assert(order@[a] == old_order[a] && order@[b] == old_order[b - 1]);
                    } else if a == p {
                        let kb = keys@[old_order[b - 1] as int];
                        assert(order@[b] == old_order[b - 1]);
                        assert(key_order(km, keys@[old_order[p as int] as int]) < 0);
                        if b - 1 > p {
                            assert(goes_before(keys@, old_order[p as int] as int, old_order[b - 1] as int));
                            lemma_key_order_trans(km, keys@[old_order[p as int] as int], kb);
                        }
                    } else {
                        assert(order@[a] == old_order[a - 1] && order@[b] == old_order[b - 1]);
                    }
                }
            }
        }
        m += 1;
    }
    order
}

} // verus!
