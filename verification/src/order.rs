//! The order in which the entries of a portfolio are processed: by their
//! labels, and among equal labels by their place in the input.

use vstd::prelude::*;
use vstd::string::*;

verus! {

/// Whether the text `a` comes before the text `b`: at the first place where
/// they differ `a` has the smaller character, or `a` ends there and `b` goes
/// on. This is how the standard library orders strings.
pub open spec fn text_before(a: Seq<char>, b: Seq<char>) -> bool
    decreases a.len(),
{
    if b.len() == 0 {
        false
    } else if a.len() == 0 {
        true
    } else if a[0] != b[0] {
        (a[0] as u32) < (b[0] as u32)
    } else {
        text_before(a.drop_first(), b.drop_first())
    }
}

/// Whether the label `a` comes before the label `b`. A missing label comes
/// before every label that is there.
pub open spec fn key_before(a: Option<Seq<char>>, b: Option<Seq<char>>) -> bool {
    match (a, b) {
        (None, None) => false,
        (None, Some(_)) => true,
        (Some(_), None) => false,
        (Some(x), Some(y)) => text_before(x, y),
    }
}

/// The label of an entry, as the order reads it.
pub open spec fn key_view(key: Option<String>) -> Option<Seq<char>> {
    match key {
        Some(text) => Some(text@),
        None => None,
    }
}

/// Whether the entry at place `i` is processed before the entry at place
/// `j`: its label comes first, or the labels are equal and `i` is the
/// earlier place.
pub open spec fn precedes(keys: Seq<Option<Seq<char>>>, i: int, j: int) -> bool {
    key_before(keys[i], keys[j]) || (keys[i] == keys[j] && i < j)
}

/// Whether `order` lists every place of `keys` once, each before all that
/// it precedes.
pub open spec fn is_stable_order(keys: Seq<Option<Seq<char>>>, order: Seq<int>) -> bool {
    &&& order.len() == keys.len()
    &&& forall|a: int| 0 <= a < order.len() ==> 0 <= #[trigger] order[a] < keys.len()
    &&& forall|p: int| 0 <= p < keys.len() ==> order.contains(p)
    &&& forall|a: int, b: int|
        0 <= a < b < order.len() ==> precedes(keys, #[trigger] order[a], #[trigger] order[b])
}

/// No text comes before itself.
pub proof fn lemma_text_before_irreflexive(a: Seq<char>)
    ensures
        !text_before(a, a),
    decreases a.len(),
{
    if a.len() > 0 {
        lemma_text_before_irreflexive(a.drop_first());
    }
}

/// Of two texts one comes before the other, unless they are equal.
pub proof fn lemma_text_before_total(a: Seq<char>, b: Seq<char>)
    ensures
        text_before(a, b) || text_before(b, a) || a == b,
    decreases a.len(),
{
    if a.len() == 0 || b.len() == 0 {
        assert(a.len() == 0 && b.len() == 0 ==> a =~= b);
    } else if a[0] == b[0] {
        lemma_text_before_total(a.drop_first(), b.drop_first());
        if a.drop_first() == b.drop_first() {
            assert(a =~= seq![a[0]] + a.drop_first());
            assert(b =~= seq![b[0]] + b.drop_first());
        }
    } else {
        let x: char = a[0];
        let y: char = b[0];
        vstd::utf8::char_u32_cast(x, x as u32);
        vstd::utf8::char_u32_cast(y, y as u32);
    }
}

/// What comes before something that comes before a third comes before the
/// third.
pub proof fn lemma_text_before_transitive(a: Seq<char>, b: Seq<char>, c: Seq<char>)
    requires
        text_before(a, b),
        text_before(b, c),
    ensures
        text_before(a, c),
    decreases a.len(),
{
    if a.len() > 0 && a[0] == b[0] && b[0] == c[0] {
        lemma_text_before_transitive(a.drop_first(), b.drop_first(), c.drop_first());
    }
}

/// The order of labels is a strict total order.
pub proof fn lemma_key_before_order(
    a: Option<Seq<char>>,
    b: Option<Seq<char>>,
    c: Option<Seq<char>>,
)
    ensures
        !key_before(a, a),
        key_before(a, b) || key_before(b, a) || a == b,
        key_before(a, b) && key_before(b, c) ==> key_before(a, c),
{
    if let Some(x) = a {
        lemma_text_before_irreflexive(x);
        if let Some(y) = b {
            lemma_text_before_total(x, y);
            if let Some(z) = c {
                if text_before(x, y) && text_before(y, z) {
                    lemma_text_before_transitive(x, y, z);
                }
            }
        }
    }
}

/// No place precedes itself, and of two places at most one precedes the
/// other.
pub proof fn lemma_precedes_asymmetric(keys: Seq<Option<Seq<char>>>, i: int, j: int)
    ensures
        !(precedes(keys, i, j) && precedes(keys, j, i)),
{
    lemma_key_before_order(keys[i], keys[j], keys[i]);
    lemma_key_before_order(keys[j], keys[i], keys[j]);
}

/// The order of processing is fixed by the labels: any two lists that are
/// stable orders of the same labels are equal.
pub proof fn lemma_stable_order_unique(
    keys: Seq<Option<Seq<char>>>,
    first: Seq<int>,
    second: Seq<int>,
)
    requires
        is_stable_order(keys, first),
        is_stable_order(keys, second),
    ensures
        first == second,
{
    assert forall|k: int| 0 <= k < first.len() implies first[k] == second[k] by {
        lemma_same_place(keys, first, second, k);
    }
    assert(first =~= second);
}

/// Two stable orders of the same labels agree at `k`.
proof fn lemma_same_place(
    keys: Seq<Option<Seq<char>>>,
    first: Seq<int>,
    second: Seq<int>,
    k: int,
)
    requires
        is_stable_order(keys, first),
        is_stable_order(keys, second),
        0 <= k < first.len(),
    ensures
        first[k] == second[k],
    decreases k,
{
    assert forall|i: int| 0 <= i < k implies first[i] == second[i] by {
        lemma_same_place(keys, first, second, i);
    }
    lemma_not_later(keys, first, second, k);
    lemma_not_later(keys, second, first, k);
    lemma_precedes_asymmetric(keys, first[k], second[k]);
}

/// Where two stable orders agree before `k`, what `first` has at `k` is
/// what `second` has there, or precedes it.
proof fn lemma_not_later(
    keys: Seq<Option<Seq<char>>>,
    first: Seq<int>,
    second: Seq<int>,
    k: int,
)
    requires
        is_stable_order(keys, first),
        is_stable_order(keys, second),
        0 <= k < first.len(),
        forall|i: int| 0 <= i < k ==> first[i] == second[i],
    ensures
        first[k] == second[k] || precedes(keys, first[k], second[k]),
{
    let target = second[k];
    assert(first.contains(target));
    let j = choose|j: int| 0 <= j < first.len() && first[j] == target;
    if j < k {
        assert(second[j] == target);
        assert(precedes(keys, second[j], second[k]));
        lemma_precedes_asymmetric(keys, target, target);
    } else if j > k {
        assert(precedes(keys, first[k], first[j]));
    }
}

/// Whether the text `a` comes before the text `b`.
pub fn text_comes_before(a: &str, b: &str) -> (r: bool)
    ensures
        r == text_before(a@, b@),
{
    let n: usize = a.unicode_len();
    let m: usize = b.unicode_len();
    let mut i: usize = 0;
    assert(a@.subrange(0, n as int) =~= a@);
    assert(b@.subrange(0, m as int) =~= b@);
    while i < n && i < m
        invariant
            i <= n,
            i <= m,
            n == a@.len(),
            m == b@.len(),
            text_before(a@, b@) == text_before(
                a@.subrange(i as int, n as int),
                b@.subrange(i as int, m as int),
            ),
        decreases n - i,
    {
        let x: char = a.get_char(i);
        let y: char = b.get_char(i);
        let ghost rest_a = a@.subrange(i as int, n as int);
        let ghost rest_b = b@.subrange(i as int, m as int);
        assert(rest_a[0] == x && rest_b[0] == y);
        if x != y {
            return (x as u32) < (y as u32);
        }
        proof {
            assert(rest_a.drop_first() =~= a@.subrange(i + 1, n as int));
            assert(rest_b.drop_first() =~= b@.subrange(i + 1, m as int));
        }
        i += 1;
    }
    i < m
}

/// Whether the label `a` comes before the label `b`.
pub fn key_comes_before(a: &Option<String>, b: &Option<String>) -> (r: bool)
    ensures
        r == key_before(key_view(*a), key_view(*b)),
{
    match (a, b) {
        (None, None) => false,
        (None, Some(_)) => true,
        (Some(_), None) => false,
        (Some(x), Some(y)) => text_comes_before(x.as_str(), y.as_str()),
    }
}

/// The places as integers.
pub open spec fn places(order: Seq<usize>) -> Seq<int> {
    order.map_values(|p: usize| p as int)
}

/// The labels as the order reads them.
pub open spec fn key_views(keys: Seq<Option<String>>) -> Seq<Option<Seq<char>>> {
    keys.map_values(|k: Option<String>| key_view(k))
}

/// The places of `keys` in the order in which the entries are processed:
/// sorted by label, entries with equal labels in the order of the input.
pub fn stable_order(keys: &Vec<Option<String>>) -> (order: Vec<usize>)
    ensures
        is_stable_order(key_views(keys@), places(order@)),
{
    let ghost ks = key_views(keys@);
    let n: usize = keys.len();
    let mut order: Vec<usize> = Vec::new();
    let mut i: usize = 0;
    while i < n
        invariant
            i <= n,
            n == keys@.len(),
            ks == key_views(keys@),
            order@.len() == i,
            forall|a: int| 0 <= a < order@.len() ==> #[trigger] order@[a] < i,
            forall|p: int| 0 <= p < i ==> places(order@).contains(p),
            forall|a: int, b: int|
                0 <= a < b < order@.len() ==> precedes(
                    ks,
                    #[trigger] order@[a] as int,
                    #[trigger] order@[b] as int,
                ),
        decreases n - i,
    {
        let mut p: usize = order.len();
        while p > 0 && key_comes_before(&keys[i], &keys[order[p - 1]])
            invariant
                p <= order@.len(),
                i < n,
                n == keys@.len(),
                ks == key_views(keys@),
                forall|a: int| 0 <= a < order@.len() ==> #[trigger] order@[a] < i,
                forall|b: int|
                    p <= b < order@.len() ==> key_before(ks[i as int], ks[#[trigger] order@[b] as int]),
            decreases p,
        {
            p -= 1;
        }
        let ghost before = order@;
        order.insert(p, i);
        proof {
            let after = order@;
            assert(after == before.insert(p as int, i));
            assert forall|a: int, b: int| 0 <= a < b < after.len() implies precedes(
                ks,
                #[trigger] after[a] as int,
                #[trigger] after[b] as int,
            ) by {
                if b < p {
                    assert(after[a] == before[a] && after[b] == before[b]);
                } else if b == p {
                    // before[a] is at most before[p - 1], which is not after the new label
                    assert(after[a] == before[a]);
                    let last = before[p - 1] as int;
                    let x = before[a] as int;
                    lemma_key_before_order(ks[i as int], ks[last], ks[x]);
                    lemma_key_before_order(ks[x], ks[last], ks[i as int]);
                    if a < p - 1 {
                        assert(precedes(ks, before[a] as int, before[p - 1] as int));
                    }
                } else if a < p {
                    assert(after[a] == before[a] && after[b] == before[b - 1]);
                    assert(precedes(ks, before[a] as int, before[b - 1] as int));
                } else if a == p {
                    assert(after[b] == before[b - 1]);
                } else {
                    assert(after[a] == before[a - 1] && after[b] == before[b - 1]);
                }
            }
            assert forall|q: int| 0 <= q < i + 1 implies places(after).contains(q) by {
                if q == i {
                    assert(places(after)[p as int] == q);
                } else {
                    assert(places(before).contains(q));
                    let w = choose|w: int| 0 <= w < before.len() && places(before)[w] == q;
                    if w < p {
                        assert(places(after)[w] == q);
                    } else {
                        assert(places(after)[w + 1] == q);
                    }
                }
            }
        }
        i += 1;
    }
    order
}

} // verus!
