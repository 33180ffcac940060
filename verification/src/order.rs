//! The order of strings (std's `Ord` for `String`: character by character,
//! a proper prefix first) and sorting by it.
use vstd::prelude::*;
use crate::lines::texts;
use crate::text::chars_of;

verus! {

broadcast use vstd::seq_lib::group_to_multiset_ensures;

/// `a` sorts strictly before `b`.
pub open spec fn text_lt(a: Seq<char>, b: Seq<char>) -> bool
    decreases a.len(),
{
    if a.len() == 0 {
        b.len() > 0
    } else if b.len() == 0 {
        false
    } else if a[0] != b[0] {
        a[0] < b[0]
    } else {
        text_lt(a.drop_first(), b.drop_first())
    }
}

/// No string sorts before itself.
pub proof fn lemma_text_lt_irreflexive(a: Seq<char>)
    ensures
        !text_lt(a, a),
    decreases a.len(),
{
    if a.len() > 0 {
        lemma_text_lt_irreflexive(a.drop_first());
    }
}

/// Of two different strings, one sorts before the other, and never both.
pub proof fn lemma_text_lt_total(a: Seq<char>, b: Seq<char>)
    ensures
        a != b ==> (text_lt(a, b) || text_lt(b, a)),
        !(text_lt(a, b) && text_lt(b, a)),
    decreases a.len(),
{
    if a.len() > 0 && b.len() > 0 && a[0] == b[0] {
        lemma_text_lt_total(a.drop_first(), b.drop_first());
        if a.drop_first() == b.drop_first() {
            assert(a =~= seq![a[0]] + a.drop_first());
            assert(b =~= seq![b[0]] + b.drop_first());
        }
    } else if a.len() == 0 && b.len() == 0 {
        assert(a =~= b);
    }
}

/// The order is transitive.
pub proof fn lemma_text_lt_transitive(a: Seq<char>, b: Seq<char>, c: Seq<char>)
    requires
        text_lt(a, b),
        text_lt(b, c),
    ensures
        text_lt(a, c),
    decreases a.len(),
{
    if a.len() > 0 && b.len() > 0 && c.len() > 0 && a[0] == b[0] && b[0] == c[0] {
        lemma_text_lt_transitive(a.drop_first(), b.drop_first(), c.drop_first());
    }
}

/// Whether `a` sorts strictly before `b` (std's `<` on strings).
pub fn text_less(a: &str, b: &str) -> (r: bool)
    ensures
        r == text_lt(a@, b@),
{
    let x = chars_of(a);
    let y = chars_of(b);
    let mut i: usize = 0;
    assert(x@.skip(0) =~= x@);
    assert(y@.skip(0) =~= y@);
    while i < x.len() && i < y.len() && x[i] == y[i]
        invariant
            i <= x@.len(),
            i <= y@.len(),
            x@ == a@,
            y@ == b@,
            text_lt(a@, b@) == text_lt(x@.skip(i as int), y@.skip(i as int)),
        decreases x@.len() - i,
    {
        assert(x@.skip(i as int).drop_first() =~= x@.skip(i + 1));
        assert(y@.skip(i as int).drop_first() =~= y@.skip(i + 1));
        i = i + 1;
    }
    let ghost xs = x@.skip(i as int);
    let ghost ys = y@.skip(i as int);
    if i == x.len() {
        assert(xs.len() == 0);
        i < y.len()
    } else if i == y.len() {
        assert(ys.len() == 0);
        false
    } else {
        assert(xs[0] == x@[i as int] && ys[0] == y@[i as int]);
        x[i] < y[i]
    }
}

/// Each string sorts no later than the next.
pub open spec fn sorted_texts(v: Seq<Seq<char>>) -> bool {
    forall|i: int, j: int| 0 <= i < j < v.len() ==> !text_lt(#[trigger] v[j], #[trigger] v[i])
}

/// Each string sorts strictly before the next.
pub open spec fn strictly_sorted_texts(v: Seq<Seq<char>>) -> bool {
    forall|i: int, j: int| 0 <= i < j < v.len() ==> text_lt(#[trigger] v[i], #[trigger] v[j])
}

/// Inserting a string before the first one that sorts after it, into a
/// sorted sequence, keeps the sequence sorted.
proof fn lemma_insert_keeps_sorted(v: Seq<Seq<char>>, k: int, x: Seq<char>)
    requires
        sorted_texts(v),
        0 <= k <= v.len(),
        forall|j: int| 0 <= j < k ==> !text_lt(x, #[trigger] v[j]),
        k < v.len() ==> text_lt(x, v[k]),
    ensures
        sorted_texts(v.insert(k, x)),
{
    let n = v.insert(k, x);
    assert forall|i: int, j: int| 0 <= i < j < n.len() implies !text_lt(#[trigger] n[j], #[trigger] n[i]) by {
        if i < k && j < k {
            assert(n[i] == v[i] && n[j] == v[j]);
        } else if i < k && j == k {
            assert(n[j] == x && n[i] == v[i]);
        } else if i < k && j > k {
            assert(n[i] == v[i] && n[j] == v[j - 1]);
        } else if i == k {
            assert(n[i] == x && n[j] == v[j - 1]);
            assert(k < v.len());
            if text_lt(v[j - 1], x) {
                lemma_text_lt_transitive(v[j - 1], x, v[k]);
                if j - 1 > k {
                    assert(!text_lt(v[j - 1], v[k]));
                } else {
                    lemma_text_lt_irreflexive(v[k]);
                }
            }
        } else {
            assert(n[i] == v[i - 1] && n[j] == v[j - 1]);
        }
    }
}

/// The strings in order, each kept as often as it occurs (std's `sort`).
pub fn sort_texts(items: Vec<String>) -> (out: Vec<String>)
    ensures
        sorted_texts(texts(out@)),
        texts(out@).to_multiset() == texts(items@).to_multiset(),
{
    let mut out: Vec<String> = Vec::new();
    let mut i: usize = 0;
    while i < items.len()
        invariant
            i <= items@.len(),
            sorted_texts(texts(out@)),
            texts(out@).to_multiset() == texts(items@).take(i as int).to_multiset(),
        decreases items@.len() - i,
    {
        let item = &items[i];
        let mut k: usize = 0;
        while k < out.len() && !text_less(item.as_str(), out[k].as_str())
            invariant
                k <= out@.len(),
                forall|j: int| 0 <= j < k ==> !text_lt(item@, #[trigger] texts(out@)[j]),
            decreases out@.len() - k,
        {
            k = k + 1;
        }
        let ghost old_out = texts(out@);
        proof {
            lemma_insert_keeps_sorted(old_out, k as int, item@);
        }
        out.insert(k, item.clone());
        assert(texts(out@) =~= old_out.insert(k as int, item@));
        assert(texts(items@).take(i + 1) =~= texts(items@).take(i as int).push(item@));
        i = i + 1;
    }
    assert(texts(items@).take(items@.len() as int) =~= texts(items@));
    out
}


/// Inserting a string between the strings that sort before it and those
/// that sort after it keeps a strictly sorted sequence strictly sorted.
proof fn lemma_insert_keeps_strictly_sorted(v: Seq<Seq<char>>, k: int, x: Seq<char>)
    requires
        strictly_sorted_texts(v),
        0 <= k <= v.len(),
        forall|j: int| 0 <= j < k ==> text_lt(#[trigger] v[j], x),
        k < v.len() ==> text_lt(x, v[k]),
    ensures
        strictly_sorted_texts(v.insert(k, x)),
{
    let n = v.insert(k, x);
    assert forall|i: int, j: int| 0 <= i < j < n.len() implies text_lt(#[trigger] n[i], #[trigger] n[j]) by {
        if i < k && j < k {
            assert(n[i] == v[i] && n[j] == v[j]);
        } else if i < k && j == k {
            assert(n[j] == x && n[i] == v[i]);
        } else if i < k && j > k {
            assert(n[i] == v[i] && n[j] == v[j - 1]);
        } else if i == k {
            assert(n[i] == x && n[j] == v[j - 1]);
            if j - 1 > k {
                lemma_text_lt_transitive(x, v[k], v[j - 1]);
            }
        } else {
            assert(n[i] == v[i - 1] && n[j] == v[j - 1]);
        }
    }
}

/// The distinct strings in order (std's `sort` followed by `dedup`).
pub fn sort_dedup_texts(items: Vec<String>) -> (out: Vec<String>)
    ensures
        strictly_sorted_texts(texts(out@)),
        forall|t: Seq<char>| texts(out@).contains(t) <==> texts(items@).contains(t),
{
    let mut out: Vec<String> = Vec::new();
    let mut i: usize = 0;
    while i < items.len()
        invariant
            i <= items@.len(),
            strictly_sorted_texts(texts(out@)),
            forall|t: Seq<char>|
                texts(out@).contains(t) <==> texts(items@).take(i as int).contains(t),
        decreases items@.len() - i,
    {
        let item = &items[i];
        let mut k: usize = 0;
        while k < out.len() && text_less(out[k].as_str(), item.as_str())
            invariant
                k <= out@.len(),
                forall|j: int| 0 <= j < k ==> text_lt(#[trigger] texts(out@)[j], item@),
            decreases out@.len() - k,
        {
            k = k + 1;
        }
        let ghost old_out = texts(out@);
        let ghost before = texts(items@).take(i as int);
        assert(texts(items@).take(i + 1) =~= before.push(item@));
        if k < out.len() && out[k] == *item {
            assert(old_out[k as int] == item@);
            assert forall|t: Seq<char>| texts(out@).contains(t) <==> before.push(item@).contains(t) by {
                if t == item@ {
                    assert(before.push(item@)[before.len() as int] == t);
                }
                if before.push(item@).contains(t) && t != item@ {
                    let w = choose|w: int| 0 <= w < before.push(item@).len() && before.push(item@)[w] == t;
                    assert(before[w] == t);
                }
                if before.contains(t) {
                    let w = choose|w: int| 0 <= w < before.len() && before[w] == t;
                    assert(before.push(item@)[w] == t);
                }
            }
        } else {
            proof {
                if k < out.len() {
                    lemma_text_lt_total(item@, old_out[k as int]);
                }
                lemma_insert_keeps_strictly_sorted(old_out, k as int, item@);
            }
            out.insert(k, item.clone());
            assert(texts(out@) =~= old_out.insert(k as int, item@));
            assert forall|t: Seq<char>| texts(out@).contains(t) <==> before.push(item@).contains(t) by {
                let n = old_out.insert(k as int, item@);
                if n.contains(t) {
                    let w = choose|w: int| 0 <= w < n.len() && n[w] == t;
                    if w != k {
                        let u = if w < k { w } else { w - 1 };
                        assert(old_out[u] == t);
                        assert(old_out.contains(t));
                        assert(before.contains(t));
                        let b = choose|b: int| 0 <= b < before.len() && before[b] == t;
                        assert(before.push(item@)[b] == t);
                    } else {
                        assert(before.push(item@)[before.len() as int] == t);
                    }
                }
                if before.push(item@).contains(t) {
                    let w = choose|w: int| 0 <= w < before.push(item@).len() && before.push(item@)[w] == t;
                    if w < before.len() {
                        assert(before[w] == t);
                        assert(old_out.contains(t));
                        let u = choose|u: int| 0 <= u < old_out.len() && old_out[u] == t;
                        if u < k {
                            assert(n[u] == t);
                        } else {
                            assert(n[u + 1] == t);
                        }
                    } else {
                        assert(n[k as int] == t);
                    }
                }
            }
        }
        i = i + 1;
    }
    assert(texts(items@).take(items@.len() as int) =~= texts(items@));
    out
}

} // verus!
