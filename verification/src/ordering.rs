use vstd::prelude::*;
use vstd::string::*;

use crate::text::views;

verus! {

/// `a` comes strictly before `b` in lexicographic order of code points. This is the order of
/// Rust strings, which compare their UTF-8 bytes, since UTF-8 preserves the order of code
/// points.
pub open spec fn text_lt(a: Seq<char>, b: Seq<char>) -> bool
    decreases a.len(),
{
    if a.len() == 0 {
        b.len() > 0
    } else if b.len() == 0 {
        false
    } else if (a[0] as u32) < (b[0] as u32) {
        true
    } else if a[0] == b[0] {
        text_lt(a.drop_first(), b.drop_first())
    } else {
        false
    }
}

/// Whether `a` comes strictly before `b` in the order of strings.
pub fn str_less(a: &str, b: &str) -> (r: bool)
    ensures
        r == text_lt(a@, b@),
{
    let na = a.unicode_len();
    let nb = b.unicode_len();
    let mut i: usize = 0;
    assert(a@.skip(0) =~= a@);
    assert(b@.skip(0) =~= b@);
    while i < na && i < nb
        invariant
            na == a@.len(),
            nb == b@.len(),
            i <= na,
            i <= nb,
            forall|j: int| 0 <= j < i ==> a@[j] == b@[j],
            text_lt(a@, b@) == text_lt(a@.skip(i as int), b@.skip(i as int)),
        decreases na - i,
    {
        let ca = a.get_char(i);
        let cb = b.get_char(i);
        assert(a@.skip(i as int)[0] == ca);
        assert(b@.skip(i as int)[0] == cb);
        if (ca as u32) < (cb as u32) {
            return true;
        }
        if ca != cb {
            return false;
        }
        assert(a@.skip(i as int).drop_first() =~= a@.skip(i + 1));
        assert(b@.skip(i as int).drop_first() =~= b@.skip(i + 1));
        i = i + 1;
    }
    i < nb
}

/// `x` inserted into `s` just before the first item that does not come before `x`.
pub open spec fn insert_sorted(s: Seq<Seq<char>>, x: Seq<char>) -> Seq<Seq<char>>
    decreases s.len(),
{
    if s.len() == 0 || !text_lt(s[0], x) {
        seq![x] + s
    } else {
        seq![s[0]] + insert_sorted(s.drop_first(), x)
    }
}

/// `s` sorted by insertion, one item after another.
pub open spec fn sort_texts(s: Seq<Seq<char>>) -> Seq<Seq<char>>
    decreases s.len(),
{
    if s.len() == 0 {
        Seq::empty()
    } else {
        insert_sorted(sort_texts(s.drop_last()), s.last())
    }
}

proof fn lemma_insert_at(s: Seq<Seq<char>>, x: Seq<char>, p: int)
    requires
        0 <= p <= s.len(),
        forall|j: int| 0 <= j < p ==> text_lt(#[trigger] s[j], x),
        p < s.len() ==> !text_lt(s[p], x),
    ensures
        insert_sorted(s, x) == s.take(p) + seq![x] + s.skip(p),
    decreases s.len(),
{
    if p == 0 {
        assert(s.skip(0) =~= s);
        assert(s.take(0) =~= Seq::<Seq<char>>::empty());
        assert(seq![x] + s =~= s.take(0) + seq![x] + s.skip(0));
    } else {
        assert(text_lt(s[0], x));
        let r = s.drop_first();
        assert forall|j: int| 0 <= j < p - 1 implies text_lt(#[trigger] r[j], x) by {
            assert(r[j] == s[j + 1]);
        }
        if p - 1 < r.len() {
            assert(r[p - 1] == s[p]);
        }
        lemma_insert_at(r, x, p - 1);
        assert(seq![s[0]] + (r.take(p - 1) + seq![x] + r.skip(p - 1)) =~= s.take(p) + seq![x]
            + s.skip(p));
    }
}

/// The given strings sorted in the order of strings, by insertion, one after another.
pub fn sorted_strings(items: &Vec<String>) -> (r: Vec<String>)
    ensures
        views(r@) == sort_texts(views(items@)),
{
    let ghost all = views(items@);
    let mut r: Vec<String> = Vec::new();
    let mut i: usize = 0;
    while i < items.len()
        invariant
            all == views(items@),
            i <= items@.len(),
            views(r@) == sort_texts(all.take(i as int)),
        decreases items.len() - i,
    {
        let x = &items[i];
        let mut p: usize = 0;
        while p < r.len() && str_less(r[p].as_str(), x.as_str())
            invariant
                p <= r@.len(),
                forall|j: int| 0 <= j < p ==> text_lt(#[trigger] r@[j]@, x@),
            decreases r.len() - p,
        {
            p = p + 1;
        }
        let ghost before = views(r@);
        proof {
            assert forall|j: int| 0 <= j < p implies text_lt(#[trigger] before[j], x@) by {
                assert(before[j] == r@[j]@);
            }
            if p < before.len() {
                assert(before[p as int] == r@[p as int]@);
            }
            lemma_insert_at(before, x@, p as int);
            assert(all.take(i + 1).drop_last() =~= all.take(i as int));
            assert(all.take(i + 1).last() == x@);
        }
        r.insert(p, x.clone());
        assert(views(r@) =~= before.take(p as int) + seq![x@] + before.skip(p as int));
        i = i + 1;
    }
    assert(all.take(items@.len() as int) =~= all);
    r
}

/// No text comes strictly before itself.
pub proof fn lemma_text_lt_irreflexive(a: Seq<char>)
    ensures
        !text_lt(a, a),
    decreases a.len(),
{
    if a.len() > 0 {
        lemma_text_lt_irreflexive(a.drop_first());
    }
}

/// The order of texts is transitive.
pub proof fn lemma_text_lt_transitive(a: Seq<char>, b: Seq<char>, c: Seq<char>)
    requires
        text_lt(a, b),
        text_lt(b, c),
    ensures
        text_lt(a, c),
    decreases a.len(),
{
    if a.len() > 0 && a[0] == b[0] && b[0] == c[0] {
        lemma_text_lt_transitive(a.drop_first(), b.drop_first(), c.drop_first());
    }
}

/// Of two different texts, one comes before the other.
pub proof fn lemma_text_lt_total(a: Seq<char>, b: Seq<char>)
    requires
        a != b,
    ensures
        text_lt(a, b) || text_lt(b, a),
    decreases a.len(),
{
    if a.len() == 0 && b.len() == 0 {
        assert(a =~= b);
    } else if a.len() > 0 && b.len() > 0 && a[0] == b[0] {
        if a.drop_first() == b.drop_first() {
            assert(a =~= seq![a[0]] + a.drop_first());
            assert(b =~= seq![b[0]] + b.drop_first());
        }
        lemma_text_lt_total(a.drop_first(), b.drop_first());
    } else if a.len() > 0 && b.len() > 0 {
        vstd::utf8::char_u32_cast(a[0], a[0] as u32);
        vstd::utf8::char_u32_cast(b[0], b[0] as u32);
    }
}

/// Each text comes strictly before the ones after it.
pub open spec fn strictly_sorted(s: Seq<Seq<char>>) -> bool {
    forall|i: int, j: int| 0 <= i < j < s.len() ==> text_lt(#[trigger] s[i], #[trigger] s[j])
}

/// Inserting a new text into a sorted sequence keeps it sorted and adds just that text.
proof fn lemma_insert_sorted(s: Seq<Seq<char>>, x: Seq<char>)
    requires
        strictly_sorted(s),
        !s.contains(x),
    ensures
        strictly_sorted(insert_sorted(s, x)),
        forall|y: Seq<char>| #[trigger] insert_sorted(s, x).contains(y) <==> (s.contains(y) || y == x),
    decreases s.len(),
{
    let r = insert_sorted(s, x);
    if s.len() == 0 || !text_lt(s[0], x) {
        assert(r =~= seq![x] + s);
        if s.len() > 0 {
            assert(s[0] != x);
            lemma_text_lt_total(s[0], x);
        }
        assert forall|i: int, j: int| 0 <= i < j < r.len() implies text_lt(#[trigger] r[i], #[trigger] r[j]) by {
            if i == 0 {
                assert(r[j] == s[j - 1]);
                if j - 1 > 0 {
                    assert(text_lt(s[0], s[j - 1]));
                    lemma_text_lt_transitive(x, s[0], s[j - 1]);
                }
            } else {
                assert(r[i] == s[i - 1] && r[j] == s[j - 1]);
            }
        }
        assert forall|y: Seq<char>| #[trigger] r.contains(y) <==> (s.contains(y) || y == x) by {
            if r.contains(y) {
                let k = choose|k: int| 0 <= k < r.len() && r[k] == y;
                if k > 0 {
                    assert(s[k - 1] == y);
                }
            }
            if s.contains(y) {
                let k = choose|k: int| 0 <= k < s.len() && s[k] == y;
                assert(r[k + 1] == y);
            }
            if y == x {
                assert(r[0] == y);
            }
        }
    } else {
        let t = s.drop_first();
        assert forall|i: int, j: int| 0 <= i < j < t.len() implies text_lt(#[trigger] t[i], #[trigger] t[j]) by {
            assert(t[i] == s[i + 1] && t[j] == s[j + 1]);
        }
        assert(!t.contains(x)) by {
            if t.contains(x) {
                let k = choose|k: int| 0 <= k < t.len() && t[k] == x;
                assert(s[k + 1] == x);
            }
        }
        lemma_insert_sorted(t, x);
        let q = insert_sorted(t, x);
        assert(r =~= seq![s[0]] + q);
        assert forall|i: int, j: int| 0 <= i < j < r.len() implies text_lt(#[trigger] r[i], #[trigger] r[j]) by {
            if i == 0 {
                assert(r[j] == q[j - 1]);
                assert(q.contains(q[j - 1]));
                if q[j - 1] != x {
                    let k = choose|k: int| 0 <= k < t.len() && t[k] == q[j - 1];
                    assert(s[k + 1] == q[j - 1]);
                }
            } else {
                assert(r[i] == q[i - 1] && r[j] == q[j - 1]);
            }
        }
        assert forall|y: Seq<char>| #[trigger] r.contains(y) <==> (s.contains(y) || y == x) by {
            if r.contains(y) {
                let k = choose|k: int| 0 <= k < r.len() && r[k] == y;
                if k > 0 {
                    assert(q[k - 1] == y);
                    assert(q.contains(y));
                    if t.contains(y) {
                        let m = choose|m: int| 0 <= m < t.len() && t[m] == y;
                        assert(s[m + 1] == y);
                    }
                } else {
                    assert(s[0] == y);
                }
            }
            if s.contains(y) {
                let k = choose|k: int| 0 <= k < s.len() && s[k] == y;
                if k > 0 {
                    assert(t[k - 1] == y);
                    assert(q.contains(y));
                    let m = choose|m: int| 0 <= m < q.len() && q[m] == y;
                    assert(r[m + 1] == y);
                } else {
                    assert(r[0] == y);
                }
            }
            if y == x {
                assert(q.contains(x));
                let m = choose|m: int| 0 <= m < q.len() && q[m] == x;
                assert(r[m + 1] == y);
            }
        }
    }
}

/// Sorting distinct texts gives a sorted sequence of the same texts.
proof fn lemma_sort_texts(s: Seq<Seq<char>>)
    requires
        s.no_duplicates(),
    ensures
        strictly_sorted(sort_texts(s)),
        forall|y: Seq<char>| #[trigger] sort_texts(s).contains(y) <==> s.contains(y),
    decreases s.len(),
{
    if s.len() > 0 {
        let init = s.drop_last();
        assert(init.no_duplicates()) by {
            assert forall|i: int, j: int| 0 <= i < init.len() && 0 <= j < init.len() && i != j implies init[i] != init[j] by {
                assert(init[i] == s[i] && init[j] == s[j]);
            }
        }
        lemma_sort_texts(init);
        assert(!init.contains(s.last())) by {
            if init.contains(s.last()) {
                let k = choose|k: int| 0 <= k < init.len() && init[k] == s.last();
                assert(s[k] == s[s.len() - 1]);
            }
        }
        assert(!sort_texts(init).contains(s.last()));
        lemma_insert_sorted(sort_texts(init), s.last());
        assert forall|y: Seq<char>| #[trigger] sort_texts(s).contains(y) <==> s.contains(y) by {
            if init.contains(y) {
                let k = choose|k: int| 0 <= k < init.len() && init[k] == y;
                assert(s[k] == y);
            }
            if s.contains(y) {
                let k = choose|k: int| 0 <= k < s.len() && s[k] == y;
                if k < s.len() - 1 {
                    assert(init[k] == y);
                }
            }
            if y == s.last() {
                assert(s[s.len() - 1] == y);
            }
        }
    }
}

/// Two sorted sequences of the same texts are the same sequence.
proof fn lemma_sorted_unique(a: Seq<Seq<char>>, b: Seq<Seq<char>>)
    requires
        strictly_sorted(a),
        strictly_sorted(b),
        forall|y: Seq<char>| a.contains(y) <==> b.contains(y),
    ensures
        a == b,
    decreases a.len(),
{
    if a.len() == 0 {
        if b.len() > 0 {
            assert(b.contains(b[0]));
        }
        assert(a =~= b);
    } else {
        assert(a.contains(a[0]));
        assert(b.len() > 0);
        assert(b.contains(b[0]));
        let k = choose|k: int| 0 <= k < b.len() && b[k] == a[0];
        let m = choose|m: int| 0 <= m < a.len() && a[m] == b[0];
        if k > 0 {
            assert(text_lt(b[0], b[k]));
            if m == 0 {
                lemma_text_lt_irreflexive(b[0]);
            } else {
                assert(text_lt(a[0], a[m]));
                lemma_text_lt_transitive(a[0], b[0], a[0]);
                lemma_text_lt_irreflexive(a[0]);
            }
        }
        assert(a[0] == b[0]);
        let ta = a.drop_first();
        let tb = b.drop_first();
        assert forall|i: int, j: int| 0 <= i < j < ta.len() implies text_lt(#[trigger] ta[i], #[trigger] ta[j]) by {
            assert(ta[i] == a[i + 1] && ta[j] == a[j + 1]);
        }
        assert forall|i: int, j: int| 0 <= i < j < tb.len() implies text_lt(#[trigger] tb[i], #[trigger] tb[j]) by {
            assert(tb[i] == b[i + 1] && tb[j] == b[j + 1]);
        }
        assert forall|y: Seq<char>| ta.contains(y) <==> tb.contains(y) by {
            if ta.contains(y) {
                let i = choose|i: int| 0 <= i < ta.len() && ta[i] == y;
                assert(a[i + 1] == y);
                assert(a.contains(y));
                let j = choose|j: int| 0 <= j < b.len() && b[j] == y;
                if j == 0 {
                    assert(text_lt(a[0], a[i + 1]));
                    lemma_text_lt_irreflexive(a[0]);
                }
                assert(tb[j - 1] == y);
            }
            if tb.contains(y) {
                let i = choose|i: int| 0 <= i < tb.len() && tb[i] == y;
                assert(b[i + 1] == y);
                assert(b.contains(y));
                let j = choose|j: int| 0 <= j < a.len() && a[j] == y;
                if j == 0 {
                    assert(text_lt(b[0], b[i + 1]));
                    lemma_text_lt_irreflexive(b[0]);
                }
                assert(ta[j - 1] == y);
            }
        }
        lemma_sorted_unique(ta, tb);
        assert(a =~= seq![a[0]] + ta);
        assert(b =~= seq![b[0]] + tb);
    }
}

/// Sorting forgets the order of distinct texts: two sequences of the same distinct texts,
/// in any order, sort to the same sequence.
pub proof fn law_sort_ignores_order(a: Seq<Seq<char>>, b: Seq<Seq<char>>)
    requires
        a.no_duplicates(),
        b.no_duplicates(),
        forall|y: Seq<char>| a.contains(y) <==> b.contains(y),
    ensures
        sort_texts(a) == sort_texts(b),
{
    lemma_sort_texts(a);
    lemma_sort_texts(b);
    lemma_sorted_unique(sort_texts(a), sort_texts(b));
}

} // verus!
