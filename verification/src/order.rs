//! The order of strings (`String`'s `Ord`: lexicographic over characters,
//! which UTF-8 byte order preserves) and sorting of key lists by it.
use vstd::prelude::*;
use vstd::relations::{sorted_by, total_ordering};
use crate::text::{chars_of, views};

verus! {

/// `a` sorts strictly before `b`.
pub open spec fn lex_lt(a: Seq<char>, b: Seq<char>) -> bool
    decreases a.len(),
{
    if a.len() == 0 {
        b.len() > 0
    } else if b.len() == 0 {
        false
    } else if a[0] != b[0] {
        (a[0] as int) < (b[0] as int)
    } else {
        lex_lt(a.drop_first(), b.drop_first())
    }
}

/// `a` sorts before `b` or equals it.
pub open spec fn lex_le(a: Seq<char>, b: Seq<char>) -> bool {
    a == b || lex_lt(a, b)
}

/// [`lex_le`] as a relation value.
pub open spec fn lex_leq() -> spec_fn(Seq<char>, Seq<char>) -> bool {
    |a: Seq<char>, b: Seq<char>| lex_le(a, b)
}

/// A list of keys in sorted order.
pub open spec fn sort_keys(ks: Seq<Seq<char>>) -> Seq<Seq<char>> {
    ks.sort_by(lex_leq())
}


proof fn lemma_lex_irrefl(a: Seq<char>)
    ensures
        !lex_lt(a, a),
    decreases a.len(),
{
    if a.len() > 0 {
        lemma_lex_irrefl(a.drop_first());
    }
}

proof fn lemma_lex_asym(a: Seq<char>, b: Seq<char>)
    ensures
        lex_lt(a, b) ==> !lex_lt(b, a),
    decreases a.len(),
{
    if a.len() > 0 && b.len() > 0 && a[0] == b[0] {
        lemma_lex_asym(a.drop_first(), b.drop_first());
    }
}

proof fn lemma_lex_trans(a: Seq<char>, b: Seq<char>, c: Seq<char>)
    requires
        lex_lt(a, b),
        lex_lt(b, c),
    ensures
        lex_lt(a, c),
    decreases a.len(),
{
    if a.len() > 0 && b.len() > 0 && c.len() > 0 && a[0] == b[0] && b[0] == c[0] {
        lemma_lex_trans(a.drop_first(), b.drop_first(), c.drop_first());
    }
}

proof fn lemma_lex_total(a: Seq<char>, b: Seq<char>)
    ensures
        a == b || lex_lt(a, b) || lex_lt(b, a),
    decreases a.len(),
{
    if a.len() > 0 && b.len() > 0 && a[0] == b[0] {
        lemma_lex_total(a.drop_first(), b.drop_first());
        if a.drop_first() == b.drop_first() {
            assert(a =~= seq![a[0]] + a.drop_first());
            assert(b =~= seq![b[0]] + b.drop_first());
        }
    } else if a.len() == 0 && b.len() == 0 {
        assert(a =~= b);
    }
}

/// The string order is a total order.
pub proof fn lemma_lex_total_ordering()
    ensures
        total_ordering(lex_leq()),
{
    assert forall|x: Seq<char>| #[trigger] lex_leq()(x, x) by {}
    assert forall|x: Seq<char>, y: Seq<char>| #[trigger] lex_leq()(x, y) && #[trigger] lex_leq()(y, x)
        implies x == y by {
        lemma_lex_asym(x, y);
    }
    assert forall|x: Seq<char>, y: Seq<char>, z: Seq<char>|
        #[trigger] lex_leq()(x, y) && #[trigger] lex_leq()(y, z) implies lex_leq()(x, z) by {
        if x != y && y != z {
            lemma_lex_trans(x, y, z);
        }
    }
    assert forall|x: Seq<char>, y: Seq<char>| #[trigger] lex_leq()(x, y) || #[trigger] lex_leq()(y, x) by {
        lemma_lex_total(x, y);
    }
}

/// Two lists sorted by a total order with the same elements are equal.
pub proof fn lemma_sorted_unique(a: Seq<Seq<char>>, b: Seq<Seq<char>>)
    requires
        sorted_by(a, lex_leq()),
        sorted_by(b, lex_leq()),
        a.to_multiset() == b.to_multiset(),
    ensures
        a == b,
    decreases a.len(),
{
    broadcast use vstd::seq_lib::group_to_multiset_ensures;
    lemma_lex_total_ordering();
    assert(a.to_multiset().len() == a.len());
    assert(b.to_multiset().len() == b.len());
    if a.len() == 0 {
        assert(b.len() == 0);
        assert(a =~= b);
    } else {
        assert(b.len() == a.len());
        assert(a.to_multiset().count(a[0]) > 0);
        assert(b.to_multiset().count(b[0]) > 0);
        assert(b.contains(a[0]));
        assert(a.contains(b[0]));
        let i = choose|i: int| 0 <= i < b.len() && b[i] == a[0];
        let j = choose|j: int| 0 <= j < a.len() && a[j] == b[0];
        assert(lex_leq()(b[0], b[i]) || i == 0);
        assert(lex_leq()(a[0], a[j]) || j == 0);
        assert(lex_leq()(b[0], a[0]));
        assert(lex_leq()(a[0], b[0]));
        assert(a[0] == b[0]);
        assert(a.remove(0) =~= a.drop_first());
        assert(b.remove(0) =~= b.drop_first());
        assert(a.drop_first().to_multiset() =~= b.drop_first().to_multiset());
        lemma_sorted_unique(a.drop_first(), b.drop_first());
        assert(a =~= seq![a[0]] + a.drop_first());
        assert(b =~= seq![b[0]] + b.drop_first());
    }
}

/// The first of a sorted non-empty key list is one of the keys, and no key
/// sorts strictly before it.
pub proof fn lemma_sorted_first_is_least(ks: Seq<Seq<char>>)
    requires
        ks.len() > 0,
    ensures
        sort_keys(ks).len() == ks.len(),
        ks.contains(sort_keys(ks)[0]),
        forall|n: Seq<char>| ks.contains(n) ==> !lex_lt(n, sort_keys(ks)[0]),
        forall|n: Seq<char>| ks.contains(n) && !lex_lt(sort_keys(ks)[0], n) ==> n == sort_keys(ks)[0],
{
    broadcast use vstd::seq_lib::group_to_multiset_ensures;
    lemma_lex_total_ordering();
    ks.lemma_sort_by_ensures(lex_leq());
    let s = sort_keys(ks);
    assert(s.to_multiset().len() == s.len());
    assert(ks.to_multiset().len() == ks.len());
    assert(s.contains(s[0]));
    assert(s.to_multiset().count(s[0]) > 0);
    assert forall|n: Seq<char>| ks.contains(n) implies !lex_lt(n, s[0]) by {
        assert(ks.to_multiset().count(n) > 0);
        assert(s.contains(n));
        let j = choose|j: int| 0 <= j < s.len() && s[j] == n;
        if j > 0 {
            assert(lex_leq()(s[0], s[j]));
            lemma_lex_asym(s[0], n);
        }
        lemma_lex_irrefl(n);
    }
    assert forall|n: Seq<char>| ks.contains(n) && !lex_lt(s[0], n) implies n == s[0] by {
        lemma_lex_total(n, s[0]);
    }
}

/// Whether `a` sorts strictly before `b`.
pub fn str_lt(a: &str, b: &str) -> (r: bool)
    ensures
        r == lex_lt(a@, b@),
{
    let x = chars_of(a);
    let y = chars_of(b);
    let mut i: usize = 0;
    assert(a@.skip(0) =~= a@);
    assert(b@.skip(0) =~= b@);
    while i < x.len() && i < y.len()
        invariant
            x@ == a@,
            y@ == b@,
            i <= x@.len(),
            i <= y@.len(),
            lex_lt(a@, b@) == lex_lt(a@.skip(i as int), b@.skip(i as int)),
        decreases x@.len() - i,
    {
        if x[i] != y[i] {
            let ghost (s, t) = (a@.skip(i as int), b@.skip(i as int));
            assert(s[0] == x@[i as int] && t[0] == y@[i as int]);
            return x[i] < y[i];
        }
        proof {
            let (s, t) = (a@.skip(i as int), b@.skip(i as int));
            assert(s.drop_first() =~= a@.skip(i + 1));
            assert(t.drop_first() =~= b@.skip(i + 1));
        }
        i = i + 1;
    }
    i < y.len()
}

/// A sorted copy of a list of strings.
pub fn sorted_strings(v: &Vec<String>) -> (r: Vec<String>)
    ensures
        views(r@) == sort_keys(views(v@)),
{
    broadcast use vstd::seq_lib::group_to_multiset_ensures;
    let mut out: Vec<String> = Vec::new();
    let mut i: usize = 0;
    while i < v.len()
        invariant
            i <= v@.len(),
            sorted_by(views(out@), lex_leq()),
            views(out@).to_multiset() == views(v@).subrange(0, i as int).to_multiset(),
        decreases v@.len() - i,
    {
        let x = v[i].clone();
        // First position whose key sorts after `x`.
        let mut j: usize = 0;
        while j < out.len() && !str_lt(x.as_str(), out[j].as_str())
            invariant
                j <= out@.len(),
                forall|k: int| 0 <= k < j ==> !lex_lt(x@, #[trigger] out@[k]@),
            decreases out@.len() - j,
        {
            j = j + 1;
        }
        let ghost old_views = views(out@);
        out.insert(j, x);
        proof {
            lemma_lex_total_ordering();
            let w = views(out@);
            assert(w =~= old_views.insert(j as int, x@));
            old_views.insert_ensures(j as int, x@);
            assert forall|p: int, q: int| 0 <= p < q < w.len()
                implies #[trigger] lex_leq()(w[p], w[q]) by {
                if q < j {
                    assert(w[p] == old_views[p] && w[q] == old_views[q]);
                    assert(lex_leq()(old_views[p], old_views[q]));
                } else if p > j {
                    assert(w[p] == old_views[p - 1] && w[q] == old_views[q - 1]);
                    assert(lex_leq()(old_views[p - 1], old_views[q - 1]));
                } else if p == j {
                    assert(w[p] == x@);
                    assert(w[q] == old_views[q - 1]);
                    assert(lex_lt(x@, old_views[j as int]));
                    assert(lex_leq()(x@, old_views[j as int]));
                    if q - 1 > j {
                        assert(lex_leq()(old_views[j as int], old_views[q - 1]));
                        assert(lex_leq()(x@, old_views[q - 1]));
                    }
                } else if q == j {
                    assert(w[p] == old_views[p]);
                    assert(w[q] == x@);
                    lemma_lex_total(x@, old_views[p]);
                    assert(lex_leq()(old_views[p], x@));
                } else {
                    // p < j < q
                    assert(w[p] == old_views[p] && w[q] == old_views[q - 1]);
                    assert(lex_leq()(old_views[p], old_views[q - 1]));
                }
            }
            assert(x == v@[i as int]);
            assert(views(v@).subrange(0, i + 1) =~= views(v@).subrange(0, i as int).push(x@));
            vstd::seq_lib::to_multiset_insert(old_views, j as int, x@);
            assert(w.to_multiset() == old_views.to_multiset().insert(x@));
            let pre = views(v@).subrange(0, i as int);
            vstd::seq_lib::to_multiset_build(pre, x@);
        }
        i = i + 1;
    }
    proof {
        assert(views(v@).subrange(0, v@.len() as int) =~= views(v@));
        lemma_lex_total_ordering();
        views(v@).lemma_sort_by_ensures(lex_leq());
        lemma_sorted_unique(views(out@), sort_keys(views(v@)));
    }
    out
}

} // verus!
