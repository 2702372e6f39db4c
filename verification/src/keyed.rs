//! Lists of `(key, value)` entries that stand for string-keyed maps.
//!
//! A map's entries are held in a `Vec` in their iteration order; a lookup
//! finds the first entry with the key.  Maps built from real maps have no
//! key twice.
use vstd::prelude::*;
use crate::text::{text_eq, views};

verus! {

/// The keys of a list of entries, in order.
pub open spec fn keys_of<V>(m: Seq<(String, V)>) -> Seq<Seq<char>> {
    m.map_values(|e: (String, V)| e.0@)
}

/// `i` is the first entry with key `k`.
pub open spec fn is_first<V>(m: Seq<(String, V)>, k: Seq<char>, i: int) -> bool {
    &&& 0 <= i < m.len()
    &&& m[i].0@ == k
    &&& forall|j: int| 0 <= j < i ==> m[j].0@ != k
}

/// Whether some entry has key `k`.
pub open spec fn has_key<V>(m: Seq<(String, V)>, k: Seq<char>) -> bool {
    exists|i: int| 0 <= i < m.len() && m[i].0@ == k
}

/// The value of the first entry with key `k`.
pub open spec fn lookup<V>(m: Seq<(String, V)>, k: Seq<char>) -> V {
    m[choose|i: int| is_first(m, k, i)].1
}

/// No key occurs twice.
pub open spec fn distinct_keys<V>(m: Seq<(String, V)>) -> bool {
    forall|i: int, j: int| 0 <= i < j < m.len() ==> m[i].0@ != m[j].0@
}

/// The map a list of entries stands for: each key to the value of its
/// first entry.
pub open spec fn entry_map<V>(m: Seq<(String, V)>) -> Map<Seq<char>, V> {
    Map::new(|k: Seq<char>| has_key(m, k), |k: Seq<char>| lookup(m, k))
}

/// Replacing the value of the entry at `i` keeps the keys distinct and
/// maps its key to the new value.
pub proof fn lemma_set_entry<V>(s: Seq<(String, V)>, i: int, e: (String, V))
    requires
        distinct_keys(s),
        0 <= i < s.len(),
        e.0@ == s[i].0@,
    ensures
        distinct_keys(s.update(i, e)),
        entry_map(s.update(i, e)) == entry_map(s).insert(e.0@, e.1),
{
    let t = s.update(i, e);
    assert forall|a: int, b: int| 0 <= a < b < t.len() implies t[a].0@ != t[b].0@ by {
        assert(s[a].0@ != s[b].0@);
    }
    assert forall|k: Seq<char>| #[trigger] entry_map(t).contains_key(k) == entry_map(s).insert(e.0@, e.1).contains_key(k) by {
        if has_key(t, k) {
            let j = choose|j: int| 0 <= j < t.len() && t[j].0@ == k;
            assert(s[j].0@ == k);
        }
        if has_key(s, k) {
            let j = choose|j: int| 0 <= j < s.len() && s[j].0@ == k;
            assert(t[j].0@ == k);
        }
    }
    assert forall|k: Seq<char>| #[trigger] entry_map(t).contains_key(k) implies entry_map(t)[k] == entry_map(s).insert(
        e.0@,
        e.1,
    )[k] by {
        let j = choose|j: int| 0 <= j < t.len() && t[j].0@ == k;
        lemma_distinct_first(t, j);
        lemma_lookup_first(t, k, j);
        if j != i {
            lemma_distinct_first(s, j);
            lemma_lookup_first(s, k, j);
        }
    }
    assert(entry_map(t) =~= entry_map(s).insert(e.0@, e.1));
}

/// Appending an entry with a new key keeps the keys distinct and adds it.
pub proof fn lemma_push_entry<V>(s: Seq<(String, V)>, e: (String, V))
    requires
        distinct_keys(s),
        !has_key(s, e.0@),
    ensures
        distinct_keys(s.push(e)),
        entry_map(s.push(e)) == entry_map(s).insert(e.0@, e.1),
{
    let t = s.push(e);
    assert forall|a: int, b: int| 0 <= a < b < t.len() implies t[a].0@ != t[b].0@ by {
        if b < s.len() {
            assert(s[a].0@ != s[b].0@);
        } else {
            assert(t[a] == s[a]);
        }
    }
    assert forall|k: Seq<char>| #[trigger] entry_map(t).contains_key(k) == entry_map(s).insert(e.0@, e.1).contains_key(k) by {
        if has_key(t, k) {
            let j = choose|j: int| 0 <= j < t.len() && t[j].0@ == k;
            if j < s.len() {
                assert(s[j].0@ == k);
            }
        }
        if has_key(s, k) {
            let j = choose|j: int| 0 <= j < s.len() && s[j].0@ == k;
            assert(t[j].0@ == k);
        }
        if k == e.0@ {
            assert(t[s.len() as int].0@ == k);
        }
    }
    assert forall|k: Seq<char>| #[trigger] entry_map(t).contains_key(k) implies entry_map(t)[k] == entry_map(s).insert(
        e.0@,
        e.1,
    )[k] by {
        let j = choose|j: int| 0 <= j < t.len() && t[j].0@ == k;
        lemma_distinct_first(t, j);
        lemma_lookup_first(t, k, j);
        if j < s.len() {
            assert(t[j] == s[j]);
            lemma_distinct_first(s, j);
            lemma_lookup_first(s, k, j);
        }
    }
    assert(entry_map(t) =~= entry_map(s).insert(e.0@, e.1));
}

/// Dropping the entry at `i` keeps the keys distinct and drops its key.
pub proof fn lemma_remove_entry<V>(s: Seq<(String, V)>, i: int)
    requires
        distinct_keys(s),
        0 <= i < s.len(),
    ensures
        distinct_keys(s.remove(i)),
        entry_map(s.remove(i)) == entry_map(s).remove(s[i].0@),
{
    let t = s.remove(i);
    let k0 = s[i].0@;
    assert forall|a: int, b: int| 0 <= a < b < t.len() implies t[a].0@ != t[b].0@ by {
        let sa = if a < i { a } else { a + 1 };
        let sb = if b < i { b } else { b + 1 };
        assert(t[a] == s[sa] && t[b] == s[sb]);
        assert(s[sa].0@ != s[sb].0@);
    }
    assert forall|k: Seq<char>| #[trigger] entry_map(t).contains_key(k) == entry_map(s).remove(k0).contains_key(k) by {
        if has_key(t, k) {
            let j = choose|j: int| 0 <= j < t.len() && t[j].0@ == k;
            let sj = if j < i { j } else { j + 1 };
            assert(t[j] == s[sj]);
            assert(s[sj].0@ != k0);
        }
        if has_key(s, k) && k != k0 {
            let j = choose|j: int| 0 <= j < s.len() && s[j].0@ == k;
            if j < i {
                assert(t[j] == s[j]);
            } else {
                assert(j != i);
                assert(t[j - 1] == s[j]);
            }
        }
    }
    assert forall|k: Seq<char>| #[trigger] entry_map(t).contains_key(k) implies entry_map(t)[k] == entry_map(s).remove(
        k0,
    )[k] by {
        let j = choose|j: int| 0 <= j < t.len() && t[j].0@ == k;
        let sj = if j < i { j } else { j + 1 };
        assert(t[j] == s[sj]);
        lemma_distinct_first(t, j);
        lemma_lookup_first(t, k, j);
        lemma_distinct_first(s, sj);
        lemma_lookup_first(s, k, sj);
    }
    assert(entry_map(t) =~= entry_map(s).remove(k0));
}

/// The first entry with a key is the one `lookup` reads.
pub proof fn lemma_lookup_first<V>(m: Seq<(String, V)>, k: Seq<char>, i: int)
    requires
        is_first(m, k, i),
    ensures
        lookup(m, k) == m[i].1,
{
    let c = choose|c: int| is_first(m, k, c);
    assert(is_first(m, k, c));
    assert(!(c < i));
    assert(!(i < c));
}

/// In a list without repeated keys, the entry with a key is the first one.
pub proof fn lemma_distinct_first<V>(m: Seq<(String, V)>, i: int)
    requires
        distinct_keys(m),
        0 <= i < m.len(),
    ensures
        is_first(m, m[i].0@, i),
{
}

/// The index of the first entry with key `k`, if any.
pub fn find_key<V>(m: &Vec<(String, V)>, k: &str) -> (r: Option<usize>)
    ensures
        match r {
            Some(i) => is_first(m@, k@, i as int),
            None => !has_key(m@, k@),
        },
{
    let mut i: usize = 0;
    while i < m.len()
        invariant
            i <= m@.len(),
            forall|j: int| 0 <= j < i ==> m@[j].0@ != k@,
        decreases m@.len() - i,
    {
        if text_eq(m[i].0.as_str(), k) {
            return Some(i);
        }
        i = i + 1;
    }
    None
}

/// Whether no key occurs twice in a list of entries.
pub fn keys_distinct<V>(m: &Vec<(String, V)>) -> (r: bool)
    ensures
        r == distinct_keys(m@),
{
    let mut j: usize = 0;
    while j < m.len()
        invariant
            j <= m@.len(),
            forall|a: int, b: int| 0 <= a < b < j ==> m@[a].0@ != m@[b].0@,
        decreases m@.len() - j,
    {
        let mut i: usize = 0;
        while i < j
            invariant
                i <= j < m@.len(),
                forall|a: int| 0 <= a < i ==> m@[a].0@ != m@[j as int].0@,
            decreases j - i,
        {
            if text_eq(m[i].0.as_str(), m[j].0.as_str()) {
                return false;
            }
            i = i + 1;
        }
        j = j + 1;
    }
    true
}

/// The keys of a list of entries, as strings.
pub fn entry_keys<V>(m: &Vec<(String, V)>) -> (r: Vec<String>)
    ensures
        views(r@) == keys_of(m@),
{
    let mut out: Vec<String> = Vec::new();
    let mut i: usize = 0;
    while i < m.len()
        invariant
            i <= m@.len(),
            out@.len() == i,
            forall|j: int| 0 <= j < i ==> out@[j]@ == m@[j].0@,
        decreases m@.len() - i,
    {
        out.push(m[i].0.clone());
        i = i + 1;
    }
    assert(views(out@) =~= keys_of(m@));
    out
}

} // verus!
