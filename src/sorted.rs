use vstd::prelude::*;
use crate::order::{
    lemma_text_lt_irreflexive, lemma_text_lt_total, lemma_text_lt_transitive, str_less, text_lt,
};

verus! {

/// Strings, kept sorted without repeats.
pub open spec fn ascending(s: Seq<Seq<char>>) -> bool {
    forall|i: int, j: int| 0 <= i < j < s.len() ==> text_lt(#[trigger] s[i], #[trigger] s[j])
}

/// The characters of each string of `v`.
pub open spec fn texts(v: Seq<String>) -> Seq<Seq<char>> {
    v.map_values(|t: String| t@)
}

/// The view of each entry of a list of keyed entries.
pub open spec fn entry_views<V: View>(s: Seq<(String, V)>) -> Seq<(Seq<char>, V::V)> {
    s.map_values(|e: (String, V)| (e.0@, e.1@))
}

/// The keys of a list of entries, in their order.
pub open spec fn keys_of<W>(e: Seq<(Seq<char>, W)>) -> Seq<Seq<char>> {
    e.map_values(|p: (Seq<char>, W)| p.0)
}

pub open spec fn has_key<W>(e: Seq<(Seq<char>, W)>, k: Seq<char>) -> bool {
    exists|i: int| 0 <= i < e.len() && (#[trigger] e[i]).0 == k
}

/// Where key `k` stands in `e`, if it does.
pub open spec fn index_of<W>(e: Seq<(Seq<char>, W)>, k: Seq<char>) -> int {
    choose|i: int| 0 <= i < e.len() && (#[trigger] e[i]).0 == k
}

/// The mapping that a list of entries with distinct keys stands for.
pub open spec fn map_of<W>(e: Seq<(Seq<char>, W)>) -> Map<Seq<char>, W> {
    Map::new(|k: Seq<char>| has_key(e, k), |k: Seq<char>| e[index_of(e, k)].1)
}

proof fn lemma_ascending_distinct(s: Seq<Seq<char>>)
    requires
        ascending(s),
    ensures
        forall|i: int, j: int|
            0 <= i < s.len() && 0 <= j < s.len() && i != j ==> #[trigger] s[i] != #[trigger] s[j],
{
    assert forall|i: int, j: int|
        0 <= i < s.len() && 0 <= j < s.len() && i != j implies #[trigger] s[i] != #[trigger] s[j] by {
        lemma_text_lt_irreflexive(s[i]);
    }
}

/// A set of strings has one ascending listing: two ascending sequences
/// with the same elements are equal.
pub proof fn lemma_ascending_unique(a: Seq<Seq<char>>, b: Seq<Seq<char>>)
    requires
        ascending(a),
        ascending(b),
        a.to_set() == b.to_set(),
    ensures
        a == b,
    decreases a.len(),
{
    if a.len() == 0 || b.len() == 0 {
        if a.len() > 0 {
            assert(a.to_set().contains(a[0]));
        }
        if b.len() > 0 {
            assert(b.to_set().contains(b[0]));
        }
        assert(a =~= b);
    } else {
        lemma_ascending_distinct(a);
        lemma_ascending_distinct(b);
        assert(a.to_set().contains(b[0]));
        assert(b.to_set().contains(a[0]));
        let j = choose|j: int| 0 <= j < a.len() && a[j] == b[0];
        let k = choose|k: int| 0 <= k < b.len() && b[k] == a[0];
        if j > 0 && k > 0 {
            lemma_text_lt_transitive(a[0], b[0], a[0]);
            lemma_text_lt_irreflexive(a[0]);
        }
        let a1 = a.drop_first();
        let b1 = b.drop_first();
        assert forall|x: Seq<char>| a1.contains(x) <==> b1.contains(x) by {
            if a1.contains(x) {
                let i = choose|i: int| 0 <= i < a1.len() && a1[i] == x;
                assert(a[i + 1] == x);
                assert(b.to_set().contains(x));
                let m = choose|m: int| 0 <= m < b.len() && b[m] == x;
                assert(b1[m - 1] == x);
            }
            if b1.contains(x) {
                let i = choose|i: int| 0 <= i < b1.len() && b1[i] == x;
                assert(b[i + 1] == x);
                assert(a.to_set().contains(x));
                let m = choose|m: int| 0 <= m < a.len() && a[m] == x;
                assert(a1[m - 1] == x);
            }
        }
        assert(a1.to_set() =~= b1.to_set());
        lemma_ascending_unique(a1, b1);
        assert(a[0] == b[0]);
        assert forall|i: int| 0 < i < a.len() implies a[i] == b[i] by {
            assert(a[i] == a1[i - 1]);
            assert(b[i] == b1[i - 1]);
        }
        assert(a =~= b);
    }
}

/// Index of the first string of `s` that does not sort before `k`.
fn find_slot(s: &Vec<String>, k: &String) -> (p: usize)
    ensures
        p <= s@.len(),
        forall|i: int| 0 <= i < p ==> text_lt(#[trigger] s@[i]@, k@),
        p < s@.len() ==> !text_lt(s@[p as int]@, k@),
{
    let mut p: usize = 0;
    while p < s.len()
        invariant
            p <= s@.len(),
            forall|i: int| 0 <= i < p ==> text_lt(#[trigger] s@[i]@, k@),
        decreases s@.len() - p,
    {
        if !str_less(s[p].as_str(), k.as_str()) {
            return p;
        }
        p = p + 1;
    }
    p
}

/// Adds `t` to a sorted list of distinct strings, unless it is there already.
pub fn insert_text(s: &mut Vec<String>, t: String)
    requires
        ascending(texts(old(s)@)),
    ensures
        ascending(texts(final(s)@)),
        texts(final(s)@).to_set() == texts(old(s)@).to_set().insert(t@),
{
    let ghost old_t = texts(s@);
    let p = find_slot(s, &t);
    if p < s.len() && s[p] == t {
        proof {
            assert(texts(s@).to_set() =~= old_t.to_set().insert(t@)) by {
                assert(old_t[p as int] == t@);
            }
        }
        return;
    }
    proof {
        if p < s@.len() {
            lemma_text_lt_total(s@[p as int]@, t@);
        }
    }
    s.insert(p, t);
    proof {
        let nt = texts(s@);
        assert(nt =~= old_t.insert(p as int, t@));
        assert forall|i: int, j: int| 0 <= i < j < nt.len() implies text_lt(
            #[trigger] nt[i],
            #[trigger] nt[j],
        ) by {
            if j == p && p + 1 < nt.len() {
            } else if i == p && j > p + 1 {
                lemma_text_lt_transitive(nt[i], nt[p + 1], nt[j]);
            } else if i < p && j > p {
            }
        }
        assert forall|x: Seq<char>| nt.contains(x) <==> old_t.contains(x) || x == t@ by {
            if nt.contains(x) {
                let k = choose|k: int| 0 <= k < nt.len() && nt[k] == x;
                if k < p {
                    assert(old_t[k] == x);
                } else if k > p {
                    assert(old_t[k - 1] == x);
                }
            }
            if old_t.contains(x) {
                let k = choose|k: int| 0 <= k < old_t.len() && old_t[k] == x;
                if k < p {
                    assert(nt[k] == x);
                } else {
                    assert(nt[k + 1] == x);
                }
            }
            if x == t@ {
                assert(nt[p as int] == x);
            }
        }
        assert(nt.to_set() =~= old_t.to_set().insert(t@));
    }
}

/// Index of the first entry whose key does not sort before `k`.
fn find_key_slot<V>(s: &Vec<(String, V)>, k: &String) -> (p: usize)
    ensures
        p <= s@.len(),
        forall|i: int| 0 <= i < p ==> text_lt((#[trigger] s@[i]).0@, k@),
        p < s@.len() ==> !text_lt(s@[p as int].0@, k@),
{
    let mut p: usize = 0;
    while p < s.len()
        invariant
            p <= s@.len(),
            forall|i: int| 0 <= i < p ==> text_lt((#[trigger] s@[i]).0@, k@),
        decreases s@.len() - p,
    {
        if !str_less(s[p].0.as_str(), k.as_str()) {
            return p;
        }
        p = p + 1;
    }
    p
}

proof fn lemma_map_of_at<W>(e: Seq<(Seq<char>, W)>, i: int)
    requires
        ascending(keys_of(e)),
        0 <= i < e.len(),
    ensures
        map_of(e).contains_key(e[i].0),
        map_of(e)[e[i].0] == e[i].1,
{
    lemma_ascending_distinct(keys_of(e));
    let k = e[i].0;
    assert(has_key(e, k));
    let c = index_of(e, k);
    assert(map_of(e)[k] == e[c].1);
    assert(keys_of(e)[c] == e[c].0);
    assert(keys_of(e)[i] == e[i].0);
}

/// Where `n` is `e` with one entry set to key `k` at `p`, and the keys of
/// `n` are sorted, `n` maps as `e` does, with `k` set to `v`.
proof fn lemma_map_of_set<W>(
    e: Seq<(Seq<char>, W)>,
    n: Seq<(Seq<char>, W)>,
    p: int,
    k: Seq<char>,
    v: W,
    replaced: bool,
)
    requires
        ascending(keys_of(e)),
        ascending(keys_of(n)),
        0 <= p < n.len(),
        n[p] == (k, v),
        replaced ==> p < e.len() && e[p].0 == k && n == e.update(p, (k, v)),
        !replaced ==> p <= e.len() && n == e.insert(p, (k, v)),
    ensures
        map_of(n) == map_of(e).insert(k, v),
{
    lemma_ascending_distinct(keys_of(n));
    assert forall|x: Seq<char>| #[trigger] map_of(n).contains_key(x) <==> map_of(e).contains_key(x)
        || x == k by {
        assert(map_of(n).contains_key(x) == has_key(n, x));
        assert(map_of(e).contains_key(x) == has_key(e, x));
        if has_key(n, x) {
            let c = index_of(n, x);
            if c < p || (replaced && c > p) {
                assert(e[c].0 == x);
            } else if c > p {
                assert(e[c - 1].0 == x);
            }
        }
        if has_key(e, x) {
            let c = index_of(e, x);
            if c < p || replaced {
                assert(n[c].0 == x);
            } else {
                assert(n[c + 1].0 == x);
            }
        }
        if x == k {
            assert(n[p].0 == x);
        }
    }
    assert forall|x: Seq<char>| #[trigger] map_of(n).contains_key(x) implies map_of(n)[x]
        == map_of(e).insert(k, v)[x] by {
        let c = index_of(n, x);
        lemma_map_of_at(n, c);
        assert(keys_of(n)[c] == x);
        assert(keys_of(n)[p] == k);
        if c < p || (replaced && c > p) {
            lemma_map_of_at(e, c);
        } else if c > p {
            lemma_map_of_at(e, c - 1);
        }
    }
    assert(map_of(n).dom() =~= map_of(e).insert(k, v).dom());
    assert(map_of(n) =~= map_of(e).insert(k, v));
}

/// Sets `key` to `value` in a list of entries sorted by key without repeats,
/// replacing the entry of that key if there is one.
pub fn insert_entry<V: View>(s: &mut Vec<(String, V)>, key: String, value: V)
    requires
        ascending(keys_of(entry_views(old(s)@))),
    ensures
        ascending(keys_of(entry_views(final(s)@))),
        map_of(entry_views(final(s)@)) == map_of(entry_views(old(s)@)).insert(key@, value@),
{
    let ghost e = entry_views(s@);
    let ghost k = key@;
    let ghost v = value@;
    let p = find_key_slot(s, &key);
    if p < s.len() && s[p].0 == key {
        s.set(p, (key, value));
        proof {
            let n = entry_views(s@);
            assert(n =~= e.update(p as int, (k, v)));
            assert(keys_of(n) =~= keys_of(e));
            lemma_map_of_set(e, n, p as int, k, v, true);
        }
        return;
    }
    proof {
        if p < s@.len() {
            lemma_text_lt_total(s@[p as int].0@, k);
        }
    }
    s.insert(p, (key, value));
    proof {
        let n = entry_views(s@);
        assert(n =~= e.insert(p as int, (k, v)));
        let nk = keys_of(n);
        assert(nk =~= keys_of(e).insert(p as int, k));
        assert forall|i: int, j: int| 0 <= i < j < nk.len() implies text_lt(
            #[trigger] nk[i],
            #[trigger] nk[j],
        ) by {
            if i == p && j > p + 1 {
                lemma_text_lt_transitive(nk[i], nk[p + 1], nk[j]);
            }
        }
        lemma_map_of_set(e, n, p as int, k, v, false);
    }
}

} // verus!
