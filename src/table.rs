//! Keyed tables: a `Vec` of `(key, value)` entries in which a key occurs at
//! most once, because putting an existing key replaces its entry in place.
use vstd::prelude::*;

verus! {

/// The position of the last entry with key `k`.
pub open spec fn key_index<K, V>(s: Seq<(K, V)>, k: K) -> Option<int>
    decreases s.len(),
{
    if s.len() == 0 {
        None
    } else if s.last().0 == k {
        Some(s.len() - 1)
    } else {
        key_index(s.drop_last(), k)
    }
}

/// The value stored under `k`, if any.
pub open spec fn key_lookup<K, V>(s: Seq<(K, V)>, k: K) -> Option<V> {
    match key_index(s, k) {
        Some(i) => Some(s[i].1),
        None => None,
    }
}

/// The table after `k` is given the value `v`: an entry with that key is
/// replaced where it stands, else the pair is appended.
pub open spec fn put_entry<K, V>(s: Seq<(K, V)>, k: K, v: V) -> Seq<(K, V)> {
    match key_index(s, k) {
        Some(i) => s.update(i, (k, v)),
        None => s.push((k, v)),
    }
}

/// A table with text keys, seen through the views of keys and values.
pub open spec fn named_view<V: View>(s: Seq<(String, V)>) -> Seq<(Seq<char>, V::V)> {
    s.map_values(|e: (String, V)| (e.0@, e.1@))
}

/// A table with code keys, seen through the views of its values.
pub open spec fn coded_view<V: View>(s: Seq<(u32, V)>) -> Seq<(u32, V::V)> {
    s.map_values(|e: (u32, V)| (e.0, e.1@))
}

pub proof fn lemma_key_index_bounds<K, V>(s: Seq<(K, V)>, k: K)
    ensures
        match key_index(s, k) {
            Some(i) => 0 <= i < s.len() && s[i].0 == k,
            None => forall|j: int| 0 <= j < s.len() ==> #[trigger] s[j].0 != k,
        },
    decreases s.len(),
{
    if s.len() > 0 && s.last().0 != k {
        lemma_key_index_bounds(s.drop_last(), k);
        if key_index(s, k) is None {
            assert forall|j: int| 0 <= j < s.len() implies #[trigger] s[j].0 != k by {
                if j < s.len() - 1 {
                    assert(s.drop_last()[j] == s[j]);
                }
            }
        }
    }
}

/// Finds the entry with text key `k`.
pub fn find_named<V: View>(v: &Vec<(String, V)>, k: &str) -> (r: Option<usize>)
    ensures
        r is Some <==> key_index(named_view(v@), k@) is Some,
        r is Some ==> r.unwrap() == key_index(named_view(v@), k@).unwrap(),
        r is Some ==> r.unwrap() < v@.len(),
{
    let ghost s = named_view(v@);
    let mut i: usize = v.len();
    assert(s.subrange(0, i as int) =~= s);
    while i > 0
        invariant
            i <= v@.len(),
            s == named_view(v@),
            key_index(s, k@) == key_index(s.subrange(0, i as int), k@),
        decreases i,
    {
        let ghost t = s.subrange(0, i as int);
        assert(t.drop_last() =~= s.subrange(0, i - 1));
        assert(t.last() == s[i - 1]);
        if same_key(&v[i - 1].0, k) {
            proof {
                lemma_key_index_bounds(s, k@);
            }
            return Some(i - 1);
        }
        i = i - 1;
    }
    assert(s.subrange(0, 0) =~= Seq::<(Seq<char>, V::V)>::empty());
    None
}

fn same_key(a: &String, b: &str) -> (r: bool)
    ensures
        r == (a@ == b@),
{
    crate::keys::same_text(a.as_str(), b)
}

/// Finds the entry with code key `k`.
pub fn find_coded<V: View>(v: &Vec<(u32, V)>, k: u32) -> (r: Option<usize>)
    ensures
        r is Some <==> key_index(coded_view(v@), k) is Some,
        r is Some ==> r.unwrap() == key_index(coded_view(v@), k).unwrap(),
        r is Some ==> r.unwrap() < v@.len(),
{
    let ghost s = coded_view(v@);
    let mut i: usize = v.len();
    assert(s.subrange(0, i as int) =~= s);
    while i > 0
        invariant
            i <= v@.len(),
            s == coded_view(v@),
            key_index(s, k) == key_index(s.subrange(0, i as int), k),
        decreases i,
    {
        let ghost t = s.subrange(0, i as int);
        assert(t.drop_last() =~= s.subrange(0, i - 1));
        assert(t.last() == s[i - 1]);
        if v[i - 1].0 == k {
            proof {
                lemma_key_index_bounds(s, k);
            }
            return Some(i - 1);
        }
        i = i - 1;
    }
    assert(s.subrange(0, 0) =~= Seq::<(u32, V::V)>::empty());
    None
}

/// Stores `x` under the text key `k`.
pub fn put_named<V: View>(v: &mut Vec<(String, V)>, k: String, x: V)
    ensures
        named_view(final(v)@) == put_entry(named_view(old(v)@), k@, x@),
{
    match find_named(v, k.as_str()) {
        Some(i) => {
            let ghost kv = k@;
            v.set(i, (k, x));
            assert(named_view(v@) =~= named_view(old(v)@).update(i as int, (kv, x@)));
        },
        None => {
            v.push((k, x));
            assert(named_view(v@) =~= named_view(old(v)@).push((k@, x@)));
        },
    }
}

/// Stores `x` under the code key `k`.
pub fn put_coded<V: View>(v: &mut Vec<(u32, V)>, k: u32, x: V)
    ensures
        coded_view(final(v)@) == put_entry(coded_view(old(v)@), k, x@),
{
    match find_coded(v, k) {
        Some(i) => {
            v.set(i, (k, x));
            assert(coded_view(v@) =~= coded_view(old(v)@).update(i as int, (k, x@)));
        },
        None => {
            v.push((k, x));
            assert(coded_view(v@) =~= coded_view(old(v)@).push((k, x@)));
        },
    }
}

/// Every value of a table has property `p`.
pub open spec fn all_values<K, V>(s: Seq<(K, V)>, p: spec_fn(V) -> bool) -> bool {
    forall|i: int| 0 <= i < s.len() ==> #[trigger] p(s[i].1)
}

pub proof fn lemma_put_entry_all<K, V>(s: Seq<(K, V)>, k: K, v: V, p: spec_fn(V) -> bool)
    requires
        all_values(s, p),
        p(v),
    ensures
        all_values(put_entry(s, k, v), p),
{
    lemma_key_index_bounds(s, k);
    let t = put_entry(s, k, v);
    assert forall|i: int| 0 <= i < t.len() implies #[trigger] p(t[i].1) by {
        if i < s.len() && t[i] != (k, v) {
            assert(t[i] == s[i]);
        }
    }
}

} // verus!
