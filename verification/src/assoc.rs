//! Association lists from strings to strings, looked up by their first
//! matching key.

use vstd::prelude::*;

use crate::models::settings::pairs_view;

verus! {

/// `i` is the first position whose key is `k`.
pub open spec fn is_first_key(m: Seq<(Seq<char>, Seq<char>)>, k: Seq<char>, i: int) -> bool {
    0 <= i < m.len() && m[i].0 == k && forall|j: int| 0 <= j < i ==> m[j].0 != k
}

/// The value of the first entry whose key is `k`.
pub open spec fn lookup(m: Seq<(Seq<char>, Seq<char>)>, k: Seq<char>) -> Option<Seq<char>> {
    if exists|i: int| 0 <= i < m.len() && m[i].0 == k {
        let i = choose|i: int| is_first_key(m, k, i);
        Some(m[i].1)
    } else {
        None
    }
}

/// `m` with the value of key `k` replaced by `v` at its first entry, or with
/// `(k, v)` appended when `k` has no entry.
pub open spec fn insert_entry(m: Seq<(Seq<char>, Seq<char>)>, k: Seq<char>, v: Seq<char>) -> Seq<(Seq<char>, Seq<char>)> {
    if exists|i: int| 0 <= i < m.len() && m[i].0 == k {
        let i = choose|i: int| is_first_key(m, k, i);
        m.update(i, (k, v))
    } else {
        m.push((k, v))
    }
}

/// The first entry with key `k` is at `i` whenever `i` is such an entry.
pub proof fn lemma_first_key_unique(m: Seq<(Seq<char>, Seq<char>)>, k: Seq<char>, i: int)
    requires
        is_first_key(m, k, i),
    ensures
        (choose|j: int| is_first_key(m, k, j)) == i,
        exists|j: int| 0 <= j < m.len() && m[j].0 == k,
{
    assert(is_first_key(m, k, i));
    let c = choose|j: int| is_first_key(m, k, j);
    assert(is_first_key(m, k, c));
    if c < i {
        assert(m[c].0 != k);
    } else if c > i {
        assert(m[i].0 != k);
    }
}

/// Where the first entry with key `k` is, if any.
pub fn find_key(m: &Vec<(String, String)>, k: &String) -> (r: Option<usize>)
    ensures
        match r {
            Some(i) => is_first_key(pairs_view(m@), k@, i as int),
            None => forall|j: int| 0 <= j < m.len() ==> pairs_view(m@)[j].0 != k@,
        },
{
    let ghost pv = pairs_view(m@);
    for i in 0..m.len()
        invariant
            pv == pairs_view(m@),
            forall|j: int| 0 <= j < i ==> pv[j].0 != k@,
    {
        if m[i].0 == *k {
            return Some(i);
        }
    }
    None
}

/// The value stored for key `k`.
pub fn get_value(m: &Vec<(String, String)>, k: &String) -> (r: Option<String>)
    ensures
        match r {
            Some(v) => lookup(pairs_view(m@), k@) == Some(v@),
            None => lookup(pairs_view(m@), k@) is None,
        },
{
    match find_key(m, k) {
        Some(i) => {
            proof { lemma_first_key_unique(pairs_view(m@), k@, i as int); }
            Some(m[i].1.clone())
        }
        None => None,
    }
}

/// Stores `v` for key `k`.
pub fn set_value(m: &mut Vec<(String, String)>, k: String, v: String)
    ensures
        pairs_view(final(m)@) == insert_entry(pairs_view(old(m)@), k@, v@),
{
    match find_key(m, &k) {
        Some(i) => {
            proof { lemma_first_key_unique(pairs_view(m@), k@, i as int); }
            m.set(i, (k, v));
            proof {
                assert(pairs_view(m@) =~= insert_entry(pairs_view(old(m)@), k@, v@));
            }
        }
        None => {
            m.push((k, v));
            proof {
                assert(pairs_view(m@) =~= insert_entry(pairs_view(old(m)@), k@, v@));
            }
        }
    }
}

/// A read after a write of the same key gives back the value written.
pub proof fn lemma_lookup_insert_same(m: Seq<(Seq<char>, Seq<char>)>, k: Seq<char>, v: Seq<char>)
    ensures
        lookup(insert_entry(m, k, v), k) == Some(v),
{
    let m2 = insert_entry(m, k, v);
    if exists|i: int| 0 <= i < m.len() && m[i].0 == k {
        let i = choose|i: int| is_first_key(m, k, i);
        assert(is_first_key(m, k, i)) by {
            // the least index with key k exists
            lemma_least_key_exists(m, k);
        }
        assert(is_first_key(m2, k, i));
        lemma_first_key_unique(m2, k, i);
    } else {
        assert(is_first_key(m2, k, m.len() as int));
        lemma_first_key_unique(m2, k, m.len() as int);
    }
}

/// When some entry has key `k`, there is a first one.
pub proof fn lemma_least_key_exists(m: Seq<(Seq<char>, Seq<char>)>, k: Seq<char>)
    requires
        exists|i: int| 0 <= i < m.len() && m[i].0 == k,
    ensures
        exists|i: int| is_first_key(m, k, i),
    decreases m.len(),
{
    if m[0].0 == k {
        assert(is_first_key(m, k, 0));
    } else {
        let w = choose|i: int| 0 <= i < m.len() && m[i].0 == k;
        let t = m.drop_first();
        assert(t[w - 1].0 == k);
        lemma_least_key_exists(t, k);
        let j = choose|j: int| is_first_key(t, k, j);
        assert forall|jj: int| 0 <= jj < j + 1 implies m[jj].0 != k by {
            if jj > 0 {
                assert(m[jj] == t[jj - 1]);
            }
        }
        assert(is_first_key(m, k, j + 1));
    }
}

/// A write leaves every other key as it was.
pub proof fn lemma_lookup_insert_other(m: Seq<(Seq<char>, Seq<char>)>, k: Seq<char>, v: Seq<char>, other: Seq<char>)
    requires
        other != k,
    ensures
        lookup(insert_entry(m, k, v), other) == lookup(m, other),
{
    let m2 = insert_entry(m, k, v);
    if exists|i: int| 0 <= i < m.len() && m[i].0 == k {
        lemma_least_key_exists(m, k);
        let i = choose|i: int| is_first_key(m, k, i);
        assert(m2 == m.update(i, (k, v)));
        assert forall|j: int| 0 <= j < m.len() && j != i implies m2[j] == m[j] by {}
        if exists|j: int| 0 <= j < m.len() && m[j].0 == other {
            lemma_least_key_exists(m, other);
            let j = choose|j: int| is_first_key(m, other, j);
            assert(j != i);
            assert(is_first_key(m2, other, j));
            lemma_first_key_unique(m2, other, j);
            lemma_first_key_unique(m, other, j);
        } else {
            assert(!exists|j: int| 0 <= j < m2.len() && m2[j].0 == other) by {
                assert forall|j: int| 0 <= j < m2.len() implies m2[j].0 != other by {
                    if j == i {} else { assert(m2[j] == m[j]); }
                }
            }
        }
    } else {
        assert(m2 == m.push((k, v)));
        if exists|j: int| 0 <= j < m.len() && m[j].0 == other {
            lemma_least_key_exists(m, other);
            let j = choose|j: int| is_first_key(m, other, j);
            assert(is_first_key(m2, other, j));
            lemma_first_key_unique(m2, other, j);
            lemma_first_key_unique(m, other, j);
        } else {
            assert(!exists|j: int| 0 <= j < m2.len() && m2[j].0 == other) by {
                assert forall|j: int| 0 <= j < m2.len() implies m2[j].0 != other by {
                    if j < m.len() { assert(m2[j] == m[j]); }
                }
            }
        }
    }
}

}
