//! Stable sorting by text or integer keys.
//!
//! A sort is returned as a permutation of indices. Ties keep their input
//! relative order, so the permutation is the one a stable sort (`sort_by`)
//! produces: among distinct indices the order "key first, then index" is
//! strict and total, and exactly one permutation is ordered by it.
use vstd::prelude::*;
use crate::text::{chars_lt, lemma_text_lt_irreflexive, lemma_text_lt_total, lemma_text_lt_transitive, text_lt};

verus! {

/// Whether index `i` comes before index `j` when sorting by `keys`
/// (ascending, or descending when `desc`), ties broken by position.
pub open spec fn text_key_before(keys: Seq<Seq<char>>, desc: bool, i: int, j: int) -> bool {
    if desc {
        text_lt(keys[j], keys[i]) || (keys[i] == keys[j] && i < j)
    } else {
        text_lt(keys[i], keys[j]) || (keys[i] == keys[j] && i < j)
    }
}

/// Whether index `i` comes before index `j` when sorting by `keys`
/// in descending order, ties broken by position.
pub open spec fn count_key_before(keys: Seq<i128>, i: int, j: int) -> bool {
    keys[j] < keys[i] || (keys[i] == keys[j] && i < j)
}

/// `p` lists distinct indices below `n`.
pub open spec fn distinct_indices(p: Seq<usize>, n: nat) -> bool {
    &&& forall|a: int| 0 <= a < p.len() ==> #[trigger] p[a] < n
    &&& forall|a: int, b: int| 0 <= a < b < p.len() ==> p[a] != p[b]
}

/// `p` is the stable ordering of the indices of `keys`.
pub open spec fn is_text_sort(keys: Seq<Seq<char>>, desc: bool, p: Seq<usize>) -> bool {
    &&& p.len() == keys.len()
    &&& distinct_indices(p, keys.len())
    &&& forall|a: int, b: int|
        0 <= a < b < p.len() ==> text_key_before(keys, desc, #[trigger] p[a] as int, #[trigger] p[b] as int)
}

/// `p` is the stable descending ordering of the indices of `keys`.
pub open spec fn is_count_sort(keys: Seq<i128>, p: Seq<usize>) -> bool {
    &&& p.len() == keys.len()
    &&& distinct_indices(p, keys.len())
    &&& forall|a: int, b: int|
        0 <= a < b < p.len() ==> count_key_before(keys, #[trigger] p[a] as int, #[trigger] p[b] as int)
}

/// The items of `items` in the order `p` lists them.
pub open spec fn permuted<T>(items: Seq<T>, p: Seq<usize>) -> Seq<T> {
    Seq::new(p.len(), |k: int| items[p[k] as int])
}

proof fn lemma_text_key_before_transitive(keys: Seq<Seq<char>>, desc: bool, i: int, j: int, k: int)
    requires
        text_key_before(keys, desc, i, j),
        text_key_before(keys, desc, j, k),
    ensures
        text_key_before(keys, desc, i, k),
{
    if desc {
        if text_lt(keys[k], keys[j]) && text_lt(keys[j], keys[i]) {
            lemma_text_lt_transitive(keys[k], keys[j], keys[i]);
        }
    } else {
        if text_lt(keys[i], keys[j]) && text_lt(keys[j], keys[k]) {
            lemma_text_lt_transitive(keys[i], keys[j], keys[k]);
        }
    }
}

proof fn lemma_text_key_before_total(keys: Seq<Seq<char>>, desc: bool, i: int, j: int)
    requires
        i != j,
    ensures
        text_key_before(keys, desc, i, j) || text_key_before(keys, desc, j, i),
{
    lemma_text_lt_total(keys[i], keys[j]);
}

fn text_key_before_exec(keys: &Vec<Vec<char>>, desc: bool, i: usize, j: usize) -> (r: bool)
    requires
        i < keys.len(),
        j < keys.len(),
    ensures
        r == text_key_before(keys@.map_values(|k: Vec<char>| k@), desc, i as int, j as int),
{
    let ghost kv = keys@.map_values(|k: Vec<char>| k@);
    let a = &keys[i];
    let b = &keys[j];
    assert(kv[i as int] == a@);
    assert(kv[j as int] == b@);
    let same: bool = !chars_lt(a, b) && !chars_lt(b, a);
    proof {
        lemma_text_lt_total(a@, b@);
        lemma_text_lt_irreflexive(a@);
    }
    if desc {
        chars_lt(b, a) || (same && i < j)
    } else {
        chars_lt(a, b) || (same && i < j)
    }
}

/// The stable sort of the indices `0..keys.len()` by `keys`
/// (ascending, or descending when `desc`).
pub fn sort_by_text(keys: &Vec<Vec<char>>, desc: bool) -> (p: Vec<usize>)
    ensures
        is_text_sort(keys@.map_values(|k: Vec<char>| k@), desc, p@),
{
    let ghost kv = keys@.map_values(|k: Vec<char>| k@);
    let n: usize = keys.len();
    let mut p: Vec<usize> = Vec::new();
    let mut i: usize = 0;
    while i < n
        invariant
            n == keys@.len(),
            kv == keys@.map_values(|k: Vec<char>| k@),
            i <= n,
            p@.len() == i,
            forall|a: int| 0 <= a < p@.len() ==> #[trigger] p@[a] < i,
            forall|a: int, b: int| 0 <= a < b < p@.len() ==> p@[a] != p@[b],
            forall|a: int, b: int|
                0 <= a < b < p@.len() ==> text_key_before(kv, desc, #[trigger] p@[a] as int, #[trigger] p@[b] as int),
        decreases n - i,
    {
        let mut pos: usize = 0;
        while pos < p.len() && !text_key_before_exec(keys, desc, i, p[pos])
            invariant
                n == keys@.len(),
                kv == keys@.map_values(|k: Vec<char>| k@),
                i < n,
                p@.len() == i,
                pos <= p@.len(),
                forall|a: int| 0 <= a < p@.len() ==> #[trigger] p@[a] < i,
                forall|a: int| 0 <= a < pos ==> !text_key_before(kv, desc, i as int, #[trigger] p@[a] as int),
            decreases p@.len() - pos,
        {
            pos = pos + 1;
        }
        let ghost old_p = p@;
        assert forall|a: int| 0 <= a < pos implies text_key_before(kv, desc, #[trigger] old_p[a] as int, i as int) by {
            lemma_text_key_before_total(kv, desc, old_p[a] as int, i as int);
        }
        assert forall|a: int| pos <= a < old_p.len() implies text_key_before(kv, desc, i as int, #[trigger] old_p[a] as int) by {
            if a > pos {
                lemma_text_key_before_transitive(kv, desc, i as int, old_p[pos as int] as int, old_p[a] as int);
            }
        }
        p.insert(pos, i);
        assert(p@ == old_p.insert(pos as int, i));
        assert forall|a: int, b: int| 0 <= a < b < p@.len() implies text_key_before(kv, desc, #[trigger] p@[a] as int, #[trigger] p@[b] as int) by {
            if b < pos {
            } else if b == pos {
            } else if a < pos {
                assert(p@[b] == old_p[b - 1]);
                lemma_text_key_before_transitive(kv, desc, p@[a] as int, i as int, p@[b] as int);
            } else if a == pos {
                assert(p@[b] == old_p[b - 1]);
            } else {
                assert(p@[a] == old_p[a - 1]);
                assert(p@[b] == old_p[b - 1]);
            }
        }
        assert forall|a: int, b: int| 0 <= a < b < p@.len() implies p@[a] != p@[b] by {
            if a < pos && b == pos {
            } else if a < pos && b > pos {
                assert(p@[b] == old_p[b - 1]);
            } else if a == pos {
                assert(p@[b] == old_p[b - 1]);
            } else if a > pos {
                assert(p@[a] == old_p[a - 1]);
                assert(p@[b] == old_p[b - 1]);
            }
        }
        i = i + 1;
    }
    p
}

/// The stable sort of the indices `0..keys.len()` by `keys`, largest first.
pub fn sort_by_count_desc(keys: &Vec<i128>) -> (p: Vec<usize>)
    ensures
        is_count_sort(keys@, p@),
{
    let n: usize = keys.len();
    let mut p: Vec<usize> = Vec::new();
    let mut i: usize = 0;
    while i < n
        invariant
            n == keys@.len(),
            i <= n,
            p@.len() == i,
            forall|a: int| 0 <= a < p@.len() ==> #[trigger] p@[a] < i,
            forall|a: int, b: int| 0 <= a < b < p@.len() ==> p@[a] != p@[b],
            forall|a: int, b: int|
                0 <= a < b < p@.len() ==> count_key_before(keys@, #[trigger] p@[a] as int, #[trigger] p@[b] as int),
        decreases n - i,
    {
        let mut pos: usize = 0;
        while pos < p.len() && !(keys[p[pos]] < keys[i])
            invariant
                n == keys@.len(),
                i < n,
                p@.len() == i,
                pos <= p@.len(),
                forall|a: int| 0 <= a < p@.len() ==> #[trigger] p@[a] < i,
                forall|a: int| 0 <= a < pos ==> !count_key_before(keys@, i as int, #[trigger] p@[a] as int),
            decreases p@.len() - pos,
        {
            pos = pos + 1;
        }
        let ghost old_p = p@;
        p.insert(pos, i);
        assert(p@ == old_p.insert(pos as int, i));
        assert forall|a: int, b: int| 0 <= a < b < p@.len() implies count_key_before(keys@, #[trigger] p@[a] as int, #[trigger] p@[b] as int) by {
            if b < pos {
            } else if b == pos {
            } else if a < pos {
                assert(p@[b] == old_p[b - 1]);
            } else if a == pos {
                assert(p@[b] == old_p[b - 1]);
            } else {
                assert(p@[a] == old_p[a - 1]);
                assert(p@[b] == old_p[b - 1]);
            }
        }
        assert forall|a: int, b: int| 0 <= a < b < p@.len() implies p@[a] != p@[b] by {
            if a < pos && b == pos {
            } else if a < pos && b > pos {
                assert(p@[b] == old_p[b - 1]);
            } else if a == pos {
                assert(p@[b] == old_p[b - 1]);
            } else if a > pos {
                assert(p@[a] == old_p[a - 1]);
                assert(p@[b] == old_p[b - 1]);
            }
        }
        i = i + 1;
    }
    p
}

/// Rearranges `items` into the order that `p` lists.
pub fn apply_permutation<T>(items: Vec<T>, p: &Vec<usize>) -> (out: Vec<T>)
    requires
        distinct_indices(p@, items@.len()),
    ensures
        out@ == permuted(items@, p@),
{
    let ghost orig = items@;
    let n: usize = items.len();
    let mut items = items;
    let mut rev: Vec<Option<T>> = Vec::new();
    while items.len() > 0
        invariant
            n == orig.len(),
            rev@.len() + items@.len() == n,
            items@ == orig.subrange(0, items@.len() as int),
            forall|k: int| 0 <= k < rev@.len() ==> #[trigger] rev@[k] == Some(orig[n - 1 - k]),
        decreases items@.len(),
    {
        let x = items.pop().unwrap();
        rev.push(Some(x));
        assert(items@ =~= orig.subrange(0, items@.len() as int));
    }
    let mut out: Vec<T> = Vec::new();
    let mut k: usize = 0;
    while k < p.len()
        invariant
            n == orig.len(),
            rev@.len() == n,
            distinct_indices(p@, n as nat),
            k <= p@.len(),
            out@ == permuted(orig, p@.subrange(0, k as int)),
            forall|idx: int|
                0 <= idx < n ==> #[trigger] rev@[n - 1 - idx] == (if (exists|t: int|
                    0 <= t < k && p@[t] == idx) {
                    None
                } else {
                    Some(orig[idx])
                }),
        decreases p@.len() - k,
    {
        let idx: usize = p[k];
        assert(!(exists|t: int| 0 <= t < k && p@[t] == idx));
        let mut slot: Option<T> = None;
        std::mem::swap(&mut slot, &mut rev[n - 1 - idx]);
        assert(slot == Some(orig[idx as int]));
        out.push(slot.unwrap());
        proof {
            assert forall|j: int|
                0 <= j < n implies #[trigger] rev@[n - 1 - j] == (if (exists|t: int|
                    0 <= t < k + 1 && p@[t] == j) {
                    None
                } else {
                    Some(orig[j])
                }) by {
                if j == idx {
                    assert(p@[k as int] == j);
                } else {
                    assert(n - 1 - j != n - 1 - idx);
                    if exists|t: int| 0 <= t < k + 1 && p@[t] == j {
                        let t = choose|t: int| 0 <= t < k + 1 && p@[t] == j;
                        assert(t < k);
                    }
                }
            }
        }
        k = k + 1;
        assert(out@ =~= permuted(orig, p@.subrange(0, k as int)));
    }
    assert(p@.subrange(0, p@.len() as int) =~= p@);
    out
}

} // verus!
