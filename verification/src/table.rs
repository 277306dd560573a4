//! Keyed tables as sequences of rows: lookup by key and key uniqueness.

use vstd::prelude::*;

verus! {

/// The index of the last row whose key is `k`, or -1 when there is none.
pub open spec fn find_last<T, K>(rows: Seq<T>, key: spec_fn(T) -> K, k: K) -> int
    decreases rows.len(),
{
    if rows.len() == 0 {
        -1
    } else if key(rows.last()) == k {
        rows.len() - 1
    } else {
        find_last(rows.drop_last(), key, k)
    }
}

/// Whether some row has key `k`.
pub open spec fn has_key<T, K>(rows: Seq<T>, key: spec_fn(T) -> K, k: K) -> bool {
    exists|i: int| 0 <= i < rows.len() && key(#[trigger] rows[i]) == k
}

/// No two rows share a key.
pub open spec fn unique_by<T, K>(rows: Seq<T>, key: spec_fn(T) -> K) -> bool {
    forall|i: int, j: int|
        0 <= i < rows.len() && 0 <= j < rows.len() && i != j ==> key(#[trigger] rows[i]) != key(
            #[trigger] rows[j],
        )
}

/// What `find_last` yields: a matching index with no later match, or -1
/// when nothing matches.
pub proof fn lemma_find_last<T, K>(rows: Seq<T>, key: spec_fn(T) -> K, k: K)
    ensures
        -1 <= find_last(rows, key, k) < rows.len(),
        find_last(rows, key, k) >= 0 ==> key(rows[find_last(rows, key, k)]) == k,
        forall|j: int| find_last(rows, key, k) < j < rows.len() ==> key(#[trigger] rows[j]) != k,
        find_last(rows, key, k) == -1 <==> !has_key(rows, key, k),
    decreases rows.len(),
{
    if rows.len() > 0 {
        let front = rows.drop_last();
        lemma_find_last(front, key, k);
        if key(rows.last()) != k {
            assert forall|j: int| find_last(rows, key, k) < j < rows.len() implies key(
                #[trigger] rows[j],
            ) != k by {
                if j < rows.len() - 1 {
                    assert(rows[j] == front[j]);
                }
            }
            if find_last(rows, key, k) == -1 {
                assert(!has_key(rows, key, k)) by {
                    if has_key(rows, key, k) {
                        let i = choose|i: int| 0 <= i < rows.len() && key(#[trigger] rows[i]) == k;
                        if i < rows.len() - 1 {
                            assert(front[i] == rows[i]);
                            assert(has_key(front, key, k));
                        }
                    }
                }
            } else {
                let f = find_last(rows, key, k);
                assert(rows[f] == front[f]);
            }
        } else {
            assert(key(rows[rows.len() - 1]) == k);
        }
    }
}

/// An index that matches and has no later match is the one `find_last`
/// yields.
pub proof fn lemma_find_last_is<T, K>(rows: Seq<T>, key: spec_fn(T) -> K, k: K, i: int)
    requires
        0 <= i < rows.len(),
        key(rows[i]) == k,
        forall|j: int| i < j < rows.len() ==> key(#[trigger] rows[j]) != k,
    ensures
        find_last(rows, key, k) == i,
{
    lemma_find_last(rows, key, k);
    let f = find_last(rows, key, k);
    if f < i {
        assert(key(rows[i]) != k);
    }
    if f > i {
        assert(key(rows[f]) != k);
    }
}

/// In a table with unique keys, the row with key `k` is the last such.
pub proof fn lemma_find_unique<T, K>(rows: Seq<T>, key: spec_fn(T) -> K, i: int)
    requires
        unique_by(rows, key),
        0 <= i < rows.len(),
    ensures
        find_last(rows, key, key(rows[i])) == i,
{
    assert forall|j: int| i < j < rows.len() implies key(#[trigger] rows[j]) != key(rows[i]) by {}
    lemma_find_last_is(rows, key, key(rows[i]), i);
}

/// Appending a row with a fresh key keeps keys unique.
pub proof fn lemma_unique_push<T, K>(rows: Seq<T>, key: spec_fn(T) -> K, x: T)
    requires
        unique_by(rows, key),
        !has_key(rows, key, key(x)),
    ensures
        unique_by(rows.push(x), key),
        has_key(rows.push(x), key, key(x)),
{
    let r = rows.push(x);
    assert forall|i: int, j: int|
        0 <= i < r.len() && 0 <= j < r.len() && i != j implies key(#[trigger] r[i]) != key(
        #[trigger] r[j],
    ) by {
        if i == rows.len() {
            assert(r[j] == rows[j]);
        } else if j == rows.len() {
            assert(r[i] == rows[i]);
        } else {
            assert(r[i] == rows[i] && r[j] == rows[j]);
        }
    }
    assert(key(r[rows.len() as int]) == key(x));
}

/// Replacing a row by one with the same key keeps keys unique.
pub proof fn lemma_unique_update<T, K>(rows: Seq<T>, key: spec_fn(T) -> K, i: int, x: T)
    requires
        unique_by(rows, key),
        0 <= i < rows.len(),
        key(x) == key(rows[i]),
    ensures
        unique_by(rows.update(i, x), key),
{
    let r = rows.update(i, x);
    assert forall|a: int, b: int|
        0 <= a < r.len() && 0 <= b < r.len() && a != b implies key(#[trigger] r[a]) != key(
        #[trigger] r[b],
    ) by {
        assert(key(r[a]) == key(rows[a]));
        assert(key(r[b]) == key(rows[b]));
    }
}

/// Whether a key occurs after replacing a row by one with the same key.
pub proof fn lemma_has_key_update<T, K>(rows: Seq<T>, key: spec_fn(T) -> K, i: int, x: T, k: K)
    requires
        0 <= i < rows.len(),
        key(x) == key(rows[i]),
    ensures
        has_key(rows.update(i, x), key, k) == has_key(rows, key, k),
{
    let r = rows.update(i, x);
    if has_key(r, key, k) {
        let j = choose|j: int| 0 <= j < r.len() && key(#[trigger] r[j]) == k;
        assert(key(rows[j]) == k);
    }
    if has_key(rows, key, k) {
        let j = choose|j: int| 0 <= j < rows.len() && key(#[trigger] rows[j]) == k;
        assert(key(r[j]) == k);
    }
}

/// Replacing a row by one with the same key moves no key's last match.
pub proof fn lemma_find_last_update<T, K>(rows: Seq<T>, key: spec_fn(T) -> K, i: int, x: T, k: K)
    requires
        0 <= i < rows.len(),
        key(x) == key(rows[i]),
    ensures
        find_last(rows.update(i, x), key, k) == find_last(rows, key, k),
    decreases rows.len(),
{
    let r = rows.update(i, x);
    if i == rows.len() - 1 {
        assert(r.drop_last() =~= rows.drop_last());
    } else {
        assert(r.drop_last() =~= rows.drop_last().update(i, x));
        lemma_find_last_update(rows.drop_last(), key, i, x, k);
    }
}

/// Appending a row makes it the last match of its own key and moves no
/// other key's last match.
pub proof fn lemma_find_last_push<T, K>(rows: Seq<T>, key: spec_fn(T) -> K, x: T, k: K)
    ensures
        find_last(rows.push(x), key, k) == if key(x) == k {
            rows.len() as int
        } else {
            find_last(rows, key, k)
        },
{
    assert(rows.push(x).drop_last() =~= rows);
}

/// Appending a row loses no key.
pub proof fn lemma_has_key_push_all<T, K>(rows: Seq<T>, key: spec_fn(T) -> K, x: T)
    ensures
        forall|k: K| has_key(rows, key, k) ==> #[trigger] has_key(rows.push(x), key, k),
{
    assert forall|k: K| has_key(rows, key, k) implies #[trigger] has_key(rows.push(x), key, k) by {
        let j = choose|j: int| 0 <= j < rows.len() && key(#[trigger] rows[j]) == k;
        assert(rows.push(x)[j] == rows[j]);
    }
}

/// Replacing a row by one with the same key changes no key's presence.
pub proof fn lemma_has_key_update_all<T, K>(rows: Seq<T>, key: spec_fn(T) -> K, i: int, x: T)
    requires
        0 <= i < rows.len(),
        key(x) == key(rows[i]),
    ensures
        forall|k: K| #[trigger] has_key(rows.update(i, x), key, k) == has_key(rows, key, k),
{
    assert forall|k: K| #[trigger] has_key(rows.update(i, x), key, k) == has_key(rows, key, k) by {
        lemma_has_key_update(rows, key, i, x, k);
    }
}

} // verus!
