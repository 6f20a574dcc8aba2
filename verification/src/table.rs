use vstd::prelude::*;

use crate::models::Row;

verus! {

/// Keys grow strictly along the table: rows are kept in the order of their
/// primary key, and no key occurs twice.
pub open spec fn keys_increasing<T: Row>(s: Seq<T>) -> bool {
    forall|i: int, j: int| 0 <= i < j < s.len() ==> s[i].key_of() < s[j].key_of()
}

/// The key that an auto-increment primary key gives the next row: one more
/// than the last key, or 1 in an empty table.
pub open spec fn next_key<T: Row>(s: Seq<T>) -> int {
    if s.len() == 0 {
        1
    } else {
        s.last().key_of() + 1
    }
}

/// The table can take `n` more rows without its keys leaving `i32`.
pub open spec fn has_room<T: Row>(s: Seq<T>, n: int) -> bool {
    next_key(s) + n - 1 <= i32::MAX
}

/// The key of the next row, if it fits in `i32`.
pub fn next_key_of<T: Row>(rows: &Vec<T>) -> (r: Option<i32>)
    ensures
        r is Some <==> has_room(rows@, 1),
        r matches Some(k) ==> k == next_key(rows@),
{
    if rows.len() == 0 {
        Some(1)
    } else {
        let last = rows[rows.len() - 1].key();
        if last == i32::MAX {
            None
        } else {
            Some(last + 1)
        }
    }
}

/// Whether the table can take `n` more rows.
pub fn room_for<T: Row>(rows: &Vec<T>, n: i32) -> (r: bool)
    requires
        n >= 1,
    ensures
        r == has_room(rows@, n as int),
{
    if rows.len() == 0 {
        true
    } else {
        let last = rows[rows.len() - 1].key() as i64;
        last + (n as i64) <= i32::MAX as i64
    }
}

/// Pushing a row with the next key keeps keys increasing.
pub proof fn lemma_push_keeps_increasing<T: Row>(s: Seq<T>, x: T)
    requires
        keys_increasing(s),
        x.key_of() == next_key(s),
    ensures
        keys_increasing(s.push(x)),
        next_key(s.push(x)) == next_key(s) + 1,
{
    assert forall|i: int, j: int| 0 <= i < j < s.push(x).len() implies s.push(x)[i].key_of()
        < s.push(x)[j].key_of() by {
        if j == s.len() {
            if s.len() > 0 {
                assert(s[i].key_of() <= s.last().key_of());
            }
        }
    }
}

/// Keeping only some rows of a table keeps its keys increasing.
pub proof fn lemma_filter_keeps_increasing<T: Row>(s: Seq<T>, p: spec_fn(T) -> bool)
    requires
        keys_increasing(s),
    ensures
        keys_increasing(s.filter(p)),
    decreases s.len(),
{
    reveal(Seq::filter);
    if s.len() > 0 {
        let rest = s.drop_last();
        assert(keys_increasing(rest)) by {
            assert forall|i: int, j: int| 0 <= i < j < rest.len() implies rest[i].key_of() < rest[j].key_of() by {
                assert(rest[i] == s[i] && rest[j] == s[j]);
            }
        }
        lemma_filter_keeps_increasing(rest, p);
        let f = rest.filter(p);
        if p(s.last()) {
            assert forall|k: int| 0 <= k < f.len() implies #[trigger] f[k].key_of() < s.last().key_of() by {
                assert(f.contains(f[k]));
                rest.lemma_filter_contains_rev(p, f[k]);
                let m = choose|m: int| 0 <= m < rest.len() && rest[m] == f[k];
                assert(s[m] == rest[m]);
            }
            let g = f.push(s.last());
            assert(s.filter(p) == g);
            assert forall|i: int, j: int| 0 <= i < j < g.len() implies g[i].key_of() < g[j].key_of() by {
                if j == g.len() - 1 {
                    assert(g[i] == f[i]);
                } else {
                    assert(g[i] == f[i] && g[j] == f[j]);
                }
            }
        } else {
            assert(s.filter(p) == f);
        }
    }
}

/// Replacing a row by one with the same key keeps keys increasing.
pub proof fn lemma_update_keeps_increasing<T: Row>(s: Seq<T>, i: int, x: T)
    requires
        keys_increasing(s),
        0 <= i < s.len(),
        x.key_of() == s[i].key_of(),
    ensures
        keys_increasing(s.update(i, x)),
        next_key(s.update(i, x)) == next_key(s),
{
    assert forall|a: int, b: int| 0 <= a < b < s.update(i, x).len() implies s.update(i, x)[a].key_of()
        < s.update(i, x)[b].key_of() by {
        assert(s[a].key_of() < s[b].key_of());
    }
}

/// With increasing keys, a key occurs at one index at most.
pub proof fn lemma_key_unique<T: Row>(s: Seq<T>, i: int, j: int)
    requires
        keys_increasing(s),
        0 <= i < s.len(),
        0 <= j < s.len(),
        s[i].key_of() == s[j].key_of(),
    ensures
        i == j,
{
    if i < j {
        assert(s[i].key_of() < s[j].key_of());
    } else if j < i {
        assert(s[j].key_of() < s[i].key_of());
    }
}

/// There is a row with this key.
pub open spec fn key_exists<T: Row>(s: Seq<T>, k: i32) -> bool {
    exists|i: int| 0 <= i < s.len() && #[trigger] s[i].key_of() == k
}

/// The position of the row with this key.
pub open spec fn key_index<T: Row>(s: Seq<T>, k: i32) -> int {
    choose|i: int| 0 <= i < s.len() && #[trigger] s[i].key_of() == k
}

/// The position of the row with key `k`, if there is one.
pub fn find_key<T: Row>(rows: &Vec<T>, k: i32) -> (r: Option<usize>)
    requires
        keys_increasing(rows@),
    ensures
        r is Some <==> key_exists(rows@, k),
        r matches Some(i) ==> i == key_index(rows@, k) && i < rows@.len(),
{
    let n = rows.len();
    let mut i: usize = 0;
    while i < n
        invariant
            n == rows@.len(),
            i <= n,
            keys_increasing(rows@),
            forall|j: int| 0 <= j < i ==> rows@[j].key_of() != k,
        decreases n - i,
    {
        if rows[i].key() == k {
            proof {
                let j = key_index(rows@, k);
                assert(rows@[i as int].key_of() == k);
                lemma_key_unique(rows@, i as int, j);
            }
            return Some(i);
        }
        i = i + 1;
    }
    None
}

/// Copies of the rows, last first.
pub fn reversed<T: Row>(rows: &Vec<T>) -> (r: Vec<T>)
    ensures
        r@ == rows@.reverse(),
{
    let n = rows.len();
    let mut r: Vec<T> = Vec::new();
    let mut k: usize = 0;
    while k < n
        invariant
            n == rows@.len(),
            k <= n,
            r@.len() == k,
            forall|j: int| 0 <= j < k ==> r@[j] == rows@[n - 1 - j],
        decreases n - k,
    {
        r.push(rows[n - 1 - k].duplicate());
        k = k + 1;
    }
    assert(r@ =~= rows@.reverse());
    r
}

/// Whether the keys grow strictly along the table.
pub fn check_keys_increasing<T: Row>(rows: &Vec<T>) -> (r: bool)
    ensures
        r == keys_increasing(rows@),
{
    let n = rows.len();
    if n == 0 {
        return true;
    }
    let mut i: usize = 1;
    while i < n
        invariant
            n == rows@.len(),
            1 <= i <= n,
            forall|a: int, b: int| 0 <= a < b < i ==> rows@[a].key_of() < rows@[b].key_of(),
        decreases n - i,
    {
        if rows[i - 1].key() >= rows[i].key() {
            return false;
        }
        assert forall|a: int, b: int| 0 <= a < b < i + 1 implies rows@[a].key_of() < rows@[b].key_of() by {
            if b == i && a < i - 1 {
                assert(rows@[a].key_of() < rows@[i - 1].key_of());
            }
        }
        i = i + 1;
    }
    true
}

} // verus!
