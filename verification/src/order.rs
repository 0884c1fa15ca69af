//! Stable ordering by integer keys.
//!
//! Rows are ordered without moving them: the result lists their positions, first
//! the row that comes first. Rows with equal keys keep the order they had.
use vstd::prelude::*;

verus! {

/// What a row is ordered by: the first number, then the second, then the third.
pub type Key = (i64, i64, i64);

pub open spec fn key_less(a: Key, b: Key) -> bool {
    a.0 < b.0 || (a.0 == b.0 && (a.1 < b.1 || (a.1 == b.1 && a.2 < b.2)))
}

/// Whether row `a` comes before row `b`.
pub open spec fn precedes(keys: Seq<Key>, a: int, b: int) -> bool {
    key_less(keys[a], keys[b]) || (keys[a] == keys[b] && a < b)
}

/// Whether the rows stand in order.
pub open spec fn in_order(keys: Seq<Key>, rows: Seq<usize>) -> bool {
    forall|i: int, j: int|
        0 <= i < j < rows.len() ==> precedes(
            keys,
            #[trigger] rows[i] as int,
            #[trigger] rows[j] as int,
        )
}

/// Whether the rows are those from `lo` up to `hi`.
pub open spec fn covers(rows: Seq<usize>, lo: int, hi: int) -> bool {
    &&& rows.len() == hi - lo
    &&& forall|i: int| 0 <= i < rows.len() ==> lo <= #[trigger] rows[i] < hi
    &&& forall|row: usize| lo <= row < hi ==> #[trigger] rows.contains(row)
}

/// The rows of `keys` in order, each once.
pub open spec fn is_ranking(keys: Seq<Key>, rows: Seq<usize>) -> bool {
    in_order(keys, rows) && covers(rows, 0, keys.len() as int)
}

/// The positions of the rows of `keys`, first the row that comes first.
pub open spec fn ranked(keys: Seq<Key>) -> Seq<usize> {
    choose|rows: Seq<usize>| is_ranking(keys, rows)
}

fn less(a: Key, b: Key) -> (holds: bool)
    ensures
        holds == key_less(a, b),
{
    a.0 < b.0 || (a.0 == b.0 && (a.1 < b.1 || (a.1 == b.1 && a.2 < b.2)))
}

/// Orders the rows of `keys`.
pub fn ranking(keys: &Vec<Key>) -> (rows: Vec<usize>)
    ensures
        is_ranking(keys@, rows@),
        rows@ == ranked(keys@),
{
    let rows = ranking_of_range(keys, 0, keys.len());
    proof {
        assert(is_ranking(keys@, rows@));
        a_ranking_is_unique(keys@, rows@, ranked(keys@));
    }
    rows
}

fn ranking_of_range(keys: &Vec<Key>, lo: usize, hi: usize) -> (rows: Vec<usize>)
    requires
        lo <= hi <= keys@.len(),
    ensures
        in_order(keys@, rows@),
        covers(rows@, lo as int, hi as int),
    decreases hi - lo,
{
    if hi - lo < 2 {
        let mut rows: Vec<usize> = Vec::new();
        if lo < hi {
            rows.push(lo);
            assert(rows@[0] == lo);
        }
        return rows;
    }
    let mid: usize = lo + (hi - lo) / 2;
    let left = ranking_of_range(keys, lo, mid);
    let right = ranking_of_range(keys, mid, hi);
    merge(keys, &left, &right, lo, mid, hi)
}

fn merge(
    keys: &Vec<Key>,
    left: &Vec<usize>,
    right: &Vec<usize>,
    lo: usize,
    mid: usize,
    hi: usize,
) -> (rows: Vec<usize>)
    requires
        lo <= mid <= hi <= keys@.len(),
        in_order(keys@, left@),
        covers(left@, lo as int, mid as int),
        in_order(keys@, right@),
        covers(right@, mid as int, hi as int),
    ensures
        in_order(keys@, rows@),
        covers(rows@, lo as int, hi as int),
{
    let mut rows: Vec<usize> = Vec::new();
    let mut i: usize = 0;
    let mut j: usize = 0;
    let ghost mut from_left: Seq<int> = Seq::empty();
    let ghost mut from_right: Seq<int> = Seq::empty();
    while i < left.len() || j < right.len()
        invariant
            lo <= mid <= hi <= keys@.len(),
            in_order(keys@, left@),
            covers(left@, lo as int, mid as int),
            in_order(keys@, right@),
            covers(right@, mid as int, hi as int),
            i <= left@.len(),
            j <= right@.len(),
            rows@.len() == i + j,
            in_order(keys@, rows@),
            forall|k: int| 0 <= k < rows@.len() ==> lo <= #[trigger] rows@[k] < hi,
            forall|k: int, m: int|
                0 <= k < rows@.len() && i <= m < left@.len() ==> precedes(
                    keys@,
                    #[trigger] rows@[k] as int,
                    #[trigger] left@[m] as int,
                ),
            forall|k: int, m: int|
                0 <= k < rows@.len() && j <= m < right@.len() ==> precedes(
                    keys@,
                    #[trigger] rows@[k] as int,
                    #[trigger] right@[m] as int,
                ),
            from_left.len() == i,
            from_right.len() == j,
            forall|m: int|
                0 <= m < i ==> 0 <= #[trigger] from_left[m] < rows@.len() && rows@[from_left[m]]
                    == left@[m],
            forall|m: int|
                0 <= m < j ==> 0 <= #[trigger] from_right[m] < rows@.len() && rows@[from_right[m]]
                    == right@[m],
        decreases left@.len() - i + right@.len() - j,
    {
        let take_left = j == right.len() || (i < left.len() && !less(
            keys[right[j]],
            keys[left[i]],
        ));
        let ghost before = rows@;
        if take_left {
            rows.push(left[i]);
            proof {
                from_left = from_left.push(before.len() as int);
            }
            i = i + 1;
        } else {
            rows.push(right[j]);
            proof {
                from_right = from_right.push(before.len() as int);
            }
            j = j + 1;
        }
        assert forall|k: int| 0 <= k < before.len() implies rows@[k] == before[k] by {}
    }
    assert forall|row: usize| lo <= row < hi implies #[trigger] rows@.contains(row) by {
        if row < mid {
            assert(left@.contains(row));
            let m = choose|m: int| 0 <= m < left@.len() && left@[m] == row;
            assert(rows@[from_left[m]] == row);
        } else {
            assert(right@.contains(row));
            let m = choose|m: int| 0 <= m < right@.len() && right@[m] == row;
            assert(rows@[from_right[m]] == row);
        }
    }
    rows
}

/// Rows have one order only, so what comes first does not depend on how they
/// were sorted.
pub proof fn a_ranking_is_unique(keys: Seq<Key>, a: Seq<usize>, b: Seq<usize>)
    requires
        is_ranking(keys, a),
        is_ranking(keys, b),
    ensures
        a == b,
{
    assert forall|i: int| 0 <= i < a.len() implies #[trigger] a[i] == b[i] by {
        rankings_agree(keys, a, b, i);
    }
    assert(a =~= b);
}

proof fn rankings_agree(keys: Seq<Key>, a: Seq<usize>, b: Seq<usize>, i: int)
    requires
        is_ranking(keys, a),
        is_ranking(keys, b),
        0 <= i < a.len(),
    ensures
        a[i] == b[i],
    decreases i,
{
    assert forall|k: int| 0 <= k < i implies #[trigger] a[k] == b[k] by {
        rankings_agree(keys, a, b, k);
    }
    if a[i] != b[i] {
        assert(b.contains(a[i]));
        let at_b = choose|k: int| 0 <= k < b.len() && b[k] == a[i];
        assert(a.contains(b[i]));
        let at_a = choose|k: int| 0 <= k < a.len() && a[k] == b[i];
        if at_b < i {
            assert(a[at_b] == b[at_b]);
        }
        if at_a < i {
            assert(a[at_a] == b[at_a]);
        }
    }
}

/// Where a row with key `key` goes into rows that stand in order: after those that
/// are not greater.
proof fn insertion_point(keys: Seq<Key>, rows: Seq<usize>, key: Key, n: int) -> (at: int)
    requires
        0 <= n <= rows.len(),
        in_order(keys, rows),
    ensures
        0 <= at <= n,
        forall|i: int| 0 <= i < at ==> !key_less(key, keys[#[trigger] rows[i] as int]),
        forall|i: int| at <= i < n ==> key_less(key, keys[#[trigger] rows[i] as int]),
    decreases n,
{
    if n == 0 {
        0
    } else {
        let at = insertion_point(keys, rows, key, n - 1);
        if key_less(key, keys[rows[n - 1] as int]) {
            at
        } else {
            assert forall|i: int| 0 <= i < n implies !key_less(
                key,
                keys[#[trigger] rows[i] as int],
            ) by {
                if i < n - 1 {
                    assert(precedes(keys, rows[i] as int, rows[n - 1] as int));
                }
            }
            n
        }
    }
}

/// Any rows can be put in order.
pub proof fn a_ranking_exists(keys: Seq<Key>)
    requires
        keys.len() <= usize::MAX,
    ensures
        is_ranking(keys, ranked(keys)),
    decreases keys.len(),
{
    if keys.len() == 0 {
        assert(is_ranking(keys, Seq::<usize>::empty()));
    } else {
        let shorter = keys.drop_last();
        a_ranking_exists(shorter);
        let before = ranked(shorter);
        let last = (keys.len() - 1) as usize;
        assert(in_order(keys, before)) by {
            assert forall|i: int, j: int| 0 <= i < j < before.len() implies precedes(
                keys,
                #[trigger] before[i] as int,
                #[trigger] before[j] as int,
            ) by {
                assert(precedes(shorter, before[i] as int, before[j] as int));
            }
        }
        let at = insertion_point(keys, before, keys[last as int], before.len() as int);
        let rows = before.insert(at, last);
        assert forall|i: int, j: int| 0 <= i < j < rows.len() implies precedes(
            keys,
            #[trigger] rows[i] as int,
            #[trigger] rows[j] as int,
        ) by {
            if i < at {
                assert(rows[i] == before[i]);
                assert(before[i] < last);
            } else if i > at {
                assert(rows[i] == before[i - 1]);
            }
            if j < at {
                assert(rows[j] == before[j]);
            } else if j > at {
                assert(rows[j] == before[j - 1]);
            }
        }
        assert forall|row: usize| 0 <= row < keys.len() implies #[trigger] rows.contains(row) by {
            if row == last {
                assert(rows[at] == last);
            } else {
                assert(before.contains(row));
                let k = choose|k: int| 0 <= k < before.len() && before[k] == row;
                assert(rows[if k < at {
                    k
                } else {
                    k + 1
                }] == row);
            }
        }
        assert(is_ranking(keys, rows));
    }
}

}
