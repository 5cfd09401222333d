//! The snapshot builder: merges the live workspace list reported by the
//! window manager with placeholder workspaces for every missing ordinal up
//! to the configured minimum count, and orders the result ascending by
//! ordinal. Real entries take precedence over placeholders; the result has
//! no duplicate ordinals.

use vstd::prelude::*;

use crate::workspace::Workspace;
use crate::workspace::distinct_nums;
use crate::workspace::has_num;
use crate::workspace::is_placeholder;
use crate::workspace::placeholder_workspace;
use crate::workspace::positive_nums;
use crate::workspace::sorted_by_num;
use crate::workspace::wf_snapshot;

verus! {

/// Linear search for the live workspace carrying ordinal `n`.
fn find_num(live: &Vec<Workspace>, n: i32) -> (found: Option<usize>)
    ensures
        match found {
            Some(j) => j < live@.len() && live@[j as int].num == n,
            None => !has_num(live@, n as int),
        },
{
    let mut j: usize = 0;
    while j < live.len()
        invariant
            0 <= j <= live@.len(),
            forall|k: int| 0 <= k < j ==> live@[k].num != n,
        decreases live@.len() - j,
    {
        if live[j].num == n {
            return Some(j);
        }
        j += 1;
    }
    None
}

/// Inserts `w` into a snapshot kept in ascending ordinal order, at its
/// ordinal's place.
fn insert_sorted(snapshot: &mut Vec<Workspace>, w: Workspace)
    requires
        sorted_by_num(old(snapshot)@),
        !has_num(old(snapshot)@, w.num as int),
    ensures
        sorted_by_num(final(snapshot)@),
        final(snapshot)@.len() == old(snapshot)@.len() + 1,
        forall|n: int|
            has_num(final(snapshot)@, n) <==> (has_num(old(snapshot)@, n) || n == w.num),
        forall|i: int|
            0 <= i < final(snapshot)@.len() ==> (final(snapshot)@[i] == w
                || old(snapshot)@.contains(final(snapshot)@[i])),
        forall|i: int|
            0 <= i < old(snapshot)@.len() ==> final(snapshot)@.contains(old(snapshot)@[i]),
{
    let mut i: usize = 0;
    while i < snapshot.len() && snapshot[i].num < w.num
        invariant
            0 <= i <= snapshot@.len(),
            forall|k: int| 0 <= k < i ==> snapshot@[k].num < w.num,
        decreases snapshot@.len() - i,
    {
        i += 1;
    }
    proof {
        assert(forall|k: int|
            i <= k < snapshot@.len() ==> snapshot@[k].num > w.num) by {
            assert(forall|k: int|
                i <= k < snapshot@.len() ==> snapshot@[k].num != w.num);
        }
    }
    let ghost before = snapshot@;
    snapshot.insert(i, w);
    proof {
        assert(forall|k: int| 0 <= k < i ==> snapshot@[k] == before[k]);
        assert(snapshot@[i as int] == w);
        assert(forall|k: int| i < k < snapshot@.len() ==> snapshot@[k] == before[k - 1]);
        assert forall|n: int| has_num(snapshot@, n) implies (has_num(before, n) || n
            == w.num) by {
            let j = choose|j: int| 0 <= j < snapshot@.len() && snapshot@[j].num == n;
            if j < i {
                assert(before[j].num == n);
            } else if j > i {
                assert(before[j - 1].num == n);
            }
        }
        assert forall|n: int| has_num(before, n) implies has_num(snapshot@, n) by {
            let j = choose|j: int| 0 <= j < before.len() && before[j].num == n;
            if j < i {
                assert(snapshot@[j].num == n);
            } else {
                assert(snapshot@[j + 1].num == n);
            }
        }
        assert forall|k: int| 0 <= k < before.len() implies snapshot@.contains(
            before[k],
        ) by {
            if k < i {
                assert(snapshot@[k] == before[k]);
            } else {
                assert(snapshot@[k + 1] == before[k]);
            }
        }
        assert forall|k: int|
            0 <= k < snapshot@.len() && snapshot@[k] != w implies before.contains(
            snapshot@[k],
        ) by {
            if k < i {
                assert(before[k] == snapshot@[k]);
            } else if k > i {
                assert(before[k - 1] == snapshot@[k]);
            }
        }
    }
}

/// Builds the gap-filled, ordered snapshot of one refresh pass: for every
/// ordinal in `1..=minimum_count` the live workspace when the window manager
/// reported it, else a placeholder; live workspaces beyond the minimum are
/// carried over unchanged; the whole is sorted ascending by ordinal and free
/// of duplicates.
pub fn build_snapshot(live: &Vec<Workspace>, minimum_count: usize) -> (snapshot: Vec<Workspace>)
    requires
        positive_nums(live@),
        distinct_nums(live@),
        minimum_count <= 0x7fffffff,
    ensures
        wf_snapshot(snapshot@),
        forall|n: int|
            has_num(snapshot@, n) <==> (1 <= n <= minimum_count as int || has_num(live@, n)),
        forall|i: int, j: int|
            0 <= i < snapshot@.len() && 0 <= j < live@.len() && live@[j].num == snapshot@[i].num
                ==> snapshot@[i] == live@[j],
        forall|i: int|
            0 <= i < snapshot@.len() && !has_num(live@, snapshot@[i].num as int)
                ==> is_placeholder(snapshot@[i], snapshot@[i].num as int),
{
    let mut snapshot: Vec<Workspace> = Vec::new();
    let mut n: usize = 1;
    while n <= minimum_count
        invariant
            positive_nums(live@),
            distinct_nums(live@),
            minimum_count <= 0x7fffffff,
            1 <= n <= minimum_count + 1,
            snapshot@.len() == n - 1,
            forall|k: int| 0 <= k < snapshot@.len() ==> snapshot@[k].num == k + 1,
            forall|i: int, j: int|
                0 <= i < snapshot@.len() && 0 <= j < live@.len() && live@[j].num
                    == snapshot@[i].num ==> snapshot@[i] == live@[j],
            forall|i: int|
                0 <= i < snapshot@.len() && !has_num(live@, snapshot@[i].num as int)
                    ==> is_placeholder(snapshot@[i], snapshot@[i].num as int),
        decreases minimum_count + 1 - n,
    {
        match find_num(live, n as i32) {
            Some(j) => {
                let w = live[j].clone();
                snapshot.push(w);
            },
            None => {
                snapshot.push(placeholder_workspace(n as i32));
            },
        }
        n += 1;
    }
    proof {
        assert forall|m: int| has_num(snapshot@, m) implies 1 <= m <= minimum_count as int by {
            let k = choose|k: int| 0 <= k < snapshot@.len() && snapshot@[k].num == m;
        }
        assert forall|m: int| 1 <= m <= minimum_count as int implies has_num(snapshot@, m) by {
            assert(snapshot@[m - 1].num == m);
        }
    }
    let mut j: usize = 0;
    while j < live.len()
        invariant
            positive_nums(live@),
            distinct_nums(live@),
            minimum_count <= 0x7fffffff,
            0 <= j <= live@.len(),
            sorted_by_num(snapshot@),
            positive_nums(snapshot@),
            forall|m: int|
                has_num(snapshot@, m) <==> (1 <= m <= minimum_count as int || (exists|k: int|
                    0 <= k < j && live@[k].num == m && live@[k].num > minimum_count as int)),
            forall|i: int, k: int|
                0 <= i < snapshot@.len() && 0 <= k < live@.len() && live@[k].num
                    == snapshot@[i].num ==> snapshot@[i] == live@[k],
            forall|i: int|
                0 <= i < snapshot@.len() && !has_num(live@, snapshot@[i].num as int)
                    ==> is_placeholder(snapshot@[i], snapshot@[i].num as int),
        decreases live@.len() - j,
    {
        if live[j].num > minimum_count as i32 {
            let w = live[j].clone();
            proof {
                if has_num(snapshot@, w.num as int) {
                    let k = choose|k: int|
                        0 <= k < j && live@[k].num == w.num as int && live@[k].num
                            > minimum_count as int;
                    assert(false);
                }
            }
            let ghost before = snapshot@;
            insert_sorted(&mut snapshot, w);
            proof {
                assert forall|i: int, k: int|
                    0 <= i < snapshot@.len() && 0 <= k < live@.len() && live@[k].num
                        == snapshot@[i].num implies snapshot@[i] == live@[k] by {
                    if snapshot@[i] == w {
                        assert(live@[j as int].num == live@[k].num);
                    } else {
                        assert(before.contains(snapshot@[i]));
                        let b = choose|b: int|
                            0 <= b < before.len() && before[b] == snapshot@[i];
                    }
                }
                assert forall|i: int|
                    0 <= i < snapshot@.len() && !has_num(live@, snapshot@[i].num as int)
                        implies is_placeholder(snapshot@[i], snapshot@[i].num as int) by {
                    if snapshot@[i] == w {
                        assert(live@[j as int].num == w.num);
                    } else {
                        let b = choose|b: int|
                            0 <= b < before.len() && before[b] == snapshot@[i];
                    }
                }
            }
        }
        j += 1;
    }
    snapshot
}

} // verus!
