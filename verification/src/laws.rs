//! Cross-function properties of the synchronizer, proved against the
//! specifications that [`crate::sync::refresh_workspaces`] is verified
//! against: a second pass over an unchanged snapshot writes nothing, the
//! diff suppresses exactly the unchanged workspaces, and a disappeared
//! workspace gets exactly one clearing append and leaves the map.

use vstd::prelude::*;

use crate::config::Config;
use crate::numeral::spec_parse_i32;
use crate::sync::ActionModel;
use crate::sync::pass_output;
use crate::sync::published_or_empty;
use crate::sync::reconcile_actions;
use crate::sync::reconcile_map;
use crate::sync::refresh_actions;
use crate::sync::refresh_map;
use crate::sync::walk_actions;
use crate::sync::walked_map;
use crate::workspace::Workspace;
use crate::workspace::distinct_nums;
use crate::workspace::has_num;
use crate::workspace::num_set;
use crate::workspace::lemma_sorted_implies_distinct;
use crate::workspace::wf_snapshot;

verus! {

/// `a` writes to the output entry of ordinal `n`: an append or a clearing
/// append naming it.
pub open spec fn is_write_for(a: ActionModel, n: int) -> bool {
    match a {
        ActionModel::Append { num, text } => num == n,
        ActionModel::Clear { num } => num == n,
        ActionModel::RemoveAll => false,
    }
}

/// `a` is a clearing append for ordinal `n`.
pub open spec fn is_clear_for(a: ActionModel, n: int) -> bool {
    match a {
        ActionModel::Clear { num } => num == n,
        _ => false,
    }
}

/// How many of the actions write to ordinal `n`'s entry.
pub open spec fn count_writes(acts: Seq<ActionModel>, n: int) -> int
    decreases acts.len(),
{
    if acts.len() == 0 {
        0
    } else {
        (if is_write_for(acts[0], n) {
            1int
        } else {
            0int
        }) + count_writes(acts.skip(1), n)
    }
}

/// How many of the actions are clearing appends for ordinal `n`.
pub open spec fn count_clears(acts: Seq<ActionModel>, n: int) -> int
    decreases acts.len(),
{
    if acts.len() == 0 {
        0
    } else {
        (if is_clear_for(acts[0], n) {
            1int
        } else {
            0int
        }) + count_clears(acts.skip(1), n)
    }
}

/// Every directory entry's name parses as a decimal ordinal: the pass
/// encounters no corruption and never resets the directory.
pub open spec fn all_entries_parse(entries: Seq<Seq<char>>) -> bool {
    forall|j: int| 0 <= j < entries.len() ==> spec_parse_i32(entries[j]) is Some
}

/// How many entries from index `j` on parse to the ordinal `n`.
pub open spec fn count_parsed(entries: Seq<Seq<char>>, j: int, n: int) -> int
    decreases entries.len() - j,
{
    if j < 0 || j >= entries.len() {
        0
    } else {
        (if spec_parse_i32(entries[j]) == Option::Some(n) {
            1int
        } else {
            0int
        }) + count_parsed(entries, j + 1, n)
    }
}

proof fn lemma_count_writes_concat(a: Seq<ActionModel>, b: Seq<ActionModel>, n: int)
    ensures
        count_writes(a + b, n) == count_writes(a, n) + count_writes(b, n),
    decreases a.len(),
{
    if a.len() == 0 {
        assert(a + b =~= b);
    } else {
        assert((a + b)[0] == a[0]);
        assert((a + b).skip(1) =~= a.skip(1) + b);
        lemma_count_writes_concat(a.skip(1), b, n);
    }
}

proof fn lemma_count_clears_concat(a: Seq<ActionModel>, b: Seq<ActionModel>, n: int)
    ensures
        count_clears(a + b, n) == count_clears(a, n) + count_clears(b, n),
    decreases a.len(),
{
    if a.len() == 0 {
        assert(a + b =~= b);
    } else {
        assert((a + b)[0] == a[0]);
        assert((a + b).skip(1) =~= a.skip(1) + b);
        lemma_count_clears_concat(a.skip(1), b, n);
    }
}

proof fn lemma_cons_counts(x: ActionModel, rest: Seq<ActionModel>, n: int)
    ensures
        count_writes(seq![x] + rest, n) == (if is_write_for(x, n) {
            1int
        } else {
            0int
        }) + count_writes(rest, n),
        count_clears(seq![x] + rest, n) == (if is_clear_for(x, n) {
            1int
        } else {
            0int
        }) + count_clears(rest, n),
{
    assert((seq![x] + rest)[0] == x);
    assert((seq![x] + rest).skip(1) =~= rest);
}

proof fn lemma_walk_actions_absent(
    config: Config,
    wss: Seq<Workspace>,
    m: Map<int, Seq<char>>,
    i: int,
    n: int,
)
    requires
        forall|j: int| i <= j < wss.len() ==> wss[j].num != n,
    ensures
        count_writes(walk_actions(config, wss, m, i), n) == 0,
    decreases wss.len() - i,
{
    if 0 <= i < wss.len() {
        lemma_walk_actions_absent(config, wss, m, i + 1, n);
        let rest = walk_actions(config, wss, m, i + 1);
        if pass_output(config, wss, i) != published_or_empty(m, wss[i].num as int) {
            let x = ActionModel::Append {
                num: wss[i].num as int,
                text: pass_output(config, wss, i),
            };
            lemma_cons_counts(x, rest, n);
        }
    }
}

proof fn lemma_walk_actions_count(
    config: Config,
    wss: Seq<Workspace>,
    m: Map<int, Seq<char>>,
    i: int,
    k: int,
)
    requires
        distinct_nums(wss),
        0 <= i <= k < wss.len(),
    ensures
        count_writes(walk_actions(config, wss, m, i), wss[k].num as int) == (if pass_output(
            config,
            wss,
            k,
        ) != published_or_empty(m, wss[k].num as int) {
            1int
        } else {
            0int
        }),
    decreases wss.len() - i,
{
    let n = wss[k].num as int;
    let rest = walk_actions(config, wss, m, i + 1);
    if i == k {
        lemma_walk_actions_absent(config, wss, m, i + 1, n);
    } else {
        lemma_walk_actions_count(config, wss, m, i + 1, k);
    }
    if pass_output(config, wss, i) != published_or_empty(m, wss[i].num as int) {
        let x = ActionModel::Append { num: wss[i].num as int, text: pass_output(config, wss, i) };
        lemma_cons_counts(x, rest, n);
    }
}

proof fn lemma_walk_no_clears(
    config: Config,
    wss: Seq<Workspace>,
    m: Map<int, Seq<char>>,
    i: int,
    n: int,
)
    ensures
        count_clears(walk_actions(config, wss, m, i), n) == 0,
    decreases wss.len() - i,
{
    if 0 <= i < wss.len() {
        lemma_walk_no_clears(config, wss, m, i + 1, n);
        let rest = walk_actions(config, wss, m, i + 1);
        if pass_output(config, wss, i) != published_or_empty(m, wss[i].num as int) {
            let x = ActionModel::Append {
                num: wss[i].num as int,
                text: pass_output(config, wss, i),
            };
            lemma_cons_counts(x, rest, n);
        }
    }
}

proof fn lemma_walked_map_frame(
    config: Config,
    wss: Seq<Workspace>,
    m: Map<int, Seq<char>>,
    i: int,
    n: int,
)
    requires
        forall|j: int| i <= j < wss.len() ==> wss[j].num != n,
    ensures
        walked_map(config, wss, m, i).contains_key(n) == m.contains_key(n),
        m.contains_key(n) ==> walked_map(config, wss, m, i)[n] == m[n],
    decreases wss.len() - i,
{
    if 0 <= i < wss.len() {
        lemma_walked_map_frame(
            config,
            wss,
            m.insert(wss[i].num as int, pass_output(config, wss, i)),
            i + 1,
            n,
        );
    }
}

proof fn lemma_walked_map_at(
    config: Config,
    wss: Seq<Workspace>,
    m: Map<int, Seq<char>>,
    i: int,
    k: int,
)
    requires
        distinct_nums(wss),
        0 <= i <= k < wss.len(),
    ensures
        walked_map(config, wss, m, i).contains_key(wss[k].num as int),
        walked_map(config, wss, m, i)[wss[k].num as int] == pass_output(config, wss, k),
    decreases wss.len() - i,
{
    if i == k {
        lemma_walked_map_frame(
            config,
            wss,
            m.insert(wss[i].num as int, pass_output(config, wss, i)),
            i + 1,
            wss[k].num as int,
        );
    } else {
        lemma_walked_map_at(
            config,
            wss,
            m.insert(wss[i].num as int, pass_output(config, wss, i)),
            i + 1,
            k,
        );
    }
}

proof fn lemma_reconcile_actions_seen(entries: Seq<Seq<char>>, seen: Set<int>, j: int, n: int)
    requires
        seen.contains(n),
    ensures
        count_writes(reconcile_actions(entries, seen, j), n) == 0,
    decreases entries.len() - j,
{
    if 0 <= j < entries.len() {
        match spec_parse_i32(entries[j]) {
            Option::None => {
                lemma_cons_counts(ActionModel::RemoveAll, Seq::empty(), n);
                assert(seq![ActionModel::RemoveAll] + Seq::<ActionModel>::empty() =~= seq![
                    ActionModel::RemoveAll,
                ]);
                assert(count_writes(seq![ActionModel::RemoveAll], n) == 0);
            },
            Option::Some(p) => {
                lemma_reconcile_actions_seen(entries, seen, j + 1, n);
                let rest = reconcile_actions(entries, seen, j + 1);
                if !seen.contains(p) {
                    lemma_cons_counts(ActionModel::Clear { num: p }, rest, n);
                }
            },
        }
    }
}

proof fn lemma_reconcile_map_seen(
    entries: Seq<Seq<char>>,
    seen: Set<int>,
    m: Map<int, Seq<char>>,
    j: int,
    n: int,
)
    requires
        seen.contains(n),
        all_entries_parse(entries),
    ensures
        reconcile_map(entries, seen, m, j).contains_key(n) == m.contains_key(n),
        m.contains_key(n) ==> reconcile_map(entries, seen, m, j)[n] == m[n],
    decreases entries.len() - j,
{
    if 0 <= j < entries.len() {
        match spec_parse_i32(entries[j]) {
            Option::None => {
                assert(false);
            },
            Option::Some(p) => {
                if seen.contains(p) {
                    lemma_reconcile_map_seen(entries, seen, m, j + 1, n);
                } else {
                    lemma_reconcile_map_seen(entries, seen, m.remove(p), j + 1, n);
                }
            },
        }
    }
}

proof fn lemma_reconcile_map_no_add(
    entries: Seq<Seq<char>>,
    seen: Set<int>,
    m: Map<int, Seq<char>>,
    j: int,
    n: int,
)
    ensures
        reconcile_map(entries, seen, m, j).contains_key(n) ==> m.contains_key(n),
    decreases entries.len() - j,
{
    if 0 <= j < entries.len() {
        match spec_parse_i32(entries[j]) {
            Option::None => {},
            Option::Some(p) => {
                if seen.contains(p) {
                    lemma_reconcile_map_no_add(entries, seen, m, j + 1, n);
                } else {
                    lemma_reconcile_map_no_add(entries, seen, m.remove(p), j + 1, n);
                }
            },
        }
    }
}

proof fn lemma_reconcile_clears_count(entries: Seq<Seq<char>>, seen: Set<int>, j: int, n: int)
    requires
        !seen.contains(n),
        all_entries_parse(entries),
    ensures
        count_clears(reconcile_actions(entries, seen, j), n) == count_parsed(entries, j, n),
    decreases entries.len() - j,
{
    if 0 <= j < entries.len() {
        match spec_parse_i32(entries[j]) {
            Option::None => {
                assert(false);
            },
            Option::Some(p) => {
                lemma_reconcile_clears_count(entries, seen, j + 1, n);
                let rest = reconcile_actions(entries, seen, j + 1);
                if !seen.contains(p) {
                    lemma_cons_counts(ActionModel::Clear { num: p }, rest, n);
                }
            },
        }
    }
}

proof fn lemma_reconcile_removes(
    entries: Seq<Seq<char>>,
    seen: Set<int>,
    m: Map<int, Seq<char>>,
    j: int,
    n: int,
)
    requires
        !seen.contains(n),
        all_entries_parse(entries),
        count_parsed(entries, j, n) >= 1,
    ensures
        !reconcile_map(entries, seen, m, j).contains_key(n),
    decreases entries.len() - j,
{
    if 0 <= j < entries.len() {
        match spec_parse_i32(entries[j]) {
            Option::None => {
                assert(false);
            },
            Option::Some(p) => {
                if p == n {
                    lemma_reconcile_map_no_add(entries, seen, m.remove(n), j + 1, n);
                } else {
                    if seen.contains(p) {
                        lemma_reconcile_removes(entries, seen, m, j + 1, n);
                    } else {
                        lemma_reconcile_removes(entries, seen, m.remove(p), j + 1, n);
                    }
                }
            },
        }
    }
}

proof fn lemma_walk_actions_stable(
    config: Config,
    wss: Seq<Workspace>,
    m: Map<int, Seq<char>>,
    i: int,
)
    requires
        forall|k: int|
            0 <= k < wss.len() ==> m.contains_key(#[trigger] wss[k].num as int) && m[wss[k].num
                as int] == pass_output(config, wss, k),
    ensures
        walk_actions(config, wss, m, i) == Seq::<ActionModel>::empty(),
    decreases wss.len() - i,
{
    if 0 <= i < wss.len() {
        lemma_walk_actions_stable(config, wss, m, i + 1);
        assert(published_or_empty(m, wss[i].num as int) == pass_output(config, wss, i));
    }
}

proof fn lemma_walked_map_stable(
    config: Config,
    wss: Seq<Workspace>,
    m: Map<int, Seq<char>>,
    i: int,
)
    requires
        forall|k: int|
            0 <= k < wss.len() ==> m.contains_key(#[trigger] wss[k].num as int) && m[wss[k].num
                as int] == pass_output(config, wss, k),
    ensures
        walked_map(config, wss, m, i) == m,
    decreases wss.len() - i,
{
    if 0 <= i < wss.len() {
        assert(m.insert(wss[i].num as int, pass_output(config, wss, i)) =~= m);
        lemma_walked_map_stable(config, wss, m, i + 1);
    }
}

proof fn lemma_reconcile_actions_stable(entries: Seq<Seq<char>>, seen: Set<int>, j: int)
    requires
        forall|j2: int|
            0 <= j2 < entries.len() ==> (#[trigger] spec_parse_i32(entries[j2]) matches
                Option::Some(p) && seen.contains(p)),
    ensures
        reconcile_actions(entries, seen, j) == Seq::<ActionModel>::empty(),
    decreases entries.len() - j,
{
    if 0 <= j < entries.len() {
        lemma_reconcile_actions_stable(entries, seen, j + 1);
    }
}

proof fn lemma_reconcile_map_stable(
    entries: Seq<Seq<char>>,
    seen: Set<int>,
    m: Map<int, Seq<char>>,
    j: int,
)
    requires
        forall|j2: int|
            0 <= j2 < entries.len() ==> (#[trigger] spec_parse_i32(entries[j2]) matches
                Option::Some(p) && seen.contains(p)),
    ensures
        reconcile_map(entries, seen, m, j) == m,
    decreases entries.len() - j,
{
    if 0 <= j < entries.len() {
        lemma_reconcile_map_stable(entries, seen, m, j + 1);
    }
}

proof fn lemma_reconcile_corrupt(
    entries: Seq<Seq<char>>,
    seen: Set<int>,
    m: Map<int, Seq<char>>,
    j: int,
    j0: int,
)
    requires
        0 <= j <= j0 < entries.len(),
        spec_parse_i32(entries[j0]) is None,
        forall|j2: int| 0 <= j2 < j0 ==> spec_parse_i32(entries[j2]) is Some,
    ensures
        reconcile_map(entries, seen, m, j) == Map::<int, Seq<char>>::empty(),
        reconcile_actions(entries, seen, j).len() >= 1,
        reconcile_actions(entries, seen, j).last() == ActionModel::RemoveAll,
    decreases entries.len() - j,
{
    if j == j0 {
        assert(reconcile_actions(entries, seen, j) =~= seq![ActionModel::RemoveAll]);
    } else {
        match spec_parse_i32(entries[j]) {
            Option::None => {
                assert(false);
            },
            Option::Some(p) => {
                let rest = reconcile_actions(entries, seen, j + 1);
                if seen.contains(p) {
                    lemma_reconcile_corrupt(entries, seen, m, j + 1, j0);
                } else {
                    lemma_reconcile_corrupt(entries, seen, m.remove(p), j + 1, j0);
                    assert((seq![ActionModel::Clear { num: p }] + rest).last() == rest.last());
                }
            },
        }
    }
}

proof fn lemma_pass_output_nonempty(config: Config, wss: Seq<Workspace>, k: int)
    requires
        0 <= k < wss.len(),
    ensures
        pass_output(config, wss, k).len() > 0,
{
    reveal_strlit("<span background=\"");
    reveal_strlit("<span size=\"large\" background=\"");
}

/// Corruption recovery: a pass that meets an entry name that is no decimal
/// ordinal ends with the whole-directory removal as its last action and
/// leaves the Published-Output Map empty; the following pass, over the
/// recreated empty directory, appends every workspace of its snapshot
/// anew.
pub proof fn lemma_corruption_recovery(
    config: Config,
    wss: Seq<Workspace>,
    m0: Map<int, Seq<char>>,
    entries: Seq<Seq<char>>,
    j0: int,
)
    requires
        wf_snapshot(wss),
        0 <= j0 < entries.len(),
        spec_parse_i32(entries[j0]) is None,
        forall|j2: int| 0 <= j2 < j0 ==> spec_parse_i32(entries[j2]) is Some,
    ensures
        refresh_map(config, wss, m0, entries) == Map::<int, Seq<char>>::empty(),
        refresh_actions(config, wss, m0, entries).last() == ActionModel::RemoveAll,
        forall|k: int|
            0 <= k < wss.len() ==> count_writes(
                refresh_actions(config, wss, Map::empty(), Seq::empty()),
                #[trigger] wss[k].num as int,
            ) == 1,
{
    let seen = num_set(wss);
    lemma_sorted_implies_distinct(wss);
    lemma_reconcile_corrupt(entries, seen, walked_map(config, wss, m0, 0), 0, j0);
    let wa = walk_actions(config, wss, m0, 0);
    let ra = reconcile_actions(entries, seen, 0);
    assert((wa + ra).last() == ra.last());
    assert forall|k: int| 0 <= k < wss.len() implies count_writes(
        refresh_actions(config, wss, Map::empty(), Seq::empty()),
        #[trigger] wss[k].num as int,
    ) == 1 by {
        let n = wss[k].num as int;
        lemma_pass_output_nonempty(config, wss, k);
        assert(published_or_empty(Map::<int, Seq<char>>::empty(), n) == Seq::<char>::empty());
        lemma_walk_actions_count(config, wss, Map::empty(), 0, k);
        lemma_count_writes_concat(
            walk_actions(config, wss, Map::empty(), 0),
            reconcile_actions(Seq::empty(), seen, 0),
            n,
        );
    }
}

proof fn lemma_count_parsed_nonneg(entries: Seq<Seq<char>>, j: int, n: int)
    ensures
        count_parsed(entries, j, n) >= 0,
    decreases entries.len() - j,
{
    if 0 <= j < entries.len() {
        lemma_count_parsed_nonneg(entries, j + 1, n);
    }
}

proof fn lemma_count_parsed_at_least_one(entries: Seq<Seq<char>>, j: int, n: int, j0: int)
    requires
        0 <= j <= j0 < entries.len(),
        spec_parse_i32(entries[j0]) == Option::Some(n),
    ensures
        count_parsed(entries, j, n) >= 1,
    decreases j0 - j,
{
    if j == j0 {
        lemma_count_parsed_nonneg(entries, j + 1, n);
    } else {
        lemma_count_parsed_at_least_one(entries, j + 1, n, j0);
    }
}

/// The data-model invariant after a successful refresh: when the output
/// directory is uncorrupted and its entries cover every previously
/// published ordinal — which every pass since the startup reset maintains —
/// the Published-Output Map's key set afterwards is exactly the snapshot's
/// ordinal set, and every key maps to the markup rendered in this pass.
pub proof fn lemma_refresh_restores_invariant(
    config: Config,
    wss: Seq<Workspace>,
    m0: Map<int, Seq<char>>,
    entries: Seq<Seq<char>>,
)
    requires
        wf_snapshot(wss),
        all_entries_parse(entries),
        forall|n: int|
            #[trigger] m0.contains_key(n) && !has_num(wss, n) ==> exists|j2: int|
                0 <= j2 < entries.len() && spec_parse_i32(entries[j2]) == Option::Some(n),
    ensures
        forall|n: int|
            #[trigger] refresh_map(config, wss, m0, entries).contains_key(n) <==> has_num(
                wss,
                n,
            ),
        forall|k: int|
            0 <= k < wss.len() ==> refresh_map(config, wss, m0, entries)[
                #[trigger] wss[k].num as int] == pass_output(config, wss, k),
{
    let seen = num_set(wss);
    let m1 = walked_map(config, wss, m0, 0);
    let m2 = refresh_map(config, wss, m0, entries);
    lemma_sorted_implies_distinct(wss);
    assert forall|k: int| 0 <= k < wss.len() implies m2.contains_key(
        #[trigger] wss[k].num as int,
    ) && m2[wss[k].num as int] == pass_output(config, wss, k) by {
        lemma_walked_map_at(config, wss, m0, 0, k);
        assert(seen.contains(wss[k].num as int));
        lemma_reconcile_map_seen(entries, seen, m1, 0, wss[k].num as int);
    }
    assert forall|n: int| #[trigger] m2.contains_key(n) implies has_num(wss, n) by {
        if !has_num(wss, n) {
            lemma_reconcile_map_no_add(entries, seen, m1, 0, n);
            lemma_walked_map_frame(config, wss, m0, 0, n);
            assert(m0.contains_key(n));
            let j0 = choose|j2: int|
                0 <= j2 < entries.len() && spec_parse_i32(entries[j2]) == Option::Some(n);
            lemma_count_parsed_at_least_one(entries, 0, n, j0);
            assert(!seen.contains(n));
            lemma_reconcile_removes(entries, seen, m1, 0, n);
        }
    }
    assert forall|n: int| has_num(wss, n) implies m2.contains_key(n) by {
        let k = choose|k: int| 0 <= k < wss.len() && wss[k].num == n;
        assert(m2.contains_key(wss[k].num as int));
    }
}

/// Idempotence of synchronization: after one refresh pass that found no
/// corruption, a second pass over the same snapshot emits no action at all
/// and leaves the Published-Output Map untouched — provided every output
/// entry the second pass finds is named by an ordinal of the snapshot (a
/// stale entry of a long-gone workspace would be cleared again, and a
/// corrupt name would reset the directory).
pub proof fn lemma_refresh_idempotent(
    config: Config,
    wss: Seq<Workspace>,
    m0: Map<int, Seq<char>>,
    entries: Seq<Seq<char>>,
    entries2: Seq<Seq<char>>,
)
    requires
        wf_snapshot(wss),
        all_entries_parse(entries),
        forall|j2: int|
            0 <= j2 < entries2.len() ==> (#[trigger] spec_parse_i32(entries2[j2]) matches
                Option::Some(p) && num_set(wss).contains(p)),
    ensures
        refresh_actions(config, wss, refresh_map(config, wss, m0, entries), entries2)
            == Seq::<ActionModel>::empty(),
        refresh_map(config, wss, refresh_map(config, wss, m0, entries), entries2) == refresh_map(
            config,
            wss,
            m0,
            entries,
        ),
{
    let seen = num_set(wss);
    let m1 = refresh_map(config, wss, m0, entries);
    lemma_sorted_implies_distinct(wss);
    assert forall|k: int| 0 <= k < wss.len() implies m1.contains_key(
        #[trigger] wss[k].num as int,
    ) && m1[wss[k].num as int] == pass_output(config, wss, k) by {
        lemma_walked_map_at(config, wss, m0, 0, k);
        assert(seen.contains(wss[k].num as int));
        lemma_reconcile_map_seen(
            entries,
            seen,
            walked_map(config, wss, m0, 0),
            0,
            wss[k].num as int,
        );
    }
    lemma_walk_actions_stable(config, wss, m1, 0);
    lemma_walked_map_stable(config, wss, m1, 0);
    lemma_reconcile_actions_stable(entries2, seen, 0);
    lemma_reconcile_map_stable(entries2, seen, m1, 0);
    assert(refresh_actions(config, wss, m1, entries2) =~= Seq::<ActionModel>::empty());
}

/// Diff correctness: a workspace whose rendered markup equals what the map
/// already records gets no write in the whole pass; one whose markup
/// changed gets exactly one write — the append of the new markup. When the
/// pass finds no corruption, the map afterwards records exactly the new
/// markup (a corrupt entry instead resets directory and map together).
pub proof fn lemma_diff_correctness(
    config: Config,
    wss: Seq<Workspace>,
    m0: Map<int, Seq<char>>,
    entries: Seq<Seq<char>>,
    k: int,
)
    requires
        wf_snapshot(wss),
        0 <= k < wss.len(),
    ensures
        pass_output(config, wss, k) == published_or_empty(m0, wss[k].num as int)
            ==> count_writes(refresh_actions(config, wss, m0, entries), wss[k].num as int) == 0,
        pass_output(config, wss, k) != published_or_empty(m0, wss[k].num as int)
            ==> count_writes(refresh_actions(config, wss, m0, entries), wss[k].num as int) == 1,
        all_entries_parse(entries) ==> refresh_map(config, wss, m0, entries).contains_key(
            wss[k].num as int,
        ),
        all_entries_parse(entries) ==> refresh_map(config, wss, m0, entries)[wss[k].num as int]
            == pass_output(config, wss, k),
{
    let n = wss[k].num as int;
    let seen = num_set(wss);
    lemma_sorted_implies_distinct(wss);
    assert(seen.contains(n));
    lemma_walk_actions_count(config, wss, m0, 0, k);
    lemma_reconcile_actions_seen(entries, seen, 0, n);
    lemma_count_writes_concat(
        walk_actions(config, wss, m0, 0),
        reconcile_actions(entries, seen, 0),
        n,
    );
    if all_entries_parse(entries) {
        lemma_walked_map_at(config, wss, m0, 0, k);
        lemma_reconcile_map_seen(entries, seen, walked_map(config, wss, m0, 0), 0, n);
    }
}

/// Reconciliation: a workspace absent from this pass's snapshot whose
/// output entry still exists — exactly one directory entry parses to its
/// ordinal, and no entry is corrupt — gets exactly one clearing append in
/// the pass, and the Published-Output Map no longer knows it afterwards.
pub proof fn lemma_reconciliation(
    config: Config,
    wss: Seq<Workspace>,
    m0: Map<int, Seq<char>>,
    entries: Seq<Seq<char>>,
    n: int,
)
    requires
        !has_num(wss, n),
        all_entries_parse(entries),
        count_parsed(entries, 0, n) == 1,
    ensures
        count_clears(refresh_actions(config, wss, m0, entries), n) == 1,
        !refresh_map(config, wss, m0, entries).contains_key(n),
{
    let seen = num_set(wss);
    assert(!seen.contains(n));
    lemma_walk_no_clears(config, wss, m0, 0, n);
    lemma_reconcile_clears_count(entries, seen, 0, n);
    lemma_count_clears_concat(
        walk_actions(config, wss, m0, 0),
        reconcile_actions(entries, seen, 0),
        n,
    );
    lemma_reconcile_removes(entries, seen, walked_map(config, wss, m0, 0), 0, n);
}

} // verus!
