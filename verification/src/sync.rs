//! The output synchronizer: walks a snapshot in ordinal order, renders each
//! workspace, diffs the markup against the Published-Output Map, and emits
//! the filesystem actions of the pass — appends for changed workspaces,
//! clearing appends for disappeared ones, and a whole-directory reset when
//! an output entry's name is not a decimal ordinal.
//!
//! The synchronizer itself touches no file: it returns the exact sequence of
//! actions for the caller to perform on the output directory, in order.

use vstd::prelude::*;

use crate::config::Config;
use crate::numeral::spec_parse_i32;
use crate::numeral::parse_i32;
use crate::published::PublishedOutputs;
use crate::render::spec_module_output;
use crate::render::workspace_module_output;
use crate::workspace::Workspace;
use crate::workspace::contains_num;
use crate::workspace::num_set;
use crate::workspace::wf_snapshot;

verus! {

use vstd::string::StrSliceExecFns;

/// One filesystem action of a refresh pass, to be performed on the output
/// directory in the order returned.
#[derive(Debug)]
pub enum OutputAction {
    /// Append `text` to the output entry named by the decimal of `num`,
    /// creating it if absent.
    Append { num: i32, text: String },
    /// Append the clearing marker to the entry named by the decimal of
    /// `num`: the workspace disappeared.
    Clear { num: i32 },
    /// Delete the whole output directory and recreate it empty: an entry
    /// name was not a decimal ordinal, so the directory is treated as
    /// corrupt. Always last when present. The Published-Output Map is
    /// cleared along with it, so the next pass re-renders and re-appends
    /// every workspace from scratch.
    RemoveAll,
}

/// The mathematical shadow of an [`OutputAction`].
pub enum ActionModel {
    Append { num: int, text: Seq<char> },
    Clear { num: int },
    RemoveAll,
}

/// The model of one action.
pub open spec fn action_view(a: OutputAction) -> ActionModel {
    match a {
        OutputAction::Append { num, text } => ActionModel::Append {
            num: num as int,
            text: text@,
        },
        OutputAction::Clear { num } => ActionModel::Clear { num: num as int },
        OutputAction::RemoveAll => ActionModel::RemoveAll,
    }
}

/// The model of an action sequence.
pub open spec fn actions_view(s: Seq<OutputAction>) -> Seq<ActionModel> {
    s.map_values(|a: OutputAction| action_view(a))
}

/// The views of the entry names handed over from the output directory.
pub open spec fn entry_views(s: Seq<String>) -> Seq<Seq<char>> {
    s.map_values(|name: String| name@)
}

/// The markup the `i`-th workspace of the snapshot renders to in this pass:
/// its left neighbor is the workspace just before it, and the total count is
/// the snapshot's length.
pub open spec fn pass_output(config: Config, wss: Seq<Workspace>, i: int) -> Seq<char> {
    spec_module_output(
        config,
        wss[i].num as int,
        wss[i].focused,
        if i == 0 {
            Option::None
        } else {
            Option::Some(wss[i - 1].num as int)
        },
        wss.len() as int,
    )
}

/// What the map records for `n`, with the empty string standing for an
/// ordinal never published.
pub open spec fn published_or_empty(m: Map<int, Seq<char>>, n: int) -> Seq<char> {
    if m.contains_key(n) {
        m[n]
    } else {
        Seq::empty()
    }
}

/// Some workspace among the first `k` of `s` carries ordinal `n`.
pub open spec fn prefix_has_num(s: Seq<Workspace>, k: int, n: int) -> bool {
    exists|j: int| 0 <= j < k && s[j].num == n
}

/// The append actions of the walk over the snapshot from index `i` on: one
/// append per workspace whose markup differs from what the map recorded
/// before the pass, in snapshot order.
pub open spec fn walk_actions(
    config: Config,
    wss: Seq<Workspace>,
    m0: Map<int, Seq<char>>,
    i: int,
) -> Seq<ActionModel>
    decreases wss.len() - i,
{
    if i < 0 || i >= wss.len() {
        Seq::empty()
    } else {
        let rest = walk_actions(config, wss, m0, i + 1);
        if pass_output(config, wss, i) != published_or_empty(m0, wss[i].num as int) {
            seq![
                ActionModel::Append { num: wss[i].num as int, text: pass_output(config, wss, i) },
            ] + rest
        } else {
            rest
        }
    }
}

/// The map after the walk has recorded the markup of every workspace from
/// index `i` on into `m`.
pub open spec fn walked_map(
    config: Config,
    wss: Seq<Workspace>,
    m: Map<int, Seq<char>>,
    i: int,
) -> Map<int, Seq<char>>
    decreases wss.len() - i,
{
    if i < 0 || i >= wss.len() {
        m
    } else {
        walked_map(
            config,
            wss,
            m.insert(wss[i].num as int, pass_output(config, wss, i)),
            i + 1,
        )
    }
}

/// The reconciliation actions over the directory entries from index `j` on:
/// a clearing append per entry whose ordinal the pass did not see, and, on
/// the first entry that is no decimal ordinal, a single whole-directory
/// removal that ends the pass.
pub open spec fn reconcile_actions(
    entries: Seq<Seq<char>>,
    seen: Set<int>,
    j: int,
) -> Seq<ActionModel>
    decreases entries.len() - j,
{
    if j < 0 || j >= entries.len() {
        Seq::empty()
    } else {
        match spec_parse_i32(entries[j]) {
            Option::None => seq![ActionModel::RemoveAll],
            Option::Some(n) => {
                let rest = reconcile_actions(entries, seen, j + 1);
                if seen.contains(n) {
                    rest
                } else {
                    seq![ActionModel::Clear { num: n }] + rest
                }
            },
        }
    }
}

/// The map after reconciliation has walked the directory entries from index
/// `j` on: ordinals of disappeared workspaces are forgotten; a corrupt
/// entry name ends the pass with the map cleared, since the directory it
/// mirrored is deleted and nothing counts as published any more.
pub open spec fn reconcile_map(
    entries: Seq<Seq<char>>,
    seen: Set<int>,
    m: Map<int, Seq<char>>,
    j: int,
) -> Map<int, Seq<char>>
    decreases entries.len() - j,
{
    if j < 0 || j >= entries.len() {
        m
    } else {
        match spec_parse_i32(entries[j]) {
            Option::None => Map::empty(),
            Option::Some(n) => {
                if seen.contains(n) {
                    reconcile_map(entries, seen, m, j + 1)
                } else {
                    reconcile_map(entries, seen, m.remove(n), j + 1)
                }
            },
        }
    }
}

/// The full action sequence of one refresh pass.
pub open spec fn refresh_actions(
    config: Config,
    wss: Seq<Workspace>,
    m0: Map<int, Seq<char>>,
    entries: Seq<Seq<char>>,
) -> Seq<ActionModel> {
    walk_actions(config, wss, m0, 0) + reconcile_actions(entries, num_set(wss), 0)
}

/// The Published-Output Map after one refresh pass.
pub open spec fn refresh_map(
    config: Config,
    wss: Seq<Workspace>,
    m0: Map<int, Seq<char>>,
    entries: Seq<Seq<char>>,
) -> Map<int, Seq<char>> {
    reconcile_map(entries, num_set(wss), walked_map(config, wss, m0, 0), 0)
}

/// The marker appended to a disappeared workspace's output entry.
pub fn clearing_marker() -> (marker: String)
    ensures
        marker@ == "\n\n"@,
{
    String::from_str("\n\n")
}

/// One synchronization pass. Renders every workspace of the snapshot
/// against its left neighbor and the snapshot's total count, appends where
/// the markup differs from the last published one, records the new markup,
/// and then reconciles the existing output entries (`dir_entries`, the entry
/// names the caller read from the output directory): entries of disappeared
/// ordinals get one clearing append and are forgotten, and an entry whose
/// name is no decimal ordinal makes the pass end with a whole-directory
/// reset and the map cleared, so that the next pass republishes everything
/// from scratch. The returned actions are to be applied to the directory in
/// order.
pub fn refresh_workspaces(
    config: &Config,
    workspaces: &Vec<Workspace>,
    dir_entries: &Vec<String>,
    published: &mut PublishedOutputs,
) -> (actions: Vec<OutputAction>)
    requires
        config.wf(),
        wf_snapshot(workspaces@),
        workspaces@.len() <= 0x7fffffff,
        old(published).wf(),
    ensures
        final(published).wf(),
        final(published)@ == refresh_map(
            *config,
            workspaces@,
            old(published)@,
            entry_views(dir_entries@),
        ),
        actions_view(actions@) == refresh_actions(
            *config,
            workspaces@,
            old(published)@,
            entry_views(dir_entries@),
        ),
{
    let ghost m0 = published@;
    let ghost wss = workspaces@;
    let ghost entries = entry_views(dir_entries@);
    let workspace_count = workspaces.len() as i32;
    let mut actions: Vec<OutputAction> = Vec::new();
    let mut last_workspace_num: Option<i32> = None;
    let mut i: usize = 0;
    while i < workspaces.len()
        invariant
            config.wf(),
            wf_snapshot(wss),
            wss == workspaces@,
            wss.len() <= 0x7fffffff,
            workspace_count as int == wss.len() as int,
            0 <= i <= wss.len(),
            published.wf(),
            last_workspace_num == (if i == 0 {
                Option::<i32>::None
            } else {
                Option::Some(wss[i - 1].num)
            }),
            walked_map(*config, wss, m0, 0) == walked_map(*config, wss, published@, i as int),
            forall|n: int|
                #![trigger prefix_has_num(wss, i as int, n)]
                !prefix_has_num(wss, i as int, n) ==> (published@.contains_key(n)
                    == m0.contains_key(n) && published_or_empty(published@, n)
                    == published_or_empty(m0, n)),
            walk_actions(*config, wss, m0, 0) == actions_view(actions@) + walk_actions(
                *config,
                wss,
                m0,
                i as int,
            ),
        decreases wss.len() - i,
    {
        let ws = &workspaces[i];
        let text = workspace_module_output(config, ws, last_workspace_num, workspace_count);
        proof {
            assert(text@ == pass_output(*config, wss, i as int));
            assert(!prefix_has_num(wss, i as int, ws.num as int));
        }
        let changed = match published.get(ws.num) {
            Some(old_text) => !(*old_text == text),
            None => !text.as_str().is_empty(),
        };
        proof {
            assert(changed == (pass_output(*config, wss, i as int) != published_or_empty(
                m0,
                wss[i as int].num as int,
            )));
        }
        if changed {
            let entry = OutputAction::Append { num: ws.num, text: text.clone() };
            proof {
                assert(actions_view(actions@.push(entry)) =~= actions_view(actions@)
                    + seq![action_view(entry)]);
            }
            actions.push(entry);
        }
        let ghost pub_before = published@;
        published.set(ws.num, text);
        proof {
            assert forall|n: int|
                #![trigger prefix_has_num(wss, i + 1, n)]
                !prefix_has_num(wss, i + 1, n) implies (published@.contains_key(n)
                == m0.contains_key(n) && published_or_empty(published@, n)
                == published_or_empty(m0, n)) by {
                assert(n != wss[i as int].num as int) by {
                    if n == wss[i as int].num as int {
                        assert(0 <= i < i + 1 && wss[i as int].num == n);
                    }
                }
                assert(!prefix_has_num(wss, i as int, n)) by {
                    if prefix_has_num(wss, i as int, n) {
                        let j0 = choose|j0: int| 0 <= j0 < i && wss[j0].num == n;
                        assert(0 <= j0 < i + 1 && wss[j0].num == n);
                    }
                }
                assert(pub_before.contains_key(n) == m0.contains_key(n));
                assert(published@.contains_key(n) == pub_before.contains_key(n));
                assert(published_or_empty(pub_before, n) == published_or_empty(m0, n));
                assert(published_or_empty(published@, n) == published_or_empty(pub_before, n));
            }
        }
        last_workspace_num = Some(ws.num);
        i += 1;
    }
    proof {
        assert(walked_map(*config, wss, m0, 0) == published@);
        assert(actions_view(actions@) =~= walk_actions(*config, wss, m0, 0));
    }
    let ghost m1 = published@;
    let ghost seen = num_set(wss);
    let ghost walk_all = actions_view(actions@);
    let mut j: usize = 0;
    while j < dir_entries.len()
        invariant
            wss == workspaces@,
            entries == entry_views(dir_entries@),
            0 <= j <= entries.len(),
            published.wf(),
            seen == num_set(wss),
            m0 == old(published)@,
            walk_all == walk_actions(*config, wss, m0, 0),
            m1 == walked_map(*config, wss, m0, 0),
            reconcile_map(entries, seen, m1, 0) == reconcile_map(
                entries,
                seen,
                published@,
                j as int,
            ),
            walk_all + reconcile_actions(entries, seen, 0) == actions_view(actions@)
                + reconcile_actions(entries, seen, j as int),
        decreases entries.len() - j,
    {
        let name = &dir_entries[j];
        proof {
            assert(entries[j as int] == name@);
        }
        match parse_i32(name.as_str()) {
            None => {
                let entry = OutputAction::RemoveAll;
                proof {
                    assert(actions_view(actions@.push(entry)) =~= actions_view(actions@)
                        + seq![action_view(entry)]);
                    assert(reconcile_actions(entries, seen, j as int) =~= seq![
                        ActionModel::RemoveAll,
                    ]);
                }
                actions.push(entry);
                published.clear();
                return actions;
            },
            Some(num) => {
                if !contains_num(workspaces, num) {
                    proof {
                        assert(!seen.contains(num as int));
                    }
                    let entry = OutputAction::Clear { num };
                    proof {
                        assert(actions_view(actions@.push(entry)) =~= actions_view(actions@)
                            + seq![action_view(entry)]);
                    }
                    actions.push(entry);
                    published.remove(num);
                } else {
                    proof {
                        assert(seen.contains(num as int));
                    }
                }
            },
        }
        j += 1;
    }
    proof {
        assert(actions_view(actions@) =~= walk_all + reconcile_actions(entries, seen, 0));
    }
    actions
}

} // verus!
