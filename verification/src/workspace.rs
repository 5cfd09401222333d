//! Workspaces as the window manager reports them, and the placeholder
//! workspaces synthesized locally to satisfy a configured minimum count.

use vstd::prelude::*;

verus! {

/// One workspace as observed from the window manager, or synthesized as a
/// placeholder. The identity is the positive ordinal `num`; the renderer
/// reads only `num` and `focused`, the other fields are carried through.
pub struct Workspace {
    pub num: i32,
    pub name: String,
    pub visible: bool,
    pub focused: bool,
    pub urgent: bool,
    pub rect: (i32, i32, i32, i32),
    pub output: String,
}

impl Clone for Workspace {
    fn clone(&self) -> (other: Self)
        ensures
            other == *self,
    {
        Workspace {
            num: self.num,
            name: self.name.clone(),
            visible: self.visible,
            focused: self.focused,
            urgent: self.urgent,
            rect: self.rect,
            output: self.output.clone(),
        }
    }
}

/// A placeholder stands in for an ordinal the window manager did not report:
/// unfocused, unnamed, with a zero rectangle. It lives only for the duration
/// of one snapshot.
pub open spec fn is_placeholder(w: Workspace, n: int) -> bool {
    &&& w.num == n
    &&& w.name@ == Seq::<char>::empty()
    &&& !w.visible
    &&& !w.focused
    &&& !w.urgent
    &&& w.rect == (0i32, 0i32, 0i32, 0i32)
    &&& w.output@ == Seq::<char>::empty()
}

/// Builds the placeholder workspace for ordinal `n`.
pub fn placeholder_workspace(n: i32) -> (w: Workspace)
    ensures
        is_placeholder(w, n as int),
{
    Workspace {
        num: n,
        name: String::new(),
        visible: false,
        focused: false,
        urgent: false,
        rect: (0, 0, 0, 0),
        output: String::new(),
    }
}

/// Some workspace in `s` carries the ordinal `n`.
pub open spec fn has_num(s: Seq<Workspace>, n: int) -> bool {
    exists|j: int| 0 <= j < s.len() && s[j].num == n
}

/// No two workspaces in `s` share an ordinal.
pub open spec fn distinct_nums(s: Seq<Workspace>) -> bool {
    forall|i: int, j: int| 0 <= i < j < s.len() ==> s[i].num != s[j].num
}

/// Every ordinal in `s` is positive.
pub open spec fn positive_nums(s: Seq<Workspace>) -> bool {
    forall|i: int| 0 <= i < s.len() ==> s[i].num >= 1
}

/// The workspaces in `s` are in strictly ascending ordinal order.
pub open spec fn sorted_by_num(s: Seq<Workspace>) -> bool {
    forall|i: int, j: int| 0 <= i < j < s.len() ==> s[i].num < s[j].num
}

/// A snapshot handed to the synchronizer: ordered, duplicate-free, and made
/// of positive ordinals only.
pub open spec fn wf_snapshot(s: Seq<Workspace>) -> bool {
    &&& sorted_by_num(s)
    &&& positive_nums(s)
}

/// Ascending order leaves no room for a duplicate ordinal.
pub proof fn lemma_sorted_implies_distinct(s: Seq<Workspace>)
    requires
        sorted_by_num(s),
    ensures
        distinct_nums(s),
{
}

/// The set of ordinals present in a snapshot; what the synchronizer treats
/// as "seen in this pass".
pub open spec fn num_set(s: Seq<Workspace>) -> Set<int> {
    Set::new(|n: int| has_num(s, n))
}

/// Linear scan for an ordinal, used by the synchronizer's reconciliation
/// step in place of a separate seen-set.
pub fn contains_num(s: &Vec<Workspace>, n: i32) -> (found: bool)
    ensures
        found == has_num(s@, n as int),
{
    let mut j: usize = 0;
    while j < s.len()
        invariant
            0 <= j <= s@.len(),
            forall|k: int| 0 <= k < j ==> s@[k].num != n,
        decreases s@.len() - j,
    {
        if s[j].num == n {
            return true;
        }
        j += 1;
    }
    false
}

} // verus!
