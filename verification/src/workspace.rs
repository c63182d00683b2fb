//! Tab management of the workspace: the tab list of each pane, which tab
//! is shown, and what closing a tab leaves behind.

use vstd::prelude::*;

verus! {

/// Identifies an open tab.
pub type TabId = u64;

/// The tabs of one pane, in strip order, and the one that is shown.
#[derive(Debug, Clone)]
pub struct PaneTabs {
    pub tabs: Vec<TabId>,
    pub active: usize,
}

/// `active` shows a tab of the pane (or is 0 when the pane has none).
pub open spec fn tabs_wf(tabs: Seq<TabId>, active: usize) -> bool {
    if tabs.len() == 0 { active == 0 } else { active < tabs.len() }
}

impl PaneTabs {
    pub open spec fn wf(&self) -> bool {
        tabs_wf(self.tabs@, self.active)
    }

    /// A pane showing a single tab.
    pub fn new(first: TabId) -> (p: PaneTabs)
        ensures
            p.tabs@ == seq![first],
            p.active == 0,
            p.wf(),
    {
        let mut tabs = Vec::new();
        tabs.push(first);
        PaneTabs { tabs, active: 0 }
    }

    /// Shows the tab at `index`, or the last tab when `index` is past the
    /// end.
    pub fn select(&mut self, index: usize)
        ensures
            final(self).tabs == old(self).tabs,
            final(self).active == if old(self).tabs@.len() == 0 {
                0
            } else if index < old(self).tabs@.len() {
                index
            } else {
                (old(self).tabs@.len() - 1) as usize
            },
            final(self).wf(),
    {
        let last = if self.tabs.len() == 0 { 0 } else { self.tabs.len() - 1 };
        self.active = if index < last { index } else { last };
    }

    /// Adds a tab at the end of the strip and shows it.
    pub fn push_active(&mut self, id: TabId)
        ensures
            final(self).tabs@ == old(self).tabs@.push(id),
            final(self).active == old(self).tabs@.len(),
            final(self).wf(),
    {
        self.tabs.push(id);
        self.active = self.tabs.len() - 1;
    }

    /// The tab that is shown, if any.
    pub fn active_tab(&self) -> (res: Option<TabId>)
        ensures
            res == if self.active < self.tabs@.len() { Some(self.tabs@[self.active as int]) } else { None },
    {
        if self.active < self.tabs.len() {
            Some(self.tabs[self.active])
        } else {
            None
        }
    }

    /// Where `id` stands in the strip (its first occurrence).
    pub fn position(&self, id: TabId) -> (res: Option<usize>)
        ensures
            match res {
                Some(k) => k < self.tabs@.len() && self.tabs@[k as int] == id
                    && forall|j: int| 0 <= j < k ==> self.tabs@[j] != id,
                None => forall|j: int| 0 <= j < self.tabs@.len() ==> self.tabs@[j] != id,
            },
    {
        let mut i: usize = 0;
        while i < self.tabs.len()
            invariant
                i <= self.tabs@.len(),
                forall|j: int| 0 <= j < i ==> self.tabs@[j] != id,
            decreases self.tabs@.len() - i,
        {
            if self.tabs[i] == id {
                return Some(i);
            }
            i = i + 1;
        }
        None
    }

    /// Shows tab `id` if the pane holds it; says whether it does.
    pub fn focus(&mut self, id: TabId) -> (found: bool)
        ensures
            final(self).tabs == old(self).tabs,
            found == exists|j: int| 0 <= j < old(self).tabs@.len() && old(self).tabs@[j] == id,
            found ==> final(self).tabs@[final(self).active as int] == id
                && final(self).active < old(self).tabs@.len()
                && forall|j: int| 0 <= j < final(self).active ==> old(self).tabs@[j] != id,
            !found ==> final(self).active == old(self).active,
            old(self).wf() ==> final(self).wf(),
    {
        match self.position(id) {
            Some(k) => {
                self.active = k;
                true
            },
            None => false,
        }
    }

    /// Removes the tab at `index` (if there is one) and returns it; the
    /// shown tab stays the same position, or the last tab when that
    /// position is gone.
    pub fn remove(&mut self, index: usize) -> (res: Option<TabId>)
        ensures
            index >= old(self).tabs@.len() ==> res is None && *final(self) == *old(self),
            index < old(self).tabs@.len() ==> {
                &&& res == Some(old(self).tabs@[index as int])
                &&& final(self).tabs@ == old(self).tabs@.remove(index as int)
                &&& final(self).active == if old(self).active < final(self).tabs@.len() {
                        old(self).active
                    } else if final(self).tabs@.len() == 0 {
                        0
                    } else {
                        (final(self).tabs@.len() - 1) as usize
                    }
                &&& final(self).wf()
            },
    {
        if index >= self.tabs.len() {
            return None;
        }
        let id = self.tabs.remove(index);
        if self.active >= self.tabs.len() {
            self.active = if self.tabs.len() == 0 { 0 } else { self.tabs.len() - 1 };
        }
        Some(id)
    }
}

/// The allocator of tab ids: ids are handed out in increasing order, so no
/// id is given twice.
#[derive(Debug)]
pub struct TabIds {
    pub next: TabId,
}

impl TabIds {
    /// Starts handing out ids at `first`.
    pub fn starting_at(first: TabId) -> (ids: TabIds)
        ensures
            ids.next == first,
    {
        TabIds { next: first }
    }

    /// A new id.
    pub fn allocate(&mut self) -> (id: TabId)
        requires
            old(self).next < u64::MAX,
        ensures
            id == old(self).next,
            final(self).next == old(self).next + 1,
    {
        let id = self.next;
        self.next = self.next + 1;
        id
    }
}

/// Two ids allocated one after the other differ.
pub proof fn law_alloc_fresh(first: TabId, second: TabId, before: TabId)
    requires
        first == before,
        second == before + 1,
    ensures
        first != second,
        first < second,
{
}

/// What becomes of a pane after one of its tabs was closed.
#[derive(Debug, Clone, Copy, PartialEq, Eq, Structural)]
pub enum AfterClose {
    /// The pane still has tabs.
    Keep,
    /// The pane is empty and another pane exists: close it.
    ClosePane,
    /// The pane is the last one: it gets a launcher tab.
    AddLauncher,
}

/// What becomes of a pane after one of its tabs was closed.
pub open spec fn after_close_spec(pane_empty: bool, pane_count: int) -> AfterClose {
    if !pane_empty {
        AfterClose::Keep
    } else if pane_count > 1 {
        AfterClose::ClosePane
    } else {
        AfterClose::AddLauncher
    }
}

/// Keep at least one pane alive; the last pane gets a launcher.
pub fn after_close(pane_empty: bool, pane_count: usize) -> (res: AfterClose)
    ensures
        res == after_close_spec(pane_empty, pane_count as int),
{
    if !pane_empty {
        AfterClose::Keep
    } else if pane_count > 1 {
        AfterClose::ClosePane
    } else {
        AfterClose::AddLauncher
    }
}


// ------------------------------------------------------------------------
// The workspace as a whole
// ------------------------------------------------------------------------

/// The tab strips of all panes, with the allocator's next id, are sound:
/// there is a pane, no pane is empty, every id is below the next id, and no
/// id stands in two places.
pub open spec fn workspace_sound(strips: Seq<Seq<TabId>>, next: TabId) -> bool {
    &&& strips.len() >= 1
    &&& forall|p: int| 0 <= p < strips.len() ==> (#[trigger] strips[p]).len() > 0
    &&& forall|p: int, i: int| 0 <= p < strips.len() && 0 <= i < strips[p].len() ==> #[trigger] strips[p][i] < next
    &&& forall|p: int, i: int, q: int, j: int|
            #![trigger strips[p][i], strips[q][j]]
            0 <= p < strips.len() && 0 <= i < strips[p].len() && 0 <= q < strips.len() && 0 <= j < strips[q].len()
                && (p != q || i != j) ==> strips[p][i] != strips[q][j]
}

/// Opening a new tab (a freshly allocated id pushed onto a pane's strip)
/// keeps the workspace sound.
pub proof fn law_open_tab_sound(strips: Seq<Seq<TabId>>, next: TabId, pane: int)
    requires
        workspace_sound(strips, next),
        next < u64::MAX,
        0 <= pane < strips.len(),
    ensures
        workspace_sound(strips.update(pane, strips[pane].push(next)), (next + 1) as TabId),
{
    let r = strips.update(pane, strips[pane].push(next));
    assert forall|p: int, i: int| 0 <= p < r.len() && 0 <= i < r[p].len() implies #[trigger] r[p][i] < next + 1 by {
        if p == pane && i < strips[pane].len() {
            assert(r[p][i] == strips[p][i]);
        }
    }
    assert forall|p: int, i: int, q: int, j: int|
        #![trigger r[p][i], r[q][j]]
        0 <= p < r.len() && 0 <= i < r[p].len() && 0 <= q < r.len() && 0 <= j < r[q].len() && (p != q || i != j)
        implies r[p][i] != r[q][j] by {
        let old_p = !(p == pane && i == strips[pane].len());
        let old_q = !(q == pane && j == strips[pane].len());
        if old_p {
            assert(r[p][i] == strips[p][i]);
        }
        if old_q {
            assert(r[q][j] == strips[q][j]);
        }
    }
    assert forall|p: int| 0 <= p < r.len() implies (#[trigger] r[p]).len() > 0 by {}
}

/// Splitting a pane (a new pane holding one freshly allocated tab) keeps
/// the workspace sound.
pub proof fn law_split_sound(strips: Seq<Seq<TabId>>, next: TabId)
    requires
        workspace_sound(strips, next),
        next < u64::MAX,
    ensures
        workspace_sound(strips.push(seq![next]), (next + 1) as TabId),
{
    let r = strips.push(seq![next]);
    assert forall|p: int, i: int| 0 <= p < r.len() && 0 <= i < r[p].len() implies #[trigger] r[p][i] < next + 1 by {
        if p < strips.len() {
            assert(r[p] == strips[p]);
        }
    }
    assert forall|p: int, i: int, q: int, j: int|
        #![trigger r[p][i], r[q][j]]
        0 <= p < r.len() && 0 <= i < r[p].len() && 0 <= q < r.len() && 0 <= j < r[q].len() && (p != q || i != j)
        implies r[p][i] != r[q][j] by {
        if p < strips.len() {
            assert(r[p] == strips[p]);
        }
        if q < strips.len() {
            assert(r[q] == strips[q]);
        }
    }
    assert forall|p: int| 0 <= p < r.len() implies (#[trigger] r[p]).len() > 0 by {
        if p < strips.len() {
            assert(r[p] == strips[p]);
        }
    }
}

/// The strips after tab `i` of pane `pane` is closed, as `after_close`
/// decides: the pane keeps its other tabs; an emptied pane is closed when
/// another pane exists, else it gets a new launcher tab (id `next`).
pub open spec fn strips_after_close(strips: Seq<Seq<TabId>>, next: TabId, pane: int, i: int) -> Seq<Seq<TabId>> {
    let rest = strips[pane].remove(i);
    if rest.len() > 0 {
        strips.update(pane, rest)
    } else if strips.len() > 1 {
        strips.remove(pane)
    } else {
        strips.update(pane, seq![next])
    }
}

/// Closing a tab keeps the workspace sound (counting the id of the
/// launcher tab it may add).
pub proof fn law_close_tab_sound(strips: Seq<Seq<TabId>>, next: TabId, pane: int, i: int)
    requires
        workspace_sound(strips, next),
        next < u64::MAX,
        0 <= pane < strips.len(),
        0 <= i < strips[pane].len(),
    ensures
        workspace_sound(strips_after_close(strips, next, pane, i), (next + 1) as TabId),
{
    let rest = strips[pane].remove(i);
    let r = strips_after_close(strips, next, pane, i);
    // the ids of `rest` come from the pane
    assert forall|k: int| 0 <= k < rest.len() implies #[trigger] rest[k] == strips[pane][if k < i { k } else { k + 1 }] by {}
    if rest.len() > 0 {
        assert forall|p: int, a: int| 0 <= p < r.len() && 0 <= a < r[p].len() implies #[trigger] r[p][a] < next + 1 by {
            if p == pane {
                assert(r[p][a] == strips[pane][if a < i { a } else { a + 1 }]);
            } else {
                assert(r[p] == strips[p]);
            }
        }
        assert forall|p: int, a: int, q: int, b: int|
            #![trigger r[p][a], r[q][b]]
            0 <= p < r.len() && 0 <= a < r[p].len() && 0 <= q < r.len() && 0 <= b < r[q].len() && (p != q || a != b)
            implies r[p][a] != r[q][b] by {
            let aa = if p == pane { if a < i { a } else { a + 1 } } else { a };
            let bb = if q == pane { if b < i { b } else { b + 1 } } else { b };
            assert(r[p][a] == strips[p][aa]);
            assert(r[q][b] == strips[q][bb]);
        }
        assert forall|p: int| 0 <= p < r.len() implies (#[trigger] r[p]).len() > 0 by {
            if p != pane {
                assert(r[p] == strips[p]);
            }
        }
    } else if strips.len() > 1 {
        assert forall|p: int, a: int| 0 <= p < r.len() && 0 <= a < r[p].len() implies #[trigger] r[p][a] < next + 1 by {
            let pp = if p < pane { p } else { p + 1 };
            assert(r[p] == strips[pp]);
        }
        assert forall|p: int, a: int, q: int, b: int|
            #![trigger r[p][a], r[q][b]]
            0 <= p < r.len() && 0 <= a < r[p].len() && 0 <= q < r.len() && 0 <= b < r[q].len() && (p != q || a != b)
            implies r[p][a] != r[q][b] by {
            let pp = if p < pane { p } else { p + 1 };
            let qq = if q < pane { q } else { q + 1 };
            assert(r[p] == strips[pp]);
            assert(r[q] == strips[qq]);
            assert(r[p][a] == strips[pp][a]);
            assert(r[q][b] == strips[qq][b]);
        }
        assert forall|p: int| 0 <= p < r.len() implies (#[trigger] r[p]).len() > 0 by {
            let pp = if p < pane { p } else { p + 1 };
            assert(r[p] == strips[pp]);
        }
    } else {
        assert forall|p: int, a: int| 0 <= p < r.len() && 0 <= a < r[p].len() implies #[trigger] r[p][a] < next + 1 by {}
        assert forall|p: int| 0 <= p < r.len() implies (#[trigger] r[p]).len() > 0 by {}
    }
}


/// Some pane holds tab `id`.
pub open spec fn holds_id(strips: Seq<Seq<TabId>>, id: TabId) -> bool {
    exists|p: int, i: int| 0 <= p < strips.len() && 0 <= i < strips[p].len() && #[trigger] strips[p][i] == id
}

/// The ids of all tabs of the workspace (the keys of the app's tab table).
pub open spec fn workspace_ids(strips: Seq<Seq<TabId>>) -> Set<TabId> {
    Set::new(|id: TabId| holds_id(strips, id))
}

/// Opening a new tab adds exactly its id to the workspace's ids.
pub proof fn law_open_tab_ids(strips: Seq<Seq<TabId>>, next: TabId, pane: int)
    requires
        0 <= pane < strips.len(),
    ensures
        workspace_ids(strips.update(pane, strips[pane].push(next))) == workspace_ids(strips).insert(next),
{
    let r = strips.update(pane, strips[pane].push(next));
    assert forall|x: TabId| holds_id(r, x) <==> holds_id(strips, x) || x == next by {
        if holds_id(r, x) {
            let (p, i) = choose|p: int, i: int| 0 <= p < r.len() && 0 <= i < r[p].len() && #[trigger] r[p][i] == x;
            if !(p == pane && i == strips[pane].len()) {
                assert(strips[p][i] == x);
            }
        }
        if holds_id(strips, x) {
            let (p, i) = choose|p: int, i: int| 0 <= p < strips.len() && 0 <= i < strips[p].len() && #[trigger] strips[p][i] == x;
            assert(r[p][i] == x);
        }
        if x == next {
            assert(r[pane][strips[pane].len() as int] == x);
        }
    }
    assert(workspace_ids(r) =~= workspace_ids(strips).insert(next));
}

/// Splitting a pane adds exactly the new tab's id to the workspace's ids.
pub proof fn law_split_ids(strips: Seq<Seq<TabId>>, next: TabId)
    ensures
        workspace_ids(strips.push(seq![next])) == workspace_ids(strips).insert(next),
{
    let r = strips.push(seq![next]);
    assert forall|x: TabId| holds_id(r, x) <==> holds_id(strips, x) || x == next by {
        if holds_id(r, x) {
            let (p, i) = choose|p: int, i: int| 0 <= p < r.len() && 0 <= i < r[p].len() && #[trigger] r[p][i] == x;
            if p < strips.len() {
                assert(strips[p][i] == x);
            }
        }
        if holds_id(strips, x) {
            let (p, i) = choose|p: int, i: int| 0 <= p < strips.len() && 0 <= i < strips[p].len() && #[trigger] strips[p][i] == x;
            assert(r[p][i] == x);
        }
        if x == next {
            assert(r[strips.len() as int][0] == x);
        }
    }
    assert(workspace_ids(r) =~= workspace_ids(strips).insert(next));
}

/// Closing a tab removes exactly its id from the workspace's ids (and adds
/// the new launcher's id when the last pane was emptied).
pub proof fn law_close_tab_ids(strips: Seq<Seq<TabId>>, next: TabId, pane: int, i: int)
    requires
        workspace_sound(strips, next),
        0 <= pane < strips.len(),
        0 <= i < strips[pane].len(),
    ensures
        workspace_ids(strips_after_close(strips, next, pane, i)) == if strips[pane].len() > 1 || strips.len() > 1 {
            workspace_ids(strips).remove(strips[pane][i])
        } else {
            workspace_ids(strips).remove(strips[pane][i]).insert(next)
        },
{
    let id = strips[pane][i];
    let rest = strips[pane].remove(i);
    let r = strips_after_close(strips, next, pane, i);
    let launcher = !(strips[pane].len() > 1 || strips.len() > 1);
    assert forall|x: TabId| holds_id(r, x) <==> (holds_id(strips, x) && x != id) || (launcher && x == next) by {
        if rest.len() > 0 {
            if holds_id(r, x) {
                let (p, a) = choose|p: int, a: int| 0 <= p < r.len() && 0 <= a < r[p].len() && #[trigger] r[p][a] == x;
                let aa = if p == pane { if a < i { a } else { a + 1 } } else { a };
                assert(strips[p][aa] == x);
                assert(p != pane || aa != i);
            }
            if holds_id(strips, x) && x != id {
                let (p, a) = choose|p: int, a: int| 0 <= p < strips.len() && 0 <= a < strips[p].len() && #[trigger] strips[p][a] == x;
                if p == pane {
                    assert(a != i);
                    let b = if a < i { a } else { a - 1 };
                    assert(r[p][b] == x);
                } else {
                    assert(r[p][a] == x);
                }
            }
        } else if strips.len() > 1 {
            if holds_id(r, x) {
                let (p, a) = choose|p: int, a: int| 0 <= p < r.len() && 0 <= a < r[p].len() && #[trigger] r[p][a] == x;
                let pp = if p < pane { p } else { p + 1 };
                assert(r[p] == strips[pp]);
                assert(strips[pp][a] == x);
            }
            if holds_id(strips, x) && x != id {
                let (p, a) = choose|p: int, a: int| 0 <= p < strips.len() && 0 <= a < strips[p].len() && #[trigger] strips[p][a] == x;
                assert(p != pane);
                let q = if p < pane { p } else { p - 1 };
                assert(r[q] == strips[p]);
                assert(r[q][a] == x);
            }
        } else {
            if holds_id(r, x) {
                let (p, a) = choose|p: int, a: int| 0 <= p < r.len() && 0 <= a < r[p].len() && #[trigger] r[p][a] == x;
                assert(x == next);
            }
            if holds_id(strips, x) && x != id {
                let (p, a) = choose|p: int, a: int| 0 <= p < strips.len() && 0 <= a < strips[p].len() && #[trigger] strips[p][a] == x;
                assert(p == pane && a == i);
            }
            if x == next {
                assert(r[pane][0] == x);
            }
        }
    }
    assert(holds_id(strips, id)) by {
        assert(strips[pane][i] == id);
    }
    if launcher {
        assert(workspace_ids(r) =~= workspace_ids(strips).remove(id).insert(next));
    } else {
        assert(workspace_ids(r) =~= workspace_ids(strips).remove(id));
    }
}


/// Closes tab `index` of a pane in a workspace of `pane_count` panes: the
/// tab leaves the strip, and what becomes of the pane is decided. Nothing
/// happens for an index past the end.
pub fn close_in_pane(pane: &mut PaneTabs, index: usize, pane_count: usize) -> (res: Option<(TabId, AfterClose)>)
    ensures
        index >= old(pane).tabs@.len() ==> res is None && *final(pane) == *old(pane),
        index < old(pane).tabs@.len() ==> {
            &&& final(pane).tabs@ == old(pane).tabs@.remove(index as int)
            &&& final(pane).wf()
            &&& res == Some((old(pane).tabs@[index as int],
                    after_close_spec(old(pane).tabs@.remove(index as int).len() == 0, pane_count as int)))
        },
{
    match pane.remove(index) {
        Some(id) => {
            let decision = after_close(pane.tabs.len() == 0, pane_count);
            Some((id, decision))
        },
        None => None,
    }
}

/// The strips after a close, as the decision of `close_in_pane` has them
/// applied: the pane keeps its remaining tabs, is closed, or gets a new
/// launcher tab (id `next`).
pub open spec fn apply_close(strips: Seq<Seq<TabId>>, pane: int, remaining: Seq<TabId>, decision: AfterClose, next: TabId) -> Seq<Seq<TabId>> {
    match decision {
        AfterClose::Keep => strips.update(pane, remaining),
        AfterClose::ClosePane => strips.remove(pane),
        AfterClose::AddLauncher => strips.update(pane, seq![next]),
    }
}

/// What `close_in_pane` decides, applied to the workspace, is the close
/// that the soundness and id laws speak of; so closing through it keeps
/// the workspace sound and removes just the closed tab's id.
pub proof fn law_close_in_pane_applies(strips: Seq<Seq<TabId>>, next: TabId, pane: int, i: int)
    requires
        0 <= pane < strips.len(),
        0 <= i < strips[pane].len(),
    ensures
        apply_close(strips, pane, strips[pane].remove(i),
            after_close_spec(strips[pane].remove(i).len() == 0, strips.len() as int), next)
            == strips_after_close(strips, next, pane, i),
{
}

} // verus!
