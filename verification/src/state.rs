//! A picture of the session at one moment: every tab with the panes it
//! holds, and the questions operations and pickers ask of it.
//!
//! Reading the session is the caller's job; a snapshot is assembled from what
//! was read and then only queried. Every query speaks of the same ordered list
//! of tabs: the source pane's own workspace first, then every other one.
use vstd::prelude::*;

use crate::layout::{Shape, Tree};
use crate::model::{Pane, Workspace};
use crate::model::Tab;

verus! {

/// A tab plus the panes it currently holds, in workspace order.
#[derive(Debug, Clone)]
pub struct TabEntry {
    pub tab: Tab,
    /// 1-based slot in the workspace, i.e. the Quick Move number.
    pub position: usize,
    pub panes: Vec<Pane>,
    /// The tab's split tree, when it could be read.
    pub shape: Option<Shape>,
    /// Whether `shape` being `None` means "there is nothing to know": true
    /// for a one-pane tab, false for a tab whose layout could not be read.
    pub layout_known: bool,
}

pub open spec fn shape_view(s: Option<Shape>) -> Option<Tree> {
    match s {
        Some(x) => Some(x@),
        None => None,
    }
}

/// The arrangement a tab is known to have.
pub open spec fn layout_of(e: TabEntry) -> Option<Tree> {
    match e.shape {
        Some(s) => Some(s@),
        None => if e.layout_known && e.panes@.len() > 0 {
            Some(Tree::Leaf(e.panes@[0].pane_id@))
        } else {
            None
        },
    }
}

/// First focused pane at or after `i`.
pub open spec fn focused_from(panes: Seq<Pane>, i: int) -> Option<int>
    decreases panes.len() - i,
{
    if 0 <= i < panes.len() {
        if panes[i].focused {
            Some(i)
        } else {
            focused_from(panes, i + 1)
        }
    } else {
        None
    }
}

/// The pane a split lands on when nobody names one: the focused pane, else
/// the first.
pub open spec fn anchor_index(panes: Seq<Pane>) -> Option<int> {
    match focused_from(panes, 0) {
        Some(i) => Some(i),
        None => if panes.len() > 0 { Some(0) } else { None },
    }
}

impl TabEntry {
    /// The tab's arrangement, or `None` when it could not be read. A one-pane
    /// tab answers with the trivial shape: there really is one box to draw.
    pub fn layout(&self) -> (r: Option<Shape>)
        ensures
            shape_view(r) == layout_of(*self),
    {
        match &self.shape {
            Some(s) => Some(s.duplicate()),
            None => {
                if self.layout_known && self.panes.len() > 0 {
                    Some(Shape::pane(self.panes[0].pane_id.as_str()))
                } else {
                    None
                }
            },
        }
    }

    /// The pane a split lands on when nobody names one.
    pub fn split_anchor(&self) -> (r: Option<&Pane>)
        ensures
            match anchor_index(self.panes@) {
                Some(i) => r == Some(&self.panes@[i]),
                None => r is None,
            },
    {
        let mut i: usize = 0;
        while i < self.panes.len()
            invariant
                i <= self.panes@.len(),
                focused_from(self.panes@, 0) == focused_from(self.panes@, i as int),
            decreases self.panes@.len() - i,
        {
            if self.panes[i].focused {
                return Some(&self.panes[i]);
            }
            i = i + 1;
        }
        if self.panes.len() > 0 {
            Some(&self.panes[0])
        } else {
            None
        }
    }
}

// ---------------------------------------------------------------------------
// The ordered list every query reads
// ---------------------------------------------------------------------------

pub open spec fn tagged(w: Workspace, tabs: Seq<TabEntry>) -> Seq<(Workspace, TabEntry)> {
    tabs.map_values(|t: TabEntry| (w, t))
}

pub open spec fn others_entries(ws: Seq<(Workspace, Vec<TabEntry>)>) -> Seq<(Workspace, TabEntry)>
    decreases ws.len(),
{
    if ws.len() == 0 {
        seq![]
    } else {
        others_entries(ws.drop_last()) + tagged(ws.last().0, ws.last().1@)
    }
}

pub open spec fn pair_views(v: Seq<(&Workspace, &TabEntry)>) -> Seq<(Workspace, TabEntry)> {
    v.map_values(|p: (&Workspace, &TabEntry)| (*p.0, *p.1))
}

/// First index at or after `i` whose entry is tab `id`.
pub open spec fn entry_from(e: Seq<(Workspace, TabEntry)>, id: Seq<char>, i: int) -> Option<int>
    decreases e.len() - i,
{
    if 0 <= i < e.len() {
        if e[i].1.tab.tab_id@ == id {
            Some(i)
        } else {
            entry_from(e, id, i + 1)
        }
    } else {
        None
    }
}

/// The first pane with id `id` at or after entry `i`: the entry's index and
/// the pane's index within it.
pub open spec fn pane_from(e: Seq<(Workspace, TabEntry)>, id: Seq<char>, i: int) -> Option<(int, int)>
    decreases e.len() - i,
{
    if 0 <= i < e.len() {
        match pane_index_from(e[i].1.panes@, id, 0) {
            Some(j) => Some((i, j)),
            None => pane_from(e, id, i + 1),
        }
    } else {
        None
    }
}

/// Every pane of every entry, in order.
pub open spec fn panes_in(e: Seq<(Workspace, TabEntry)>) -> Seq<Pane>
    decreases e.len(),
{
    if e.len() == 0 {
        seq![]
    } else {
        panes_in(e.drop_last()) + e.last().1.panes@
    }
}

/// The ids of `panes`, leaving out `id`.
pub open spec fn ids_except(panes: Seq<Pane>, id: Seq<char>) -> Seq<Seq<char>>
    decreases panes.len(),
{
    if panes.len() == 0 {
        seq![]
    } else if panes.last().pane_id@ == id {
        ids_except(panes.drop_last(), id)
    } else {
        ids_except(panes.drop_last(), id).push(panes.last().pane_id@)
    }
}

/// The entries whose tab is not `id`.
pub open spec fn entries_except(e: Seq<(Workspace, TabEntry)>, id: Seq<char>) -> Seq<(Workspace, TabEntry)>
    decreases e.len(),
{
    if e.len() == 0 {
        seq![]
    } else if e.last().1.tab.tab_id@ == id {
        entries_except(e.drop_last(), id)
    } else {
        entries_except(e.drop_last(), id).push(e.last())
    }
}

/// `(workspace, tab, pane)` for each of `panes` other than `id`.
pub open spec fn triples_of(w: Workspace, t: TabEntry, panes: Seq<Pane>, id: Seq<char>) -> Seq<(Workspace, TabEntry, Pane)>
    decreases panes.len(),
{
    if panes.len() == 0 {
        seq![]
    } else if panes.last().pane_id@ == id {
        triples_of(w, t, panes.drop_last(), id)
    } else {
        triples_of(w, t, panes.drop_last(), id).push((w, t, panes.last()))
    }
}

/// Every pane of every entry other than `id`, with where it is.
pub open spec fn candidates(e: Seq<(Workspace, TabEntry)>, id: Seq<char>) -> Seq<(Workspace, TabEntry, Pane)>
    decreases e.len(),
{
    if e.len() == 0 {
        seq![]
    } else {
        candidates(e.drop_last(), id) + triples_of(e.last().0, e.last().1, e.last().1.panes@, id)
    }
}

pub open spec fn triple_views(v: Seq<(&Workspace, &TabEntry, &Pane)>) -> Seq<(Workspace, TabEntry, Pane)> {
    v.map_values(|p: (&Workspace, &TabEntry, &Pane)| (*p.0, *p.1, *p.2))
}

/// First index at or after `i` whose tab is `id`.
pub open spec fn tab_index_from(tabs: Seq<TabEntry>, id: Seq<char>, i: int) -> Option<int>
    decreases tabs.len() - i,
{
    if 0 <= i < tabs.len() {
        if tabs[i].tab.tab_id@ == id {
            Some(i)
        } else {
            tab_index_from(tabs, id, i + 1)
        }
    } else {
        None
    }
}

/// The first of the tabs after `here`, going round, that is not `id`.
pub open spec fn next_tab_from(tabs: Seq<TabEntry>, here: int, id: Seq<char>, step: int) -> Option<int>
    decreases tabs.len() - step,
{
    if 1 <= step < tabs.len() {
        let k = round(here, step, tabs.len() as int);
        if tabs[k].tab.tab_id@ != id {
            Some(k)
        } else {
            next_tab_from(tabs, here, id, step + 1)
        }
    } else {
        None
    }
}

/// First index at or after `i` holding pane `id`.
pub open spec fn pane_index_from(panes: Seq<Pane>, id: Seq<char>, i: int) -> Option<int>
    decreases panes.len() - i,
{
    if 0 <= i < panes.len() {
        if panes[i].pane_id@ == id {
            Some(i)
        } else {
            pane_index_from(panes, id, i + 1)
        }
    } else {
        None
    }
}

/// The first of the panes after `here`, going round, that is not `id`.
pub open spec fn next_pane_from(panes: Seq<Pane>, here: int, id: Seq<char>, step: int) -> Option<int>
    decreases panes.len() - step,
{
    if 1 <= step < panes.len() {
        let k = round(here, step, panes.len() as int);
        if panes[k].pane_id@ != id {
            Some(k)
        } else {
            next_pane_from(panes, here, id, step + 1)
        }
    } else {
        None
    }
}

/// First index at or after `i` holding Quick Move slot `position`.
pub open spec fn at_from(tabs: Seq<TabEntry>, position: nat, i: int) -> Option<int>
    decreases tabs.len() - i,
{
    if 0 <= i < tabs.len() {
        if tabs[i].position == position {
            Some(i)
        } else {
            at_from(tabs, position, i + 1)
        }
    } else {
        None
    }
}

/// The slot `step` places after `here`, going round a list of `n`.
pub open spec fn round(here: int, step: int, n: int) -> int {
    if here + step < n { here + step } else { here + step - n }
}

/// Everything that was read about the session at one moment.
#[derive(Debug)]
pub struct Snapshot {
    pub workspace: Workspace,
    /// Tabs of the source pane's workspace.
    pub tabs: Vec<TabEntry>,
    /// Tabs of every other workspace, for cross-workspace moves.
    pub other_workspaces: Vec<(Workspace, Vec<TabEntry>)>,
    /// Pane the operation acts on.
    pub source: Pane,
    /// Whether every workspace and split tree has been read.
    pub complete: bool,
}

impl Snapshot {
    /// Every tab, with its workspace: the source's own workspace first.
    pub open spec fn entries(&self) -> Seq<(Workspace, TabEntry)> {
        tagged(self.workspace, self.tabs@) + others_entries(self.other_workspaces@)
    }

    pub open spec fn is_complete(&self) -> bool {
        self.complete
    }

    /// A snapshot naming only the tabs it was given; not complete.
    pub fn of(workspace: Workspace, tabs: Vec<TabEntry>, source: Pane) -> (r: Self)
        ensures
            r.workspace == workspace,
            r.tabs@ == tabs@,
            r.other_workspaces@.len() == 0,
            r.source == source,
            !r.is_complete(),
    {
        Snapshot { workspace, tabs, other_workspaces: Vec::new(), source, complete: false }
    }

    /// A snapshot from everything that was read, saying whether that was
    /// every workspace and every split tree.
    pub fn assemble(
        workspace: Workspace,
        tabs: Vec<TabEntry>,
        other_workspaces: Vec<(Workspace, Vec<TabEntry>)>,
        source: Pane,
        complete: bool,
    ) -> (r: Self)
        ensures
            r.workspace == workspace,
            r.tabs@ == tabs@,
            r.other_workspaces@ == other_workspaces@,
            r.source == source,
            r.is_complete() == complete,
    {
        Snapshot { workspace, tabs, other_workspaces, source, complete }
    }

    /// Whether a destination picker can use this snapshot as it is.
    pub fn complete(&self) -> (r: bool)
        ensures
            r == self.is_complete(),
    {
        self.complete
    }

    /// Tabs of every workspace, the source's own first.
    pub fn all_tabs(&self) -> (r: Vec<(&Workspace, &TabEntry)>)
        ensures
            pair_views(r@) == self.entries(),
    {
        let mut out: Vec<(&Workspace, &TabEntry)> = Vec::new();
        let mut i: usize = 0;
        while i < self.tabs.len()
            invariant
                i <= self.tabs@.len(),
                pair_views(out@) == tagged(self.workspace, self.tabs@.take(i as int)),
            decreases self.tabs@.len() - i,
        {
            let ghost prev = out@;
            out.push((&self.workspace, &self.tabs[i]));
            proof {
                lemma_pair_push(prev, out@.last());
                lemma_tagged_take(self.workspace, self.tabs@, i as int);
            }
            i = i + 1;
        }
        proof {
            assert(self.tabs@.take(self.tabs@.len() as int) =~= self.tabs@);
        }
        let ghost own = pair_views(out@);
        let mut k: usize = 0;
        while k < self.other_workspaces.len()
            invariant
                k <= self.other_workspaces@.len(),
                own == tagged(self.workspace, self.tabs@),
                pair_views(out@) == own + others_entries(self.other_workspaces@.take(k as int)),
            decreases self.other_workspaces@.len() - k,
        {
            let w = &self.other_workspaces[k].0;
            let ts = &self.other_workspaces[k].1;
            let ghost before = pair_views(out@);
            let mut j: usize = 0;
            while j < ts.len()
                invariant
                    j <= ts@.len(),
                    pair_views(out@) == before + tagged(*w, ts@.take(j as int)),
                decreases ts@.len() - j,
            {
                let ghost prev = out@;
                out.push((w, &ts[j]));
                proof {
                    lemma_pair_push(prev, out@.last());
                    lemma_tagged_take(*w, ts@, j as int);
                    assert(pair_views(out@) =~= before + tagged(*w, ts@.take(j + 1)));
                }
                j = j + 1;
            }
            proof {
                let ws = self.other_workspaces@;
                assert(ts@.take(ts@.len() as int) =~= ts@);
                assert(ws.take(k + 1).drop_last() =~= ws.take(k as int));
                assert(ws.take(k + 1).last() == ws[k as int]);
                assert(pair_views(out@) =~= own + others_entries(ws.take(k + 1)));
            }
            k = k + 1;
        }
        proof {
            assert(self.other_workspaces@.take(self.other_workspaces@.len() as int) =~= self.other_workspaces@);
        }
        out
    }

    /// The tab `tab_id`, wherever it is.
    pub fn tab(&self, tab_id: &str) -> (r: Option<&TabEntry>)
        ensures
            match entry_from(self.entries(), tab_id@, 0) {
                Some(k) => r == Some(&self.entries()[k].1),
                None => r is None,
            },
    {
        let all = self.all_tabs();
        let ghost e = self.entries();
        let mut i: usize = 0;
        while i < all.len()
            invariant
                i <= all@.len(),
                pair_views(all@) == e,
                e == self.entries(),
                entry_from(e, tab_id@, 0) == entry_from(e, tab_id@, i as int),
            decreases all@.len() - i,
        {
            assert(pair_views(all@)[i as int] == e[i as int]);
            if crate::text::same_text(all[i].1.tab.tab_id.as_str(), tab_id) {
                assert(e[i as int].1.tab.tab_id@ == tab_id@);
                assert(entry_from(e, tab_id@, i as int) == Some(i as int));
                return Some(all[i].1);
            }
            i = i + 1;
        }
        None
    }

    /// Tab holding the source pane.
    pub fn source_tab(&self) -> (r: Option<&TabEntry>)
        ensures
            match entry_from(self.entries(), self.source.tab_id@, 0) {
                Some(k) => r == Some(&self.entries()[k].1),
                None => r is None,
            },
    {
        self.tab(self.source.tab_id.as_str())
    }

    /// The pane `pane_id`, wherever it is.
    pub fn pane(&self, pane_id: &str) -> (r: Option<&Pane>)
        ensures
            match pane_from(self.entries(), pane_id@, 0) {
                Some(k) => r == Some(&self.entries()[k.0].1.panes@[k.1]),
                None => r is None,
            },
    {
        let all = self.all_tabs();
        let ghost e = self.entries();
        let mut i: usize = 0;
        while i < all.len()
            invariant
                i <= all@.len(),
                pair_views(all@) == e,
                e == self.entries(),
                pane_from(e, pane_id@, 0) == pane_from(e, pane_id@, i as int),
            decreases all@.len() - i,
        {
            assert(pair_views(all@)[i as int] == e[i as int]);
            let panes = &all[i].1.panes;
            match pane_position(panes, pane_id) {
                Some(j) => {
                    assert(e[i as int].1.panes@ == panes@);
                    assert(pane_from(e, pane_id@, i as int) == Some((i as int, j as int)));
                    return Some(&panes[j]);
                },
                None => {},
            }
            i = i + 1;
        }
        None
    }

    /// Panes sharing `tab_id` with `pane_id`, excluding it.
    pub fn siblings(&self, pane_id: &str, tab_id: &str) -> (r: Vec<String>)
        ensures
            crate::layout::string_views(r@) == match entry_from(self.entries(), tab_id@, 0) {
                Some(k) => ids_except(self.entries()[k].1.panes@, pane_id@),
                None => seq![],
            },
    {
        let mut out: Vec<String> = Vec::new();
        match self.tab(tab_id) {
            None => {
                proof {
                    assert(crate::layout::string_views(out@) =~= Seq::<Seq<char>>::empty());
                }
                out
            },
            Some(entry) => {
                let mut j: usize = 0;
                while j < entry.panes.len()
                    invariant
                        j <= entry.panes@.len(),
                        crate::layout::string_views(out@) == ids_except(entry.panes@.take(j as int), pane_id@),
                    decreases entry.panes@.len() - j,
                {
                    proof {
                        assert(entry.panes@.take(j + 1).drop_last() =~= entry.panes@.take(j as int));
                    }
                    if !crate::text::same_text(entry.panes[j].pane_id.as_str(), pane_id) {
                        out.push(entry.panes[j].pane_id.clone());
                        proof {
                            assert(crate::layout::string_views(out@) =~= ids_except(entry.panes@.take(j as int), pane_id@).push(entry.panes@[j as int].pane_id@));
                        }
                    }
                    j = j + 1;
                }
                proof {
                    assert(entry.panes@.take(entry.panes@.len() as int) =~= entry.panes@);
                }
                out
            },
        }
    }

    /// Tab at a 1-based Quick Move slot, in the source's workspace.
    pub fn tab_at(&self, position: usize) -> (r: Option<&TabEntry>)
        ensures
            match at_from(self.tabs@, position as nat, 0) {
                Some(k) => r == Some(&self.tabs@[k]),
                None => r is None,
            },
    {
        let mut i: usize = 0;
        while i < self.tabs.len()
            invariant
                i <= self.tabs@.len(),
                at_from(self.tabs@, position as nat, 0) == at_from(self.tabs@, position as nat, i as int),
            decreases self.tabs@.len() - i,
        {
            if self.tabs[i].position == position {
                return Some(&self.tabs[i]);
            }
            i = i + 1;
        }
        None
    }

    /// Every tab except `tab_id`, across every workspace.
    fn entries_other_than(&self, tab_id: &str) -> (r: Vec<(&Workspace, &TabEntry)>)
        ensures
            pair_views(r@) == entries_except(self.entries(), tab_id@),
    {
        let all = self.all_tabs();
        let ghost e = self.entries();
        let mut out: Vec<(&Workspace, &TabEntry)> = Vec::new();
        let mut i: usize = 0;
        while i < all.len()
            invariant
                i <= all@.len(),
                pair_views(all@) == e,
                pair_views(out@) == entries_except(e.take(i as int), tab_id@),
            decreases all@.len() - i,
        {
            proof {
                assert(e.take(i + 1).drop_last() =~= e.take(i as int));
                assert(e.take(i + 1).last() == e[i as int]);
                assert(pair_views(all@)[i as int] == e[i as int]);
            }
            if !crate::text::same_text(all[i].1.tab.tab_id.as_str(), tab_id) {
                let ghost prev = out@;
                out.push(all[i]);
                proof {
                    lemma_pair_push(prev, out@.last());
                }
            }
            i = i + 1;
        }
        proof {
            assert(e.take(e.len() as int) =~= e);
        }
        out
    }

    /// Destination candidates for Move: every tab except the source's own,
    /// across every workspace.
    pub fn move_destinations(&self) -> (r: Vec<(&Workspace, &TabEntry)>)
        ensures
            pair_views(r@) == entries_except(self.entries(), self.source.tab_id@),
    {
        self.entries_other_than(self.source.tab_id.as_str())
    }

    /// Destination candidates for Merge: every tab except the one being
    /// emptied.
    pub fn merge_destinations(&self, source_tab_id: &str) -> (r: Vec<(&Workspace, &TabEntry)>)
        ensures
            pair_views(r@) == entries_except(self.entries(), source_tab_id@),
    {
        self.entries_other_than(source_tab_id)
    }

    /// Swap candidates: every pane except the source itself, same-tab and
    /// cross-tab alike.
    pub fn swap_candidates(&self) -> (r: Vec<(&Workspace, &TabEntry, &Pane)>)
        ensures
            triple_views(r@) == candidates(self.entries(), self.source.pane_id@),
    {
        let all = self.all_tabs();
        let ghost e = self.entries();
        let ghost id = self.source.pane_id@;
        let mut out: Vec<(&Workspace, &TabEntry, &Pane)> = Vec::new();
        let mut i: usize = 0;
        while i < all.len()
            invariant
                i <= all@.len(),
                pair_views(all@) == e,
                id == self.source.pane_id@,
                triple_views(out@) == candidates(e.take(i as int), id),
            decreases all@.len() - i,
        {
            let (w, t) = all[i];
            assert(pair_views(all@)[i as int] == e[i as int]);
            let ghost before = triple_views(out@);
            let mut j: usize = 0;
            while j < t.panes.len()
                invariant
                    j <= t.panes@.len(),
                    id == self.source.pane_id@,
                    triple_views(out@) == before + triples_of(*w, *t, t.panes@.take(j as int), id),
                decreases t.panes@.len() - j,
            {
                proof {
                    assert(t.panes@.take(j + 1).drop_last() =~= t.panes@.take(j as int));
                }
                if !crate::text::same_text(t.panes[j].pane_id.as_str(), self.source.pane_id.as_str()) {
                    let ghost prev = out@;
                    out.push((w, t, &t.panes[j]));
                    proof {
                        lemma_triple_push(prev, out@.last());
                        assert(triple_views(out@) =~= before + triples_of(*w, *t, t.panes@.take(j + 1), id));
                    }
                } else {
                    proof {
                        assert(triple_views(out@) =~= before + triples_of(*w, *t, t.panes@.take(j + 1), id));
                    }
                }
                j = j + 1;
            }
            proof {
                assert(t.panes@.take(t.panes@.len() as int) =~= t.panes@);
                assert(e.take(i + 1).drop_last() =~= e.take(i as int));
                assert(e.take(i + 1).last() == e[i as int]);
            }
            i = i + 1;
        }
        proof {
            assert(e.take(e.len() as int) =~= e);
        }
        out
    }

    /// The tab `tab_id`, or the refusal an operation gives when it has gone.
    pub fn require_tab(&self, tab_id: &str) -> (r: Result<&TabEntry, String>)
        ensures
            match entry_from(self.entries(), tab_id@, 0) {
                Some(k) => r == Ok::<&TabEntry, String>(&self.entries()[k].1),
                None => r is Err && r->Err_0@ == "Destination tab no longer exists."@,
            },
    {
        match self.tab(tab_id) {
            Some(entry) => Ok(entry),
            None => Err(crate::text::owned("Destination tab no longer exists.")),
        }
    }

    /// The pane `pane_id`, or the refusal an operation gives when it has gone.
    pub fn require_pane(&self, pane_id: &str) -> (r: Result<&Pane, String>)
        ensures
            match pane_from(self.entries(), pane_id@, 0) {
                Some(k) => r == Ok::<&Pane, String>(&self.entries()[k.0].1.panes@[k.1]),
                None => r is Err && r->Err_0@ == "Destination pane no longer exists."@,
            },
    {
        match self.pane(pane_id) {
            Some(p) => Ok(p),
            None => Err(crate::text::owned("Destination pane no longer exists.")),
        }
    }

    /// Where a Move or a Fold goes when the reader does not pick a tab: the
    /// next tab round, wrapping from the last to the first. `None` only when
    /// there is no other tab.
    pub fn next_tab(&self) -> (r: Option<&TabEntry>)
        ensures
            match tab_index_from(self.tabs@, self.source.tab_id@, 0) {
                Some(here) => match next_tab_from(self.tabs@, here, self.source.tab_id@, 1) {
                    Some(k) => r == Some(&self.tabs@[k]),
                    None => r is None,
                },
                None => r is None,
            },
    {
        let n = self.tabs.len();
        let h = match tab_position(&self.tabs, self.source.tab_id.as_str()) {
            Some(h) => h,
            None => return None,
        };
        let mut step: usize = 1;
        while step < n
            invariant
                n == self.tabs@.len(),
                h < n,
                tab_index_from(self.tabs@, self.source.tab_id@, 0) == Some(h as int),
                1 <= step,
                next_tab_from(self.tabs@, h as int, self.source.tab_id@, 1)
                    == next_tab_from(self.tabs@, h as int, self.source.tab_id@, step as int),
            decreases n - step,
        {
            let k = if step < n - h { h + step } else { step - (n - h) };
            if !crate::text::same_text(self.tabs[k].tab.tab_id.as_str(), self.source.tab_id.as_str()) {
                return Some(&self.tabs[k]);
            }
            step = step + 1;
        }
        None
    }

    /// Where a Swap goes when the reader does not pick a pane: the next pane
    /// round the same tab.
    pub fn next_pane_here(&self) -> (r: Option<&Pane>)
        ensures
            match r {
                Some(p) => next_pane_of(*self) == Some(*p),
                None => next_pane_of(*self) is None,
            },
            match entry_from(self.entries(), self.source.tab_id@, 0) {
                Some(t) => match pane_index_from(self.entries()[t].1.panes@, self.source.pane_id@, 0) {
                    Some(here) => match next_pane_from(self.entries()[t].1.panes@, here, self.source.pane_id@, 1) {
                        Some(k) => r == Some(&self.entries()[t].1.panes@[k]),
                        None => r is None,
                    },
                    None => r is None,
                },
                None => r is None,
            },
    {
        let tab = match self.source_tab() {
            Some(t) => t,
            None => return None,
        };
        let panes = &tab.panes;
        let n = panes.len();
        let h = match pane_position(panes, self.source.pane_id.as_str()) {
            Some(h) => h,
            None => return None,
        };
        let mut step: usize = 1;
        while step < n
            invariant
                n == panes@.len(),
                h < n,
                *panes == tab.panes,
                entry_from(self.entries(), self.source.tab_id@, 0) is Some,
                *tab == self.entries()[entry_from(self.entries(), self.source.tab_id@, 0)->0].1,
                pane_index_from(panes@, self.source.pane_id@, 0) == Some(h as int),
                1 <= step,
                next_pane_from(panes@, h as int, self.source.pane_id@, 1)
                    == next_pane_from(panes@, h as int, self.source.pane_id@, step as int),
            decreases n - step,
        {
            let k = if step < n - h { h + step } else { step - (n - h) };
            if !crate::text::same_text(panes[k].pane_id.as_str(), self.source.pane_id.as_str()) {
                return Some(&panes[k]);
            }
            step = step + 1;
        }
        None
    }
}

proof fn lemma_pair_push(v: Seq<(&Workspace, &TabEntry)>, x: (&Workspace, &TabEntry))
    ensures
        pair_views(v.push(x)) == pair_views(v).push((*x.0, *x.1)),
{
    assert(pair_views(v.push(x)) =~= pair_views(v).push((*x.0, *x.1)));
}

proof fn lemma_triple_push(v: Seq<(&Workspace, &TabEntry, &Pane)>, x: (&Workspace, &TabEntry, &Pane))
    ensures
        triple_views(v.push(x)) == triple_views(v).push((*x.0, *x.1, *x.2)),
{
    assert(triple_views(v.push(x)) =~= triple_views(v).push((*x.0, *x.1, *x.2)));
}

proof fn lemma_tagged_take(w: Workspace, s: Seq<TabEntry>, i: int)
    requires
        0 <= i < s.len(),
    ensures
        tagged(w, s.take(i + 1)) == tagged(w, s.take(i)).push((w, s[i])),
{
    assert(tagged(w, s.take(i + 1)) =~= tagged(w, s.take(i)).push((w, s[i])));
}

/// Index of the first tab `id` in `tabs`.
fn tab_position(tabs: &Vec<TabEntry>, id: &str) -> (r: Option<usize>)
    ensures
        match tab_index_from(tabs@, id@, 0) {
            Some(k) => r matches Some(x) && x == k && 0 <= k < tabs@.len() && tabs@[k].tab.tab_id@ == id@,
            None => r is None,
        },
{
    let mut h: usize = 0;
    while h < tabs.len()
        invariant
            h <= tabs@.len(),
            tab_index_from(tabs@, id@, 0) == tab_index_from(tabs@, id@, h as int),
        decreases tabs@.len() - h,
    {
        if crate::text::same_text(tabs[h].tab.tab_id.as_str(), id) {
            return Some(h);
        }
        h = h + 1;
    }
    None
}

/// Index of the first pane `id` in `panes`.
fn pane_position(panes: &Vec<Pane>, id: &str) -> (r: Option<usize>)
    ensures
        match pane_index_from(panes@, id@, 0) {
            Some(k) => r matches Some(x) && x == k && 0 <= k < panes@.len() && panes@[k].pane_id@ == id@,
            None => r is None,
        },
{
    let mut h: usize = 0;
    while h < panes.len()
        invariant
            h <= panes@.len(),
            pane_index_from(panes@, id@, 0) == pane_index_from(panes@, id@, h as int),
        decreases panes@.len() - h,
    {
        if crate::text::same_text(panes[h].pane_id.as_str(), id) {
            return Some(h);
        }
        h = h + 1;
    }
    None
}

} // verus!

verus! {

/// The tab a Move or a Fold goes to when the reader does not pick one.
pub open spec fn next_tab_of(s: Snapshot) -> Option<TabEntry> {
    match tab_index_from(s.tabs@, s.source.tab_id@, 0) {
        Some(here) => match next_tab_from(s.tabs@, here, s.source.tab_id@, 1) {
            Some(k) => Some(s.tabs@[k]),
            None => None,
        },
        None => None,
    }
}

/// Where a Swap goes when the reader does not pick a pane.
pub open spec fn next_pane_of(s: Snapshot) -> Option<Pane> {
    match entry_from(s.entries(), s.source.tab_id@, 0) {
        Some(t) => match pane_index_from(s.entries()[t].1.panes@, s.source.pane_id@, 0) {
            Some(here) => match next_pane_from(s.entries()[t].1.panes@, here, s.source.pane_id@, 1) {
                Some(k) => Some(s.entries()[t].1.panes@[k]),
                None => None,
            },
            None => None,
        },
        None => None,
    }
}

/// The slot `s` places after `h` in a list of `n`, wrapping from the last
/// to the first.
pub open spec fn after(h: int, s: int, n: int) -> int {
    (h + s) % n
}

proof fn lemma_round_is_after(h: int, s: int, n: int)
    requires
        0 <= h < n,
        1 <= s < n,
    ensures
        round(h, s, n) == after(h, s, n),
{
    if h + s < n {
        vstd::arithmetic::div_mod::lemma_fundamental_div_mod_converse(h + s, n, 0, h + s);
    } else {
        vstd::arithmetic::div_mod::lemma_fundamental_div_mod_converse(h + s, n, 1, h + s - n);
    }
}

proof fn lemma_tab_index_first(tabs: Seq<TabEntry>, id: Seq<char>, i: int, h: int)
    requires
        0 <= i <= h < tabs.len(),
        tabs[h].tab.tab_id@ == id,
        forall|j: int| i <= j < h ==> tabs[j].tab.tab_id@ != id,
    ensures
        tab_index_from(tabs, id, i) == Some(h),
    decreases h - i,
{
    if i < h {
        lemma_tab_index_first(tabs, id, i + 1, h);
    }
}

proof fn lemma_tab_index_absent(tabs: Seq<TabEntry>, id: Seq<char>, i: int)
    requires
        0 <= i,
        forall|j: int| 0 <= j < tabs.len() ==> tabs[j].tab.tab_id@ != id,
    ensures
        tab_index_from(tabs, id, i) is None,
    decreases tabs.len() - i,
{
    if i < tabs.len() {
        lemma_tab_index_absent(tabs, id, i + 1);
    }
}

proof fn lemma_entry_first(e: Seq<(Workspace, TabEntry)>, id: Seq<char>, i: int, t: int)
    requires
        0 <= i <= t < e.len(),
        e[t].1.tab.tab_id@ == id,
        forall|j: int| i <= j < t ==> e[j].1.tab.tab_id@ != id,
    ensures
        entry_from(e, id, i) == Some(t),
    decreases t - i,
{
    if i < t {
        lemma_entry_first(e, id, i + 1, t);
    }
}

proof fn lemma_pane_index_first(panes: Seq<Pane>, id: Seq<char>, i: int, h: int)
    requires
        0 <= i <= h < panes.len(),
        panes[h].pane_id@ == id,
        forall|j: int| i <= j < h ==> panes[j].pane_id@ != id,
    ensures
        pane_index_from(panes, id, i) == Some(h),
    decreases h - i,
{
    if i < h {
        lemma_pane_index_first(panes, id, i + 1, h);
    }
}

proof fn lemma_next_tab_steps(tabs: Seq<TabEntry>, h: int, id: Seq<char>, step: int)
    requires
        0 <= h < tabs.len(),
        1 <= step,
        forall|j: int| 1 <= j < step && j < tabs.len() ==> #[trigger] tabs[after(h, j, tabs.len() as int)].tab.tab_id@ == id,
    ensures
        ({
            let n = tabs.len() as int;
            match next_tab_from(tabs, h, id, step) {
                Some(k) => exists|s: int| #![trigger after(h, s, n)]
                    1 <= s < n && k == after(h, s, n) && tabs[k].tab.tab_id@ != id
                        && forall|j: int| 1 <= j < s ==> #[trigger] tabs[after(h, j, n)].tab.tab_id@ == id,
                None => forall|j: int| 1 <= j < n ==> #[trigger] tabs[after(h, j, n)].tab.tab_id@ == id,
            }
        }),
    decreases tabs.len() - step,
{
    let n = tabs.len() as int;
    if 1 <= step < n {
        lemma_round_is_after(h, step, n);
        if tabs[round(h, step, n)].tab.tab_id@ == id {
            lemma_next_tab_steps(tabs, h, id, step + 1);
        } else {
            assert(after(h, step, n) == after(h, step, n));
        }
    }
}

proof fn lemma_next_pane_steps(panes: Seq<Pane>, h: int, id: Seq<char>, step: int)
    requires
        0 <= h < panes.len(),
        1 <= step,
        forall|j: int| 1 <= j < step && j < panes.len() ==> #[trigger] panes[after(h, j, panes.len() as int)].pane_id@ == id,
    ensures
        ({
            let n = panes.len() as int;
            match next_pane_from(panes, h, id, step) {
                Some(k) => exists|s: int| #![trigger after(h, s, n)]
                    1 <= s < n && k == after(h, s, n) && panes[k].pane_id@ != id
                        && forall|j: int| 1 <= j < s ==> #[trigger] panes[after(h, j, n)].pane_id@ == id,
                None => forall|j: int| 1 <= j < n ==> #[trigger] panes[after(h, j, n)].pane_id@ == id,
            }
        }),
    decreases panes.len() - step,
{
    let n = panes.len() as int;
    if 1 <= step < n {
        lemma_round_is_after(h, step, n);
        if panes[round(h, step, n)].pane_id@ == id {
            lemma_next_pane_steps(panes, h, id, step + 1);
        } else {
            assert(after(h, step, n) == after(h, step, n));
        }
    }
}

/// **Law.** Move's default destination is the following tab. With the
/// source's tab first found at index `h` of the workspace's `n` tabs, the
/// result is the tab `s` places on, `(h + s) mod n`, for the least `s >= 1`
/// whose tab is another tab: the next one round, wrapping from the last to
/// the first. There is none only when every other slot holds the source's
/// tab again.
pub proof fn lemma_next_tab_follows(snapshot: Snapshot, h: int)
    requires
        0 <= h < snapshot.tabs@.len(),
        snapshot.tabs@[h].tab.tab_id@ == snapshot.source.tab_id@,
        forall|j: int| 0 <= j < h ==> snapshot.tabs@[j].tab.tab_id@ != snapshot.source.tab_id@,
    ensures
        ({
            let tabs = snapshot.tabs@;
            let id = snapshot.source.tab_id@;
            let n = tabs.len() as int;
            match next_tab_of(snapshot) {
                Some(t) => exists|s: int| #![trigger after(h, s, n)]
                    1 <= s < n && t == tabs[after(h, s, n)] && tabs[after(h, s, n)].tab.tab_id@ != id
                        && forall|j: int| 1 <= j < s ==> #[trigger] tabs[after(h, j, n)].tab.tab_id@ == id,
                None => forall|j: int| 1 <= j < n ==> #[trigger] tabs[after(h, j, n)].tab.tab_id@ == id,
            }
        }),
{
    lemma_tab_index_first(snapshot.tabs@, snapshot.source.tab_id@, 0, h);
    lemma_next_tab_steps(snapshot.tabs@, h, snapshot.source.tab_id@, 1);
}

/// **Law.** A tab that is not among the workspace's tabs has no next tab.
pub proof fn lemma_next_tab_needs_source(snapshot: Snapshot)
    requires
        forall|j: int| 0 <= j < snapshot.tabs@.len() ==> snapshot.tabs@[j].tab.tab_id@ != snapshot.source.tab_id@,
    ensures
        next_tab_of(snapshot) is None,
{
    lemma_tab_index_absent(snapshot.tabs@, snapshot.source.tab_id@, 0);
}

/// **Law.** Swap's default partner is the following pane of the source's
/// tab. With that tab first found at entry `t` and the source pane first
/// found at index `h` of its `n` panes, the result is the pane `(h + s) mod n`
/// for the least `s >= 1` whose pane is another pane: the next one round,
/// wrapping from the last to the first. There is none only when every other
/// slot holds the source pane again.
pub proof fn lemma_next_pane_follows(snapshot: Snapshot, t: int, h: int)
    requires
        0 <= t < snapshot.entries().len(),
        snapshot.entries()[t].1.tab.tab_id@ == snapshot.source.tab_id@,
        forall|j: int| 0 <= j < t ==> snapshot.entries()[j].1.tab.tab_id@ != snapshot.source.tab_id@,
        0 <= h < snapshot.entries()[t].1.panes@.len(),
        snapshot.entries()[t].1.panes@[h].pane_id@ == snapshot.source.pane_id@,
        forall|j: int| 0 <= j < h ==> snapshot.entries()[t].1.panes@[j].pane_id@ != snapshot.source.pane_id@,
    ensures
        ({
            let panes = snapshot.entries()[t].1.panes@;
            let id = snapshot.source.pane_id@;
            let n = panes.len() as int;
            match next_pane_of(snapshot) {
                Some(p) => exists|s: int| #![trigger after(h, s, n)]
                    1 <= s < n && p == panes[after(h, s, n)] && panes[after(h, s, n)].pane_id@ != id
                        && forall|j: int| 1 <= j < s ==> #[trigger] panes[after(h, j, n)].pane_id@ == id,
                None => forall|j: int| 1 <= j < n ==> #[trigger] panes[after(h, j, n)].pane_id@ == id,
            }
        }),
{
    let panes = snapshot.entries()[t].1.panes@;
    lemma_entry_first(snapshot.entries(), snapshot.source.tab_id@, 0, t);
    lemma_pane_index_first(panes, snapshot.source.pane_id@, 0, h);
    lemma_next_pane_steps(panes, h, snapshot.source.pane_id@, 1);
}

/// The tab at a Quick Move slot.
pub open spec fn tab_at_of(s: Snapshot, position: nat) -> Option<TabEntry> {
    match at_from(s.tabs@, position, 0) {
        Some(k) => Some(s.tabs@[k]),
        None => None,
    }
}

} // verus!
