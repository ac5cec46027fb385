use vstd::prelude::*;
use crate::item::{ProjectItemHandle, ProjectPaneItemHandle};
use crate::registry::{build_project_pane_item, OpenError, Registry, RegistryView};
use crate::pane::{lemma_first_match, Pane, PaneId, PaneView};
use crate::pane_tree::{ids_unique, index_of_from, lemma_index_of, seq_has_id, PaneTree};

verus! {

/// The panes of a project's window, which of them is active, and the
/// counters that give new panes and new item views their ids.
pub struct Workspace {
    pane_tree: PaneTree,
    next_pane_id: PaneId,
    active_pane_id: PaneId,
    next_view_id: u64,
}

pub ghost struct WorkspaceView {
    pub panes: Seq<PaneView>,
    pub next_pane_id: PaneId,
    pub active_pane_id: PaneId,
    pub next_view_id: u64,
}

impl WorkspaceView {
    /// Pane ids are unique and below the next one to be given out, and the
    /// active pane exists.
    pub open spec fn wf(self) -> bool {
        &&& ids_unique(self.panes)
        &&& seq_has_id(self.panes, self.active_pane_id)
        &&& forall|k: int| 0 <= k < self.panes.len() ==> #[trigger] self.panes[k].id < self.next_pane_id
    }

    pub open spec fn active_index(self) -> int {
        index_of_from(self.panes, self.active_pane_id, 0)
    }

    pub open spec fn active_pane(self) -> PaneView {
        self.panes[self.active_index()]
    }

    pub open spec fn with_active_pane(self, p: PaneView) -> WorkspaceView {
        WorkspaceView { panes: self.panes.update(self.active_index(), p), ..self }
    }

    /// The workspace after a model was loaded (or failed to load) and
    /// opened into the active pane, and what the open returns: an item
    /// already there for the same entry is activated and returned;
    /// otherwise a new item is built and appended.
    pub open spec fn opened(self, reg: RegistryView, loaded: Result<ProjectItemHandle, OpenError>) -> (WorkspaceView, Result<ProjectPaneItemHandle, OpenError>) {
        match loaded {
            Err(e) => (self, Err(e)),
            Ok(m) => {
                let p = self.active_pane();
                let (p1, found) = p.activating(reg, m.entry_id);
                match found {
                    Some(h) => (self.with_active_pane(p1), Ok(h)),
                    None => match reg.built(m, self.next_view_id) {
                        Err(e) => (self, Err(e)),
                        Ok(h) => (
                            WorkspaceView {
                                next_view_id: (self.next_view_id + 1) as u64,
                                ..self.with_active_pane(p.added(h.spec_as_pane_item()))
                            },
                            Ok(h),
                        ),
                    },
                }
            },
        }
    }

    /// The workspace after closing the active item of the active pane.
    pub open spec fn closed_active_item(self) -> WorkspaceView {
        self.with_active_pane(self.active_pane().closed())
    }
}

impl View for Workspace {
    type V = WorkspaceView;

    closed spec fn view(&self) -> WorkspaceView {
        WorkspaceView {
            panes: self.pane_tree.panes(),
            next_pane_id: self.next_pane_id,
            active_pane_id: self.active_pane_id,
            next_view_id: self.next_view_id,
        }
    }
}

/// Replacing the active pane by one with the same id keeps the workspace
/// well formed and the same pane active.
proof fn lemma_same_id_update(w: WorkspaceView, p: PaneView)
    requires
        w.wf(),
        p.id == w.active_pane_id,
    ensures
        0 <= w.active_index() < w.panes.len(),
        w.active_pane().id == w.active_pane_id,
        w.with_active_pane(p).wf(),
        w.with_active_pane(p).active_index() == w.active_index(),
        w.with_active_pane(p).active_pane() == p,
        p == w.active_pane() ==> w.with_active_pane(p) == w,
{
    lemma_index_of(w.panes, w.active_pane_id, 0);
    let k = w.active_index();
    let s2 = w.panes.update(k, p);
    lemma_index_of(s2, w.active_pane_id, 0);
    assert(s2[k].id == w.active_pane_id);
    let k2 = index_of_from(s2, w.active_pane_id, 0);
    assert(k2 == k) by {
        if k2 < k {
            assert(s2[k2] == w.panes[k2]);
        }
    }
    assert forall|k3: int| 0 <= k3 < s2.len() implies #[trigger] s2[k3].id < w.next_pane_id by {
        if k3 == k {
            assert(w.panes[k].id < w.next_pane_id);
        }
    }
    assert forall|a: int, b: int| 0 <= a < b < s2.len() implies #[trigger] s2[a].id != #[trigger] s2[b].id by {
        assert(w.panes[a].id != w.panes[b].id);
    }
    if p == w.active_pane() {
        assert(s2 =~= w.panes);
    }
}

impl Workspace {
    /// The tree of panes.
    pub closed spec fn tree(&self) -> PaneTree {
        self.pane_tree
    }

    /// A workspace of one empty pane with id 0, which is active.
    pub fn new() -> (r: Workspace)
        ensures
            r@ == (WorkspaceView {
                panes: seq![PaneView { id: 0, items: Seq::empty(), active_item_index: 0 }],
                next_pane_id: 1,
                active_pane_id: 0,
                next_view_id: 0,
            }),
            r@.wf(),
            r.tree() is Pane,
            r.tree()->Pane_0@ == (PaneView { id: 0, items: Seq::empty(), active_item_index: 0 }),
    {
        let pane_tree = PaneTree::new();
        let r = Workspace { pane_tree, next_pane_id: 1, active_pane_id: 0, next_view_id: 0 };
        proof {
            assert(r@.panes[0].id == 0);
        }
        r
    }

    /// The active pane, to change in place.
    pub fn active_pane_mut(&mut self) -> (r: &mut Pane)
        requires
            old(self)@.wf(),
        ensures
            (*r)@ == old(self)@.active_pane(),
            final(self)@ == old(self)@.with_active_pane((*final(r))@),
    {
        proof {
            lemma_index_of(self@.panes, self.active_pane_id, 0);
            assert(self.pane_tree.has_pane(self.active_pane_id));
        }
        match self.pane_tree.pane_mut(self.active_pane_id) {
            Some(p) => p,
            None => vstd::pervasive::unreached(),
        }
    }

    /// Opens a loaded model into the active pane, as one update: the item
    /// already there for the model's entry is activated and returned; else
    /// a new item is built by the registry and appended. A failed load is
    /// handed back and changes nothing.
    pub fn open(&mut self, registry: &Registry, loaded: Result<ProjectItemHandle, OpenError>) -> (r: Result<ProjectPaneItemHandle, OpenError>)
        requires
            old(self)@.wf(),
            old(self)@.next_view_id < u64::MAX,
            registry@.wf(),
        ensures
            (final(self)@, r) == old(self)@.opened(registry@, loaded),
            final(self)@.wf(),
    {
        let project_item = match loaded {
            Ok(m) => m,
            Err(e) => return Err(e),
        };
        let view_id = self.next_view_id;
        let ghost w0 = self@;
        let pane = self.active_pane_mut();
        let ghost p0 = (*pane)@;
        let ghost pf = (*final(pane))@;
        proof {
            lemma_index_of(w0.panes, w0.active_pane_id, 0);
            if let Some(e) = project_item.entry_id {
                lemma_first_match(p0.items, registry@, e, 0);
            }
        }
        let r = match pane.activate_project_item(registry, &project_item) {
            Some(existing) => Ok(existing),
            None => match build_project_pane_item(registry, project_item, view_id) {
                Err(e) => Err(e),
                Ok(item) => {
                    pane.add_item(item.as_pane_item());
                    self.next_view_id = view_id + 1;
                    Ok(item)
                },
            },
        };
        proof {
            lemma_same_id_update(w0, pf);
        }
        r
    }

    /// Closes the active item of the active pane. Reports `false` where
    /// that pane is empty, so that the caller may handle the request
    /// otherwise; nothing changes then.
    pub fn close_active_pane_item(&mut self) -> (r: bool)
        requires
            old(self)@.wf(),
        ensures
            r == (old(self)@.active_pane().items.len() > 0),
            final(self)@ == old(self)@.closed_active_item(),
            final(self)@.wf(),
    {
        let ghost w0 = self@;
        let pane = self.active_pane_mut();
        let ghost pf = (*final(pane))@;
        proof {
            lemma_index_of(w0.panes, w0.active_pane_id, 0);
        }
        let r = pane.close_active_item();
        proof {
            lemma_same_id_update(w0, pf);
        }
        r
    }

    /// The tree of panes.
    pub fn pane_tree(&self) -> (r: &PaneTree)
        ensures
            *r == self.tree(),
            r.panes() == self@.panes,
    {
        &self.pane_tree
    }

    pub fn active_pane_id(&self) -> (r: PaneId)
        ensures
            r == self@.active_pane_id,
    {
        self.active_pane_id
    }

    /// The id that the next item view built by `open` gets.
    pub fn next_view_id(&self) -> (r: u64)
        ensures
            r == self@.next_view_id,
    {
        self.next_view_id
    }
}

/// Opening the same model twice returns the same item both times, and the
/// second open leaves the pane's items as the first left them. Where the
/// active pane held no item for the model's entry, the first open adds
/// exactly one item.
pub proof fn lemma_open_twice_dedups(w: WorkspaceView, reg: RegistryView, m: ProjectItemHandle)
    requires
        w.wf(),
        reg.wf(),
        m.entry_id is Some,
        reg.builders.contains_key(m.kind),
    ensures
        ({
            let (w1, r1) = w.opened(reg, Ok(m));
            let (w2, r2) = w1.opened(reg, Ok(m));
            &&& r1 is Ok
            &&& r2 == r1
            &&& w1.wf()
            &&& w1.next_view_id <= w.next_view_id + 1
            &&& w2.active_pane().items == w1.active_pane().items
            &&& w.active_pane().match_index(reg, m.entry_id) < 0
                ==> w1.active_pane().items.len() == w.active_pane().items.len() + 1
        }),
{
    let e = m.entry_id->Some_0;
    let p = w.active_pane();
    lemma_index_of(w.panes, w.active_pane_id, 0);
    lemma_first_match(p.items, reg, e, 0);
    let (p1, found) = p.activating(reg, m.entry_id);
    let (w1, r1) = w.opened(reg, Ok(m));
    match found {
        Some(h) => {
            lemma_same_id_update(w, p1);
            lemma_first_match(p1.items, reg, e, 0);
            lemma_index_of(w1.panes, w1.active_pane_id, 0);
            lemma_same_id_update(w1, w1.active_pane().activating(reg, m.entry_id).0);
        },
        None => {
            let h = reg.built(m, w.next_view_id)->Ok_0;
            let pa = p.added(h.spec_as_pane_item());
            lemma_same_id_update(w, pa);
            assert(w1.active_index() == w.with_active_pane(pa).active_index());
            assert(w1.active_pane() == pa);
            let n = p.items.len() as int;
            assert(reg.entry_of(pa.items[n]) == Some(e));
            assert forall|k: int| 0 <= k < n implies #[trigger] reg.entry_of(pa.items[k]) != Some(e) by {
                assert(pa.items[k] == p.items[k]);
            }
            lemma_first_match(pa.items, reg, e, 0);
            assert(w1.wf());
            lemma_index_of(w1.panes, w1.active_pane_id, 0);
            lemma_same_id_update(w1, w1.active_pane().activating(reg, m.entry_id).0);
        },
    }
}

/// Opening two different models that have no entry adds two items, one
/// for each, and returns two different items.
pub proof fn lemma_open_without_entry_adds_each(w: WorkspaceView, reg: RegistryView, m1: ProjectItemHandle, m2: ProjectItemHandle)
    requires
        w.wf(),
        m1.entry_id is None,
        m2.entry_id is None,
        m1 != m2,
        reg.builders.contains_key(m1.kind),
        reg.builders.contains_key(m2.kind),
    ensures
        ({
            let (w1, r1) = w.opened(reg, Ok(m1));
            let (w2, r2) = w1.opened(reg, Ok(m2));
            &&& r1 is Ok
            &&& r2 is Ok
            &&& r1 != r2
            &&& w1.wf()
            &&& w.next_view_id < u64::MAX ==> w1.next_view_id == w.next_view_id + 1
            &&& w2.active_pane().items == w.active_pane().items.push(r1->Ok_0.spec_as_pane_item()).push(r2->Ok_0.spec_as_pane_item())
        }),
{
    lemma_index_of(w.panes, w.active_pane_id, 0);
    let p = w.active_pane();
    let (w1, r1) = w.opened(reg, Ok(m1));
    let h1 = r1->Ok_0;
    lemma_same_id_update(w, p.added(h1.spec_as_pane_item()));
    let w1b = w.with_active_pane(p.added(h1.spec_as_pane_item()));
    assert(w1.active_index() == w1b.active_index());
    assert(w1.wf());
    let (w2, r2) = w1.opened(reg, Ok(m2));
    let p1 = w1.active_pane();
    lemma_index_of(w1.panes, w1.active_pane_id, 0);
    lemma_same_id_update(w1, p1.added(r2->Ok_0.spec_as_pane_item()));
    let w2b = w1.with_active_pane(p1.added(r2->Ok_0.spec_as_pane_item()));
    assert(w2.active_index() == w2b.active_index());
}

/// Whether an open fails for want of a registration depends on the
/// registry alone: it fails so exactly where the model's kind has no
/// registration and the pane holds no item for the model's entry.
pub proof fn lemma_open_unregistered_kind(w: WorkspaceView, reg: RegistryView, m: ProjectItemHandle)
    requires
        w.wf(),
    ensures
        (w.opened(reg, Ok(m)).1 == Err::<ProjectPaneItemHandle, OpenError>(OpenError::UnregisteredKind))
            <==> (!reg.builders.contains_key(m.kind) && w.active_pane().match_index(reg, m.entry_id) < 0),
{
    lemma_index_of(w.panes, w.active_pane_id, 0);
    if let Some(e) = m.entry_id {
        lemma_first_match(w.active_pane().items, reg, e, 0);
    }
}

} // verus!
