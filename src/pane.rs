use vstd::prelude::*;
use crate::item::{PaneItemHandle, ProjectItemHandle, ProjectPaneItemHandle};
use crate::registry::{Registry, RegistryView};

verus! {

/// Identifies a pane within a workspace.
pub type PaneId = usize;

/// An ordered list of open items and the index of the active one.
pub struct Pane {
    id: PaneId,
    items: Vec<PaneItemHandle>,
    active_item_index: usize,
}

pub ghost struct PaneView {
    pub id: PaneId,
    pub items: Seq<PaneItemHandle>,
    pub active_item_index: usize,
}

/// The first index at or after `i` whose item is a project pane item for
/// entry `e`, or -1 where there is none.
pub open spec fn first_match_from(items: Seq<PaneItemHandle>, reg: RegistryView, e: u64, i: int) -> int
    decreases items.len() - i,
{
    if i < 0 || i >= items.len() {
        -1
    } else if reg.entry_of(items[i]) == Some(e) {
        i
    } else {
        first_match_from(items, reg, e, i + 1)
    }
}

impl PaneView {
    /// The active index points at an item whenever there is one.
    pub open spec fn wf(self) -> bool {
        self.items.len() > 0 ==> self.active_item_index < self.items.len()
    }

    /// The index of the first item for `entry`, or -1 where there is none or
    /// `entry` is absent.
    pub open spec fn match_index(self, reg: RegistryView, entry: Option<u64>) -> int {
        match entry {
            Some(e) => first_match_from(self.items, reg, e, 0),
            None => -1,
        }
    }

    /// The pane after looking for an item for `entry`, and the item found:
    /// the first match becomes active; with none, nothing changes.
    pub open spec fn activating(self, reg: RegistryView, entry: Option<u64>) -> (PaneView, Option<ProjectPaneItemHandle>) {
        let k = self.match_index(reg, entry);
        if k < 0 {
            (self, None)
        } else {
            (PaneView { active_item_index: k as usize, ..self }, reg.project_pane_item(self.items[k]))
        }
    }

    /// The pane with `item` appended; it becomes active only in an empty pane.
    pub open spec fn added(self, item: PaneItemHandle) -> PaneView {
        PaneView {
            id: self.id,
            items: self.items.push(item),
            active_item_index: if self.items.len() == 0 { 0 } else { self.active_item_index },
        }
    }

    /// The active index clamped into the items.
    pub open spec fn effective_active(self) -> int {
        if self.active_item_index < self.items.len() {
            self.active_item_index as int
        } else {
            self.items.len() - 1
        }
    }

    /// The pane with its active item removed; the index keeps its number.
    pub open spec fn closed(self) -> PaneView {
        if self.items.len() == 0 {
            self
        } else {
            PaneView {
                id: self.id,
                items: self.items.remove(self.effective_active()),
                active_item_index: self.effective_active() as usize,
            }
        }
    }
}

impl View for Pane {
    type V = PaneView;

    closed spec fn view(&self) -> PaneView {
        PaneView { id: self.id, items: self.items@, active_item_index: self.active_item_index }
    }
}

impl Pane {
    /// An empty pane.
    pub fn new(id: PaneId) -> (r: Pane)
        ensures
            r@ == (PaneView { id, items: Seq::empty(), active_item_index: 0 }),
    {
        Pane { id, items: Vec::new(), active_item_index: 0 }
    }

    /// Activates and returns the first item that wraps a model with the same
    /// entry as `new_item`. Nothing changes where there is none, or where
    /// `new_item` has no entry.
    pub fn activate_project_item(&mut self, registry: &Registry, new_item: &ProjectItemHandle) -> (r: Option<ProjectPaneItemHandle>)
        ensures
            (final(self)@, r) == old(self)@.activating(registry@, new_item.entry_id),
    {
        let e = match new_item.entry_id {
            Some(e) => e,
            None => return None,
        };
        let mut i: usize = 0;
        while i < self.items.len()
            invariant
                0 <= i <= self.items@.len(),
                self@ == old(self)@,
                new_item.entry_id == Some(e),
                first_match_from(self.items@, registry@, e, 0) == first_match_from(self.items@, registry@, e, i as int),
            decreases self.items@.len() - i,
        {
            match registry.to_project_pane_item(&self.items[i]) {
                Some(p) => {
                    match p.project_item.entry_id {
                        Some(pe) => {
                            if pe == e {
                                assert(first_match_from(self.items@, registry@, e, i as int) == i as int);
                                self.active_item_index = i;
                                return Some(p);
                            }
                        },
                        None => {},
                    }
                },
                None => {},
            }
            i = i + 1;
        }
        None
    }

    /// Appends `item`; it becomes active only where the pane was empty.
    pub fn add_item(&mut self, item: PaneItemHandle)
        ensures
            final(self)@ == old(self)@.added(item),
    {
        if self.items.len() == 0 {
            self.active_item_index = 0;
        }
        self.items.push(item);
    }

    /// Removes the active item and reports `true`; reports `false` and
    /// changes nothing where the pane is empty.
    pub fn close_active_item(&mut self) -> (r: bool)
        ensures
            r == (old(self)@.items.len() > 0),
            final(self)@ == old(self)@.closed(),
    {
        if self.items.len() == 0 {
            false
        } else {
            if self.active_item_index >= self.items.len() {
                self.active_item_index = self.items.len() - 1;
            }
            self.items.remove(self.active_item_index);
            true
        }
    }

    pub fn id(&self) -> (r: PaneId)
        ensures
            r == self@.id,
    {
        self.id
    }

    pub fn items(&self) -> (r: &Vec<PaneItemHandle>)
        ensures
            r@ == self@.items,
    {
        &self.items
    }

    pub fn active_item_index(&self) -> (r: usize)
        ensures
            r == self@.active_item_index,
    {
        self.active_item_index
    }
}

/// `first_match_from` finds the first item for entry `e` at or after `i`,
/// and -1 only where none stands there.
pub proof fn lemma_first_match(items: Seq<PaneItemHandle>, reg: RegistryView, e: u64, i: int)
    requires
        0 <= i,
    ensures
        first_match_from(items, reg, e, i) == -1 <==> !(exists|k: int| i <= k < items.len() && #[trigger] reg.entry_of(items[k]) == Some(e)),
        first_match_from(items, reg, e, i) != -1 ==> {
            &&& i <= first_match_from(items, reg, e, i) < items.len()
            &&& reg.entry_of(items[first_match_from(items, reg, e, i)]) == Some(e)
            &&& reg.project_pane_item(items[first_match_from(items, reg, e, i)]) is Some
            &&& forall|k: int| i <= k < first_match_from(items, reg, e, i) ==> #[trigger] reg.entry_of(items[k]) != Some(e)
        },
    decreases items.len() - i,
{
    if i < items.len() && reg.entry_of(items[i]) != Some(e) {
        lemma_first_match(items, reg, e, i + 1);
    }
}

/// Closing in a pane with items removes exactly the active item and leaves
/// one item fewer; closing in an empty pane changes nothing.
pub proof fn lemma_close_semantics(p: PaneView)
    requires
        p.wf(),
    ensures
        p.items.len() > 0 ==> {
            &&& p.closed().items.len() == p.items.len() - 1
            &&& p.closed().items == p.items.remove(p.active_item_index as int)
        },
        p.items.len() == 0 ==> p.closed() == p,
{
}

} // verus!
