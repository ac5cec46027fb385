use vstd::prelude::*;

verus! {

/// A handle to a loaded model of the project: which model it is, its kind,
/// and the entry that it stands for, if it has a durable identity.
#[derive(Clone, Copy, Debug, PartialEq, Eq, Structural)]
pub struct ProjectItemHandle {
    pub model_id: u64,
    pub kind: u64,
    pub entry_id: Option<u64>,
}

/// A handle to any item view that a pane can display. `project_item` is the
/// model that the view wraps, where it was built for one.
#[derive(Clone, Copy, Debug, PartialEq, Eq, Structural)]
pub struct PaneItemHandle {
    pub view_id: u64,
    pub kind: u64,
    pub project_item: Option<ProjectItemHandle>,
}

/// A handle to an item view known to wrap a model of the project.
#[derive(Clone, Copy, Debug, PartialEq, Eq, Structural)]
pub struct ProjectPaneItemHandle {
    pub view_id: u64,
    pub kind: u64,
    pub project_item: ProjectItemHandle,
}

/// What a pane can show: an item view with an identity and a kind.
pub trait PaneItem {
    fn view_id(&self) -> u64;

    fn item_kind(&self) -> u64;
}

impl PaneItem for PaneItemHandle {
    fn view_id(&self) -> u64 {
        self.view_id
    }

    fn item_kind(&self) -> u64 {
        self.kind
    }
}

impl PaneItem for ProjectPaneItemHandle {
    fn view_id(&self) -> u64 {
        self.view_id
    }

    fn item_kind(&self) -> u64 {
        self.kind
    }
}

impl ProjectItemHandle {
    pub fn entry_id(&self) -> (r: Option<u64>)
        ensures
            r == self.entry_id,
    {
        self.entry_id
    }
}

impl ProjectPaneItemHandle {
    pub open spec fn spec_as_pane_item(self) -> PaneItemHandle {
        PaneItemHandle { view_id: self.view_id, kind: self.kind, project_item: Some(self.project_item) }
    }

    /// The same view, as a generic pane item.
    pub fn as_pane_item(&self) -> (r: PaneItemHandle)
        ensures
            r == self.spec_as_pane_item(),
    {
        PaneItemHandle { view_id: self.view_id, kind: self.kind, project_item: Some(self.project_item) }
    }

    /// The model that the view wraps.
    pub fn project_item(&self) -> (r: ProjectItemHandle)
        ensures
            r == self.project_item,
    {
        self.project_item
    }
}

} // verus!
