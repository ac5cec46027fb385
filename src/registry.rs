use vstd::prelude::*;
use std::collections::HashMap;
use crate::item::{PaneItemHandle, ProjectItemHandle, ProjectPaneItemHandle};

verus! {

broadcast use vstd::std_specs::hash::group_hash_axioms;

/// Why opening a model into the workspace failed.
#[derive(Clone, Copy, Debug, PartialEq, Eq, Structural)]
pub enum OpenError {
    /// The external locator could not be turned into a project path.
    Resolution,
    /// The project could not load the model.
    Load,
    /// Resolution or loading was cancelled before it finished.
    Cancelled,
    /// No pane item kind was registered for the model's kind.
    UnregisteredKind,
}

/// What was registered for one model kind: the kind of item view that is
/// built for it, and the dependencies handed to each build.
#[derive(Clone, Copy, Debug, PartialEq, Eq, Structural)]
pub struct Registration {
    pub item_kind: u64,
    pub dependencies: u64,
}

/// The two tables: builders keyed by model kind, and converters keyed by the
/// item kind that they recover, mapped to the model kind it wraps.
pub struct Registry {
    builders: HashMap<u64, Registration>,
    converters: HashMap<u64, u64>,
}

pub ghost struct RegistryView {
    pub builders: Map<u64, Registration>,
    pub converters: Map<u64, u64>,
}

impl RegistryView {
    /// Every item kind that a builder produces can be recovered from a
    /// generic handle.
    pub open spec fn wf(self) -> bool {
        forall|k: u64| #[trigger] self.builders.contains_key(k)
            ==> self.converters.contains_key(self.builders[k].item_kind)
    }

    /// The project pane item that a generic handle is, if its kind was
    /// registered as one and it wraps a model.
    pub open spec fn project_pane_item(self, item: PaneItemHandle) -> Option<ProjectPaneItemHandle> {
        if self.converters.contains_key(item.kind) && item.project_item is Some {
            Some(ProjectPaneItemHandle {
                view_id: item.view_id,
                kind: item.kind,
                project_item: item.project_item->Some_0,
            })
        } else {
            None
        }
    }

    /// The entry of the model behind a generic handle, if it is a project
    /// pane item whose model has one.
    pub open spec fn entry_of(self, item: PaneItemHandle) -> Option<u64> {
        match self.project_pane_item(item) {
            Some(p) => p.project_item.entry_id,
            None => None,
        }
    }

    /// The result of building an item view with id `view_id` for `model`.
    pub open spec fn built(self, model: ProjectItemHandle, view_id: u64) -> Result<ProjectPaneItemHandle, OpenError> {
        if self.builders.contains_key(model.kind) {
            Ok(ProjectPaneItemHandle {
                view_id,
                kind: self.builders[model.kind].item_kind,
                project_item: model,
            })
        } else {
            Err(OpenError::UnregisteredKind)
        }
    }
}

impl View for Registry {
    type V = RegistryView;

    closed spec fn view(&self) -> RegistryView {
        RegistryView { builders: self.builders@, converters: self.converters@ }
    }
}

/// An empty registry.
pub fn init() -> (r: Registry)
    ensures
        r@.builders == Map::<u64, Registration>::empty(),
        r@.converters == Map::<u64, u64>::empty(),
        r@.wf(),
{
    Registry { builders: HashMap::new(), converters: HashMap::new() }
}

/// Records that models of `model_kind` are shown by item views of
/// `item_kind`, built with `dependencies`, and that views of `item_kind` are
/// project pane items. A later registration of the same kind replaces this one.
pub fn register_project_pane_item(
    registry: &mut Registry,
    model_kind: u64,
    item_kind: u64,
    dependencies: u64,
)
    ensures
        final(registry)@.builders == old(registry)@.builders.insert(
            model_kind,
            Registration { item_kind, dependencies },
        ),
        final(registry)@.converters == old(registry)@.converters.insert(item_kind, model_kind),
        old(registry)@.wf() ==> final(registry)@.wf(),
{
    registry.builders.insert(model_kind, Registration { item_kind, dependencies });
    registry.converters.insert(item_kind, model_kind);
}

/// Builds a new item view with id `view_id` for `model`, by the registration
/// for its kind.
pub fn build_project_pane_item(registry: &Registry, model: ProjectItemHandle, view_id: u64) -> (r: Result<ProjectPaneItemHandle, OpenError>)
    ensures
        r == registry@.built(model, view_id),
        r is Err <==> !registry@.builders.contains_key(model.kind),
{
    match registry.builders.get(&model.kind) {
        Some(reg) => Ok(ProjectPaneItemHandle { view_id, kind: reg.item_kind, project_item: model }),
        None => Err(OpenError::UnregisteredKind),
    }
}

impl Registry {
    /// The registration for `model_kind`, if there is one.
    pub fn registration(&self, model_kind: u64) -> (r: Option<Registration>)
        ensures
            r == (if self@.builders.contains_key(model_kind) {
                Some(self@.builders[model_kind])
            } else {
                None
            }),
    {
        match self.builders.get(&model_kind) {
            Some(reg) => Some(*reg),
            None => None,
        }
    }

    /// Views `item` as a project pane item, if its kind was registered as one.
    pub fn to_project_pane_item(&self, item: &PaneItemHandle) -> (r: Option<ProjectPaneItemHandle>)
        ensures
            r == self@.project_pane_item(*item),
    {
        if self.converters.contains_key(&item.kind) {
            match item.project_item {
                Some(p) => Some(ProjectPaneItemHandle { view_id: item.view_id, kind: item.kind, project_item: p }),
                None => None,
            }
        } else {
            None
        }
    }
}

} // verus!
