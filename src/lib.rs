//! Pane management for a project workspace: a registry that maps model kinds
//! to pane item constructors, panes of open items, a tree of panes, and the
//! workspace that opens loaded models into its active pane without duplicates.
pub mod item;
pub mod pane;
pub mod pane_tree;
pub mod registry;
pub mod workspace;

pub use item::{PaneItem, PaneItemHandle, ProjectItemHandle, ProjectPaneItemHandle};
pub use pane::{Pane, PaneId, PaneView};
pub use pane_tree::{PaneTree, SplitOrientation};
pub use registry::{
    build_project_pane_item, init, register_project_pane_item, OpenError, Registration, Registry,
    RegistryView,
};
pub use workspace::{Workspace, WorkspaceView};
