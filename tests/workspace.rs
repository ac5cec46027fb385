use ws2::{
    build_project_pane_item, init, register_project_pane_item, OpenError, Pane, PaneItem,
    PaneItemHandle, PaneTree, ProjectItemHandle, Registry, SplitOrientation, Workspace,
};

const FILE_MODEL: u64 = 10;
const FILE_VIEW: u64 = 20;
const IMAGE_MODEL: u64 = 11;

fn file_registry() -> Registry {
    let mut registry = init();
    register_project_pane_item(&mut registry, FILE_MODEL, FILE_VIEW, 7);
    registry
}

fn model(model_id: u64, entry_id: Option<u64>) -> ProjectItemHandle {
    ProjectItemHandle { model_id, kind: FILE_MODEL, entry_id }
}

fn active_items(ws: &mut Workspace) -> Vec<PaneItemHandle> {
    ws.active_pane_mut().items().clone()
}

#[test]
fn open_close_scenario() {
    let registry = file_registry();
    let mut ws = Workspace::new();
    assert_eq!(ws.active_pane_id(), 0);
    assert_eq!(ws.active_pane_mut().id(), 0);
    assert!(active_items(&mut ws).is_empty());

    // "/root1/a" loads as model 1, entry 1.
    let m1 = model(1, Some(1));
    let i1 = ws.open(&registry, Ok(m1)).unwrap();
    assert_eq!(i1.project_item(), m1);
    assert_eq!(i1.kind, FILE_VIEW);
    assert_eq!(active_items(&mut ws), vec![i1.as_pane_item()]);
    assert_eq!(ws.active_pane_mut().active_item_index(), 0);

    // Opening "/root1/a" again finds the same item.
    let again = ws.open(&registry, Ok(m1)).unwrap();
    assert_eq!(again, i1);
    assert_eq!(active_items(&mut ws), vec![i1.as_pane_item()]);

    // "/root1/b" loads as model 2, entry 2.
    let m2 = model(2, Some(2));
    let i2 = ws.open(&registry, Ok(m2)).unwrap();
    assert_ne!(i2, i1);
    assert_eq!(active_items(&mut ws), vec![i1.as_pane_item(), i2.as_pane_item()]);
    assert_eq!(ws.active_pane_mut().active_item_index(), 0);

    // Activate the second item by opening it again, then close it.
    let again2 = ws.open(&registry, Ok(m2)).unwrap();
    assert_eq!(again2, i2);
    assert_eq!(ws.active_pane_mut().active_item_index(), 1);
    assert!(ws.close_active_pane_item());
    assert_eq!(active_items(&mut ws), vec![i1.as_pane_item()]);
}

#[test]
fn test_ws2_workspace() {
    let registry = file_registry();
    let mut ws = Workspace::new();
    let loaded = ProjectItemHandle { model_id: 1, kind: FILE_MODEL, entry_id: Some(0) };
    let item = ws.open(&registry, Ok(loaded)).unwrap();
    assert_eq!(item.project_item().entry_id(), Some(0));
    assert_eq!(active_items(&mut ws).len(), 1);
}

#[test]
fn open_twice_returns_same_item_and_adds_one() {
    let registry = file_registry();
    let mut ws = Workspace::new();
    let m = model(5, Some(50));
    let before = active_items(&mut ws).len();
    let first = ws.open(&registry, Ok(m)).unwrap();
    let second = ws.open(&registry, Ok(m)).unwrap();
    assert_eq!(first, second);
    assert_eq!(active_items(&mut ws).len(), before + 1);
}

#[test]
fn models_without_entry_are_not_deduplicated() {
    let registry = file_registry();
    let mut ws = Workspace::new();
    let a = model(1, None);
    let b = model(2, None);
    let ia = ws.open(&registry, Ok(a)).unwrap();
    let ib = ws.open(&registry, Ok(b)).unwrap();
    assert_ne!(ia, ib);
    assert_eq!(active_items(&mut ws), vec![ia.as_pane_item(), ib.as_pane_item()]);
    // The same entry-less model opened again is still a new item.
    let ia2 = ws.open(&registry, Ok(a)).unwrap();
    assert_ne!(ia2, ia);
    assert_eq!(active_items(&mut ws).len(), 3);
}

#[test]
fn unregistered_kind_fails_and_changes_nothing() {
    let registry = file_registry();
    let mut ws = Workspace::new();
    let image = ProjectItemHandle { model_id: 3, kind: IMAGE_MODEL, entry_id: Some(3) };
    assert_eq!(ws.open(&registry, Ok(image)), Err(OpenError::UnregisteredKind));
    assert!(active_items(&mut ws).is_empty());
    assert_eq!(
        build_project_pane_item(&registry, image, 0),
        Err(OpenError::UnregisteredKind)
    );
    let built = build_project_pane_item(&registry, model(4, Some(4)), 9).unwrap();
    assert_eq!(built.view_id, 9);
    assert_eq!(built.kind, FILE_VIEW);
}

#[test]
fn failed_load_is_returned_unchanged() {
    let registry = file_registry();
    let mut ws = Workspace::new();
    assert_eq!(ws.open(&registry, Err(OpenError::Load)), Err(OpenError::Load));
    assert_eq!(ws.open(&registry, Err(OpenError::Resolution)), Err(OpenError::Resolution));
    assert_eq!(ws.open(&registry, Err(OpenError::Cancelled)), Err(OpenError::Cancelled));
    assert!(active_items(&mut ws).is_empty());
}

#[test]
fn later_registration_replaces_earlier() {
    let mut registry = file_registry();
    assert_eq!(registry.registration(FILE_MODEL).unwrap().item_kind, FILE_VIEW);
    register_project_pane_item(&mut registry, FILE_MODEL, 21, 8);
    let reg = registry.registration(FILE_MODEL).unwrap();
    assert_eq!(reg.item_kind, 21);
    assert_eq!(reg.dependencies, 8);
    assert!(registry.registration(IMAGE_MODEL).is_none());
    let item = build_project_pane_item(&registry, model(1, Some(1)), 0).unwrap();
    assert_eq!(item.kind, 21);
}

#[test]
fn generic_item_of_unregistered_kind_is_no_project_item() {
    let registry = file_registry();
    let m = model(1, Some(1));
    let plain = PaneItemHandle { view_id: 1, kind: 99, project_item: Some(m) };
    assert!(registry.to_project_pane_item(&plain).is_none());
    let no_model = PaneItemHandle { view_id: 2, kind: FILE_VIEW, project_item: None };
    assert!(registry.to_project_pane_item(&no_model).is_none());
    let wrapped = PaneItemHandle { view_id: 3, kind: FILE_VIEW, project_item: Some(m) };
    let p = registry.to_project_pane_item(&wrapped).unwrap();
    assert_eq!(p.project_item(), m);
    assert_eq!(p.as_pane_item(), wrapped);
    assert_eq!(PaneItem::view_id(&p), 3);
    assert_eq!(PaneItem::item_kind(&wrapped), FILE_VIEW);
}

#[test]
fn close_on_empty_pane_reports_no_item() {
    let mut ws = Workspace::new();
    assert!(!ws.close_active_pane_item());
    assert!(active_items(&mut ws).is_empty());
    let mut pane = Pane::new(4);
    assert!(!pane.close_active_item());
    assert!(pane.items().is_empty());
    assert_eq!(pane.active_item_index(), 0);
}

#[test]
fn close_removes_only_the_active_item() {
    let registry = file_registry();
    let mut ws = Workspace::new();
    let i1 = ws.open(&registry, Ok(model(1, Some(1)))).unwrap();
    let i2 = ws.open(&registry, Ok(model(2, Some(2)))).unwrap();
    let i3 = ws.open(&registry, Ok(model(3, Some(3)))).unwrap();
    // Activate the middle item, then close it.
    ws.open(&registry, Ok(model(2, Some(2)))).unwrap();
    assert!(ws.close_active_pane_item());
    assert_eq!(active_items(&mut ws), vec![i1.as_pane_item(), i3.as_pane_item()]);
    // The index keeps its number, now the item after the closed one.
    assert_eq!(ws.active_pane_mut().active_item_index(), 1);
    assert!(ws.close_active_pane_item());
    assert_eq!(active_items(&mut ws), vec![i1.as_pane_item()]);
    // The index is past the end now; the next close takes the last item.
    assert_eq!(ws.active_pane_mut().active_item_index(), 1);
    assert!(ws.close_active_pane_item());
    assert!(active_items(&mut ws).is_empty());
    assert!(!ws.close_active_pane_item());
    let _ = i2;
}

#[test]
fn add_item_to_empty_pane_makes_it_active() {
    let mut pane = Pane::new(1);
    let a = PaneItemHandle { view_id: 1, kind: 1, project_item: None };
    let b = PaneItemHandle { view_id: 2, kind: 1, project_item: None };
    pane.add_item(a);
    assert_eq!(pane.active_item_index(), 0);
    pane.add_item(b);
    assert_eq!(pane.items(), &vec![a, b]);
    assert_eq!(pane.active_item_index(), 0);
}

#[test]
fn pane_is_found_in_nested_splits() {
    let mut tree = PaneTree::Split {
        orientation: SplitOrientation::Horizontal,
        children: vec![
            PaneTree::Pane(Pane::new(1)),
            PaneTree::Split {
                orientation: SplitOrientation::Vertical,
                children: vec![PaneTree::Pane(Pane::new(2)), PaneTree::Pane(Pane::new(3))],
            },
        ],
    };
    assert!(tree.contains_pane(3));
    assert!(!tree.contains_pane(4));
    assert!(tree.pane_mut(4).is_none());
    let item = PaneItemHandle { view_id: 1, kind: 1, project_item: None };
    {
        let pane = tree.pane_mut(3).unwrap();
        assert_eq!(pane.id(), 3);
        pane.add_item(item);
    }
    assert_eq!(tree.pane_mut(3).unwrap().items(), &vec![item]);
    assert!(tree.pane_mut(2).unwrap().items().is_empty());
    assert!(tree.pane_mut(1).unwrap().items().is_empty());
}

#[test]
fn new_tree_holds_pane_zero() {
    let mut tree = PaneTree::new();
    assert!(tree.contains_pane(0));
    assert!(!tree.contains_pane(1));
    assert_eq!(tree.pane_mut(0).unwrap().id(), 0);
    let mut ws = Workspace::new();
    assert!(ws.pane_tree().contains_pane(0));
}

#[test]
fn built_items_get_fresh_view_ids() {
    let registry = file_registry();
    let mut ws = Workspace::new();
    assert_eq!(ws.next_view_id(), 0);
    let a = ws.open(&registry, Ok(model(1, Some(1)))).unwrap();
    let b = ws.open(&registry, Ok(model(2, Some(2)))).unwrap();
    assert_eq!(a.view_id, 0);
    assert_eq!(b.view_id, 1);
    ws.open(&registry, Ok(model(1, Some(1)))).unwrap();
    assert_eq!(ws.next_view_id(), 2);
}

#[test]
fn new_workspace_is_one_leaf_pane() {
    let ws = Workspace::new();
    match ws.pane_tree() {
        PaneTree::Pane(p) => {
            assert_eq!(p.id(), 0);
            assert!(p.items().is_empty());
            assert_eq!(p.active_item_index(), 0);
        },
        PaneTree::Split { .. } => panic!("the new tree is a split"),
    }
}

#[test]
fn pane_lookup_keeps_the_tree_shape() {
    let mut tree = PaneTree::Split {
        orientation: SplitOrientation::Vertical,
        children: vec![
            PaneTree::Split {
                orientation: SplitOrientation::Horizontal,
                children: vec![PaneTree::Pane(Pane::new(1))],
            },
            PaneTree::Pane(Pane::new(2)),
        ],
    };
    let item = PaneItemHandle { view_id: 5, kind: 1, project_item: None };
    tree.pane_mut(1).unwrap().add_item(item);
    match &tree {
        PaneTree::Split { orientation, children } => {
            assert!(matches!(orientation, SplitOrientation::Vertical));
            assert_eq!(children.len(), 2);
            match &children[0] {
                PaneTree::Split { orientation, children } => {
                    assert!(matches!(orientation, SplitOrientation::Horizontal));
                    assert_eq!(children.len(), 1);
                    match &children[0] {
                        PaneTree::Pane(p) => assert_eq!(p.items(), &vec![item]),
                        PaneTree::Split { .. } => panic!("leaf became a split"),
                    }
                },
                PaneTree::Pane(_) => panic!("split became a leaf"),
            }
            assert!(matches!(&children[1], PaneTree::Pane(p) if p.id() == 2));
        },
        PaneTree::Pane(_) => panic!("root split became a leaf"),
    }
}
