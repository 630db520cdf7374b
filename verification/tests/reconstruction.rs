use workspace_layout::assemble::assemble_workspace;
use workspace_layout::model::Axis;
use workspace_layout::model::DockData;
use workspace_layout::model::DockStructure;
use workspace_layout::model::SerializedItem;
use workspace_layout::model::SerializedPane;
use workspace_layout::model::SerializedPaneGroup;
use workspace_layout::rebuild::ItemRequest;
use workspace_layout::rebuild::Member;

fn item(kind: &str, id: u64, active: bool, preview: bool) -> SerializedItem {
    SerializedItem::new(kind, id, active, preview)
}

fn pane(ids: &[u64], active: bool) -> SerializedPaneGroup {
    let children = ids.iter().map(|id| item("Editor", *id, false, false)).collect();
    SerializedPaneGroup::Pane(SerializedPane::new(children, active))
}

fn group(children: Vec<SerializedPaneGroup>) -> SerializedPaneGroup {
    SerializedPaneGroup::Group { axis: Axis::Horizontal, flexes: None, children }
}

fn expect_pane(member: &Member) -> &workspace_layout::rebuild::LivePane {
    match member {
        Member::Pane(p) => p,
        other => panic!("expected a pane, got {:?}", other),
    }
}

#[test]
fn full_success_mirrors_the_tree() {
    let tree = group(vec![pane(&[10, 11], false), pane(&[12], false)]);
    let results = vec![Some(110), Some(111), Some(112)];
    let (rebuilt, next) = tree.deserialize(&results, 0);
    assert_eq!(next, 3);
    let rebuilt = rebuilt.expect("a full success must yield a node");
    match &rebuilt.member {
        Member::Axis { axis, flexes, members } => {
            assert_eq!(*axis, Axis::Horizontal);
            assert_eq!(*flexes, None);
            assert_eq!(members.len(), 2);
            assert_eq!(expect_pane(&members[0]).items, vec![110, 111]);
            assert_eq!(expect_pane(&members[1]).items, vec![112]);
        }
        other => panic!("expected an axis container, got {:?}", other),
    }
    assert_eq!(rebuilt.items, vec![Some(110), Some(111), Some(112)]);
    assert!(rebuilt.active_pane.is_none());
}

#[test]
fn single_surviving_child_collapses() {
    let tree = group(vec![pane(&[1], false)]);
    let results = vec![Some(5)];
    let (rebuilt, _) = tree.deserialize(&results, 0);
    let rebuilt = rebuilt.unwrap();
    // not wrapped in a one-member axis container
    assert_eq!(expect_pane(&rebuilt.member).items, vec![5]);
}

#[test]
fn failed_middle_child_is_dropped_in_order() {
    let tree = group(vec![pane(&[1, 2], false), pane(&[3], false), pane(&[4], false)]);
    // the middle pane's only item fails, so the whole pane goes away
    let results = vec![Some(21), Some(22), None, Some(24)];
    let (rebuilt, next) = tree.deserialize(&results, 0);
    assert_eq!(next, 4);
    let rebuilt = rebuilt.unwrap();
    match &rebuilt.member {
        Member::Axis { members, .. } => {
            assert_eq!(members.len(), 2);
            assert_eq!(expect_pane(&members[0]).items, vec![21, 22]);
            assert_eq!(expect_pane(&members[1]).items, vec![24]);
        }
        other => panic!("expected an axis container, got {:?}", other),
    }
    // the failed pane's outcomes are not kept
    assert_eq!(rebuilt.items, vec![Some(21), Some(22), Some(24)]);
}

#[test]
fn all_children_failing_yields_no_node_and_an_empty_workspace() {
    let tree = group(vec![pane(&[1], false), pane(&[2], false)]);
    let results = vec![None, None];
    let (rebuilt, next) = tree.deserialize(&results, 0);
    assert_eq!(next, 2);
    assert!(rebuilt.is_none());

    // the assembled workspace still exists: empty center, docks intact
    let docks = DockStructure {
        left: DockData { visible: true, active_panel: Some("project_panel".to_string()), zoom: false },
        right: DockData::default(),
        bottom: DockData::default(),
    };
    let workspace = assemble_workspace(None, None, docks.clone(), None, false, None);
    assert!(workspace.center.is_none());
    assert_eq!(workspace.docks, docks);
}

#[test]
fn failed_active_item_is_not_remapped() {
    let children = vec![
        item("Editor", 1, false, false),
        item("Editor", 2, true, false),
        item("Editor", 3, false, false),
    ];
    let tree = SerializedPaneGroup::Pane(SerializedPane::new(children, false));
    let results = vec![Some(31), None, Some(33)];
    let (rebuilt, _) = tree.deserialize(&results, 0);
    let rebuilt = rebuilt.unwrap();
    let live = expect_pane(&rebuilt.member);
    assert_eq!(live.items, vec![31, 33]);
    // the active item failed: nothing is activated, neither neighbour
    assert_eq!(live.active_item_index, None);
}

#[test]
fn surviving_active_item_keeps_its_live_position() {
    let children = vec![
        item("Editor", 1, false, false),
        item("Editor", 2, true, true),
    ];
    let tree = SerializedPaneGroup::Pane(SerializedPane::new(children, false));
    // the first item fails, so the active item moves up to live position 0
    let results = vec![None, Some(42)];
    let (rebuilt, _) = tree.deserialize(&results, 0);
    let rebuilt = rebuilt.unwrap();
    let live = expect_pane(&rebuilt.member);
    assert_eq!(live.items, vec![42]);
    assert_eq!(live.active_item_index, Some(0));
    assert_eq!(live.preview_item_index, Some(0));
}

#[test]
fn first_active_pane_wins() {
    let tree = group(vec![pane(&[1], true), pane(&[2], true)]);
    let results = vec![Some(51), Some(52)];
    let (rebuilt, _) = tree.deserialize(&results, 0);
    let rebuilt = rebuilt.unwrap();
    let active = rebuilt.active_pane.expect("an active pane was persisted");
    // the earlier sibling in document order, not the later one
    assert_eq!(active.items, vec![51]);
}

#[test]
fn empty_pane_is_torn_down() {
    let tree = pane(&[1, 2], true);
    let results = vec![None, None];
    let (rebuilt, next) = tree.deserialize(&results, 0);
    assert_eq!(next, 2);
    assert!(rebuilt.is_none());
}

#[test]
fn flexes_pass_through_even_when_a_child_is_dropped() {
    let weights = vec![1.0f32.to_bits(), 2.0f32.to_bits(), 0.5f32.to_bits()];
    let tree = SerializedPaneGroup::Group {
        axis: Axis::Vertical,
        flexes: Some(weights.clone()),
        children: vec![pane(&[1], false), pane(&[2], false), pane(&[3], false)],
    };
    let results = vec![Some(1), None, Some(3)];
    let (rebuilt, _) = tree.deserialize(&results, 0);
    match rebuilt.unwrap().member {
        Member::Axis { axis, flexes, members } => {
            assert_eq!(axis, Axis::Vertical);
            // the weights are not re-filtered to the surviving children
            assert_eq!(flexes, Some(weights));
            assert_eq!(members.len(), 2);
        }
        other => panic!("expected an axis container, got {:?}", other),
    }
}

#[test]
fn requests_come_in_document_order() {
    let tree = group(vec![
        group(vec![pane(&[1], false), pane(&[2, 3], false)]),
        pane(&[4], false),
    ]);
    let mut requests: Vec<ItemRequest> = Vec::new();
    tree.collect_requests(&mut requests);
    let ids: Vec<u64> = requests.iter().map(|r| r.item_id).collect();
    assert_eq!(ids, vec![1, 2, 3, 4]);
    assert!(requests.iter().all(|r| r.kind == "Editor"));

    // one outcome per request drives a full reconstruction
    let results: Vec<Option<u64>> = requests.iter().map(|r| Some(r.item_id + 100)).collect();
    let (rebuilt, next) = tree.deserialize(&results, 0);
    assert_eq!(next, requests.len());
    assert!(rebuilt.is_some());
}

#[test]
fn nested_collapse_keeps_shape() {
    // inner group loses one child and collapses into the surviving pane
    let inner = group(vec![pane(&[1], false), pane(&[2], false)]);
    let tree = group(vec![inner, pane(&[3], false)]);
    let results = vec![None, Some(2), Some(3)];
    let (rebuilt, _) = tree.deserialize(&results, 0);
    match &rebuilt.unwrap().member {
        Member::Axis { members, .. } => {
            assert_eq!(members.len(), 2);
            assert_eq!(expect_pane(&members[0]).items, vec![2]);
            assert_eq!(expect_pane(&members[1]).items, vec![3]);
        }
        other => panic!("expected an axis container, got {:?}", other),
    }
}
