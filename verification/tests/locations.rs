use workspace_layout::model::DockData;
use workspace_layout::model::DockStructure;
use workspace_layout::model::RemoteProjectEntry;
use workspace_layout::model::SerializedItem;
use workspace_layout::model::SerializedPane;
use workspace_layout::model::SerializedPaneGroup;
use workspace_layout::model::SerializedRemoteProject;
use workspace_layout::model::WorkspaceLocation;
use workspace_layout::status::current_status;
use workspace_layout::status::TaskState;
use workspace_layout::status::TaskStatus;

fn paths(roots: &[&str]) -> Vec<String> {
    roots.iter().map(|r| r.to_string()).collect()
}

#[test]
fn local_locations_are_order_sensitive() {
    let ab = WorkspaceLocation::local(paths(&["/a", "/b"]));
    let ba = WorkspaceLocation::local(paths(&["/b", "/a"]));
    assert_ne!(ab, ba);
    assert_eq!(ab, WorkspaceLocation::local(paths(&["/a", "/b"])));
}

#[test]
fn locations_differ_when_remote_descriptors_differ() {
    let local = WorkspaceLocation::local(paths(&["/a"]));
    let entry = RemoteProjectEntry { path: "/a".to_string(), dev_server_name: None };
    let remote = WorkspaceLocation::remote(1, Some(entry));
    assert_ne!(local, remote);
    let remote_again = WorkspaceLocation::remote(
        1,
        Some(RemoteProjectEntry { path: "/a".to_string(), dev_server_name: None }),
    );
    assert_eq!(remote, remote_again);
    let other_id = WorkspaceLocation::remote(
        2,
        Some(RemoteProjectEntry { path: "/a".to_string(), dev_server_name: None }),
    );
    assert_ne!(remote, other_id);
}

#[test]
fn unknown_remote_id_degrades_instead_of_failing() {
    let loc = WorkspaceLocation::remote(42, None);
    assert!(loc.paths().is_empty());
    assert_eq!(
        loc.remote_project,
        Some(SerializedRemoteProject { id: 42, dev_server_name: String::new() })
    );
}

#[test]
fn known_remote_id_takes_path_and_server_name() {
    let entry = RemoteProjectEntry {
        path: "/srv/project".to_string(),
        dev_server_name: Some("buildbox".to_string()),
    };
    let loc = WorkspaceLocation::remote(7, Some(entry));
    assert_eq!(loc.paths(), &paths(&["/srv/project"]));
    assert_eq!(
        loc.remote_project,
        Some(SerializedRemoteProject { id: 7, dev_server_name: "buildbox".to_string() })
    );
}

#[test]
fn from_local_paths_matches_local() {
    let a = WorkspaceLocation::local(paths(&["/x", "/y"]));
    let b = WorkspaceLocation::from_local_paths(paths(&["/x", "/y"]));
    assert_eq!(a, b);
}

#[test]
fn defaults_are_the_documented_ones() {
    let dock = DockData::default();
    assert!(!dock.visible);
    assert!(dock.active_panel.is_none());
    assert!(!dock.zoom);
    let docks = DockStructure::default();
    assert_eq!(docks.left, DockData::default());
    assert_eq!(docks.right, DockData::default());
    assert_eq!(docks.bottom, DockData::default());
    let item = SerializedItem::default();
    assert_eq!(item, SerializedItem::new("Terminal", 100000, false, false));
    match SerializedPaneGroup::default() {
        SerializedPaneGroup::Pane(p) => {
            assert_eq!(p, SerializedPane::new(vec![SerializedItem::default()], false));
        }
        other => panic!("expected a pane, got {:?}", other),
    }
}

#[test]
fn constructors_store_their_arguments() {
    let item = SerializedItem::new("Editor", 9, true, false);
    assert_eq!(item.kind, "Editor");
    assert_eq!(item.item_id, 9);
    assert!(item.active);
    assert!(!item.preview);
    let pane = SerializedPane::new(vec![item.clone()], true);
    assert!(pane.active);
    assert_eq!(pane.children, vec![item]);
}

#[test]
fn any_failed_task_turns_the_indicator_red() {
    let states = vec![
        TaskState::Running,
        TaskState::Completed { success: false },
        TaskState::Completed { success: true },
    ];
    assert_eq!(current_status(&states), Some(TaskStatus::Failed));
}

#[test]
fn running_beats_success_in_either_order() {
    let states = vec![TaskState::Running, TaskState::Completed { success: true }];
    assert_eq!(current_status(&states), Some(TaskStatus::Running));
    let states = vec![TaskState::Completed { success: true }, TaskState::Running];
    assert_eq!(current_status(&states), Some(TaskStatus::Running));
}

#[test]
fn all_successes_turn_the_indicator_green() {
    let states = vec![
        TaskState::Completed { success: true },
        TaskState::Unscheduled,
        TaskState::Completed { success: true },
    ];
    assert_eq!(current_status(&states), Some(TaskStatus::Succeeded));
}

#[test]
fn no_tasks_means_no_indicator() {
    assert_eq!(current_status(&Vec::new()), None);
    let states = vec![TaskState::Unscheduled];
    assert_eq!(current_status(&states), None);
}
