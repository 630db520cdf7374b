use workspace_layout::column::DecodeError;
use workspace_layout::column::SqlValue;
use workspace_layout::model::DockData;
use workspace_layout::model::DockStructure;
use workspace_layout::model::SerializedItem;
use workspace_layout::model::SerializedRemoteProject;
use workspace_layout::model::RemoteProjectEntry;
use workspace_layout::model::WorkspaceLocation;

fn dock(visible: bool, panel: Option<&str>, zoom: bool) -> DockData {
    DockData { visible, active_panel: panel.map(|p| p.to_string()), zoom }
}

#[test]
fn column_counts_are_fixed() {
    assert_eq!(DockData::column_count(), 3);
    assert_eq!(DockStructure::column_count(), 9);
    assert_eq!(SerializedItem::column_count(), 4);
    assert_eq!(WorkspaceLocation::column_count(), 2);
}

#[test]
fn dock_data_round_trips() {
    let d = dock(true, Some("project_panel"), false);
    let mut record: Vec<SqlValue> = Vec::new();
    d.bind(&mut record);
    assert_eq!(record.len(), 3);
    let (back, next) = DockData::column(&record, 0).unwrap();
    assert_eq!(back, d);
    assert_eq!(next, 3);
}

#[test]
fn dock_data_round_trips_at_offset() {
    let d = dock(false, None, true);
    let mut record: Vec<SqlValue> = vec![SqlValue::Integer(99)];
    d.bind(&mut record);
    let (back, next) = DockData::column(&record, 1).unwrap();
    assert_eq!(back, d);
    assert_eq!(next, 4);
}

#[test]
fn dock_data_absent_columns_default() {
    let record = vec![SqlValue::Null, SqlValue::Null, SqlValue::Null];
    let (back, next) = DockData::column(&record, 0).unwrap();
    assert_eq!(back, DockData::default());
    assert_eq!(next, 3);
}

#[test]
fn dock_data_wrong_type_names_the_field() {
    let record = vec![SqlValue::Text("x".to_string()), SqlValue::Null, SqlValue::Null];
    assert_eq!(DockData::column(&record, 0), Err(DecodeError::DockVisible));
    let record = vec![SqlValue::Integer(1), SqlValue::Integer(2), SqlValue::Null];
    assert_eq!(DockData::column(&record, 0), Err(DecodeError::DockActivePanel));
    let record = vec![SqlValue::Integer(1), SqlValue::Null, SqlValue::Text("z".to_string())];
    assert_eq!(DockData::column(&record, 0), Err(DecodeError::DockZoom));
}

#[test]
fn dock_data_truncated_record_errors() {
    let record = vec![SqlValue::Integer(1), SqlValue::Null];
    assert_eq!(DockData::column(&record, 0), Err(DecodeError::DockZoom));
}

#[test]
fn dock_structure_round_trips_left_right_bottom() {
    let docks = DockStructure {
        left: dock(true, Some("project_panel"), false),
        right: dock(false, Some("assistant"), true),
        bottom: dock(true, None, false),
    };
    let mut record: Vec<SqlValue> = Vec::new();
    docks.bind(&mut record);
    assert_eq!(record.len(), 9);
    // the first three columns belong to the left dock: fixed order
    assert_eq!(record[0], SqlValue::Integer(1));
    assert_eq!(record[1], SqlValue::Text("project_panel".to_string()));
    let (back, next) = DockStructure::column(&record, 0).unwrap();
    assert_eq!(back, docks);
    assert_eq!(next, 9);
}

#[test]
fn item_round_trips() {
    let item = SerializedItem::new("Editor", 42, true, false);
    let mut record: Vec<SqlValue> = Vec::new();
    item.bind(&mut record);
    assert_eq!(record.len(), 4);
    assert_eq!(record[0], SqlValue::Text("Editor".to_string()));
    assert_eq!(record[1], SqlValue::Integer(42));
    assert_eq!(record[2], SqlValue::Integer(1));
    assert_eq!(record[3], SqlValue::Integer(0));
    let (back, next) = SerializedItem::column(&record, 0).unwrap();
    assert_eq!(back, item);
    assert_eq!(next, 4);
}

#[test]
fn item_with_largest_id_round_trips() {
    let item = SerializedItem::new("Terminal", u64::MAX, false, true);
    let mut record: Vec<SqlValue> = Vec::new();
    item.bind(&mut record);
    // stored as the signed integer with the same bit pattern
    assert_eq!(record[1], SqlValue::Integer(-1));
    let (back, _) = SerializedItem::column(&record, 0).unwrap();
    assert_eq!(back, item);
}

#[test]
fn item_wrong_type_names_the_field() {
    let good = SerializedItem::new("Editor", 7, false, false);
    let mut record: Vec<SqlValue> = Vec::new();
    good.bind(&mut record);
    let mut broken = record.clone();
    broken[0] = SqlValue::Integer(3);
    assert_eq!(SerializedItem::column(&broken, 0), Err(DecodeError::ItemKind));
    let mut broken = record.clone();
    broken[1] = SqlValue::Null;
    assert_eq!(SerializedItem::column(&broken, 0), Err(DecodeError::ItemId));
    let mut broken = record.clone();
    broken[2] = SqlValue::Text("yes".to_string());
    assert_eq!(SerializedItem::column(&broken, 0), Err(DecodeError::ItemActive));
    let mut broken = record;
    broken[3] = SqlValue::Null;
    assert_eq!(SerializedItem::column(&broken, 0), Err(DecodeError::ItemPreview));
}

#[test]
fn local_location_round_trips() {
    let loc = WorkspaceLocation::local(vec!["/home/a".to_string(), "/home/b".to_string()]);
    let mut record: Vec<SqlValue> = Vec::new();
    loc.bind(&mut record);
    assert_eq!(record.len(), 2);
    let (back, next) = WorkspaceLocation::column(&record, 0).unwrap();
    assert_eq!(back, loc);
    assert_eq!(next, 2);
}

#[test]
fn remote_location_round_trips() {
    let entry = RemoteProjectEntry {
        path: "/srv/project".to_string(),
        dev_server_name: Some("buildbox".to_string()),
    };
    let loc = WorkspaceLocation::remote(7, Some(entry));
    let mut record: Vec<SqlValue> = Vec::new();
    loc.bind(&mut record);
    let (back, _) = WorkspaceLocation::column(&record, 0).unwrap();
    assert_eq!(back, loc);
    assert_eq!(
        back.remote_project,
        Some(SerializedRemoteProject { id: 7, dev_server_name: "buildbox".to_string() })
    );
}

#[test]
fn location_bind_really_encodes() {
    // the stored columns are an opaque blob and a structured text, not the
    // inputs handed through unchanged
    let loc = WorkspaceLocation::local(vec!["/home/a".to_string()]);
    let mut record: Vec<SqlValue> = Vec::new();
    loc.bind(&mut record);
    match &record[0] {
        SqlValue::Blob(blob) => assert_ne!(blob.as_slice(), "/home/a".as_bytes()),
        other => panic!("expected a blob column, got {:?}", other),
    }
    match &record[1] {
        SqlValue::Text(text) => {
            // the canonical "no value" text, not an empty column
            assert!(!text.is_empty());
        }
        other => panic!("expected a text column, got {:?}", other),
    }
}

#[test]
fn malformed_location_columns_error_by_field() {
    let loc = WorkspaceLocation::local(vec!["/home/a".to_string()]);
    let mut record: Vec<SqlValue> = Vec::new();
    loc.bind(&mut record);
    let mut broken = record.clone();
    broken[0] = SqlValue::Blob(vec![0xff, 0xff, 0xff]);
    assert_eq!(
        WorkspaceLocation::column(&broken, 0),
        Err(DecodeError::LocationPaths)
    );
    let mut broken = record;
    broken[1] = SqlValue::Text("{not json".to_string());
    assert_eq!(
        WorkspaceLocation::column(&broken, 0),
        Err(DecodeError::LocationRemoteProject)
    );
}
