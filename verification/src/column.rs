//! The positional column protocol: each persisted type occupies a fixed
//! number of store columns and comes with a symmetric encode/decode pair
//! over a positional cursor. Encoding appends a type's columns to a record;
//! decoding reads them back from a start index and reports, per field, why
//! it could not.

use crate::codec::decode_paths;
use crate::codec::decode_remote_project;
use crate::codec::encode_paths;
use crate::codec::encode_remote_project;
use crate::codec::paths_blob_of;
use crate::codec::remote_json_of;
use crate::model::DockData;
use crate::model::DockDataView;
use crate::model::DockStructure;
use crate::model::DockStructureView;
use crate::model::ItemView;
use crate::model::LocationView;
use crate::model::SerializedItem;
use crate::model::SerializedRemoteProject;
use crate::model::WorkspaceLocation;
use vstd::prelude::*;

verus! {

/// One physical store column, as the row store types its values.
#[derive(Debug, Clone, PartialEq, Eq)]
pub enum SqlValue {
    Null,
    Integer(i64),
    Text(String),
    Blob(Vec<u8>),
}

/// Mathematical value of a `SqlValue`.
pub enum SqlData {
    Null,
    Integer(i64),
    Text(Seq<char>),
    Blob(Seq<u8>),
}

impl View for SqlValue {
    type V = SqlData;

    open spec fn view(&self) -> SqlData {
        match self {
            SqlValue::Null => SqlData::Null,
            SqlValue::Integer(i) => SqlData::Integer(*i),
            SqlValue::Text(s) => SqlData::Text(s@),
            SqlValue::Blob(b) => SqlData::Blob(b@),
        }
    }
}

impl DeepView for SqlValue {
    type V = SqlData;

    open spec fn deep_view(&self) -> SqlData {
        self@
    }
}

/// Which field of a record could not be decoded.
#[derive(Debug, Clone, Copy, PartialEq, Eq, Structural)]
pub enum DecodeError {
    DockVisible,
    DockActivePanel,
    DockZoom,
    ItemKind,
    ItemId,
    ItemActive,
    ItemPreview,
    LocationPaths,
    LocationRemoteProject,
}

/// A stored boolean: zero is false, everything else is true.
pub open spec fn int_of_bool(b: bool) -> SqlData {
    SqlData::Integer(if b { 1 } else { 0 })
}

/// Reading an optional boolean column: an absent value decodes as `None`,
/// an integer as its truth value, anything else is the given field's error.
pub open spec fn parse_opt_bool(cols: Seq<SqlData>, i: int, e: DecodeError) -> Result<
    Option<bool>,
    DecodeError,
> {
    if 0 <= i < cols.len() {
        match cols[i] {
            SqlData::Null => Ok(None),
            SqlData::Integer(v) => Ok(Some(v != 0)),
            _ => Err(e),
        }
    } else {
        Err(e)
    }
}

/// Reading an optional text column.
pub open spec fn parse_opt_text(cols: Seq<SqlData>, i: int, e: DecodeError) -> Result<
    Option<Seq<char>>,
    DecodeError,
> {
    if 0 <= i < cols.len() {
        match cols[i] {
            SqlData::Null => Ok(None),
            SqlData::Text(t) => Ok(Some(t)),
            _ => Err(e),
        }
    } else {
        Err(e)
    }
}

/// Reading a required text column.
pub open spec fn parse_text(cols: Seq<SqlData>, i: int, e: DecodeError) -> Result<
    Seq<char>,
    DecodeError,
> {
    if 0 <= i < cols.len() {
        match cols[i] {
            SqlData::Text(t) => Ok(t),
            _ => Err(e),
        }
    } else {
        Err(e)
    }
}

/// Reading a required boolean column.
pub open spec fn parse_bool(cols: Seq<SqlData>, i: int, e: DecodeError) -> Result<
    bool,
    DecodeError,
> {
    if 0 <= i < cols.len() {
        match cols[i] {
            SqlData::Integer(v) => Ok(v != 0),
            _ => Err(e),
        }
    } else {
        Err(e)
    }
}

/// Reading an unsigned 64-bit identifier, stored as the signed integer with
/// the same bit pattern.
pub open spec fn parse_u64(cols: Seq<SqlData>, i: int, e: DecodeError) -> Result<
    u64,
    DecodeError,
> {
    if 0 <= i < cols.len() {
        match cols[i] {
            SqlData::Integer(v) => Ok(v as u64),
            _ => Err(e),
        }
    } else {
        Err(e)
    }
}

/// An absent stored boolean defaults to false.
pub open spec fn opt_or_false(o: Option<bool>) -> bool {
    match o {
        Some(b) => b,
        None => false,
    }
}

// ---------------------------------------------------------------------------
// DockData: 3 columns, `visible, active_panel, zoom`, each independently
// optional when read back.
// ---------------------------------------------------------------------------
/// The columns a dock region is stored under.
pub open spec fn dock_data_columns(d: DockDataView) -> Seq<SqlData> {
    seq![
        int_of_bool(d.visible),
        match d.active_panel {
            Some(t) => SqlData::Text(t),
            None => SqlData::Null,
        },
        int_of_bool(d.zoom),
    ]
}

/// Reading a dock region from three columns.
pub open spec fn parse_dock_data(cols: Seq<SqlData>, i: int) -> Result<
    (DockDataView, int),
    DecodeError,
> {
    match parse_opt_bool(cols, i, DecodeError::DockVisible) {
        Err(e) => Err(e),
        Ok(visible) => match parse_opt_text(cols, i + 1, DecodeError::DockActivePanel) {
            Err(e) => Err(e),
            Ok(active_panel) => match parse_opt_bool(cols, i + 2, DecodeError::DockZoom) {
                Err(e) => Err(e),
                Ok(zoom) => Ok(
                    (
                        DockDataView {
                            visible: opt_or_false(visible),
                            active_panel,
                            zoom: opt_or_false(zoom),
                        },
                        i + 3,
                    ),
                ),
            },
        },
    }
}

/// The view of a decode result.
pub open spec fn dock_data_result_view(r: Result<(DockData, usize), DecodeError>) -> Result<
    (DockDataView, int),
    DecodeError,
> {
    match r {
        Ok((d, next)) => Ok((d@, next as int)),
        Err(e) => Err(e),
    }
}

impl DockData {
    /// The number of store columns a dock region occupies.
    pub fn column_count() -> (n: usize)
        ensures
            n == 3,
    {
        3
    }

    /// Append this dock region's columns to `record`.
    pub fn bind(&self, record: &mut Vec<SqlValue>)
        ensures
            final(record).deep_view() == old(record).deep_view() + dock_data_columns(self@),
    {
        record.push(SqlValue::Integer(if self.visible { 1 } else { 0 }));
        match &self.active_panel {
            Some(p) => record.push(SqlValue::Text(p.clone())),
            None => record.push(SqlValue::Null),
        }
        record.push(SqlValue::Integer(if self.zoom { 1 } else { 0 }));
        proof {
            assert(record.deep_view() =~= old(record).deep_view() + dock_data_columns(self@));
        }
    }

    /// Read a dock region from `record` at `start_index`; on success also
    /// return the index of the first column after it.
    pub fn column(record: &Vec<SqlValue>, start_index: usize) -> (r: Result<
        (Self, usize),
        DecodeError,
    >)
        ensures
            dock_data_result_view(r) == parse_dock_data(record.deep_view(), start_index as int),
    {
        let visible: Option<bool> = if start_index < record.len() {
            match &record[start_index] {
                SqlValue::Null => None,
                SqlValue::Integer(v) => Some(*v != 0),
                _ => {
                    return Err(DecodeError::DockVisible);
                },
            }
        } else {
            return Err(DecodeError::DockVisible);
        };
        let active_panel: Option<String> = if start_index + 1 < record.len() {
            match &record[start_index + 1] {
                SqlValue::Null => None,
                SqlValue::Text(t) => Some(t.clone()),
                _ => {
                    return Err(DecodeError::DockActivePanel);
                },
            }
        } else {
            return Err(DecodeError::DockActivePanel);
        };
        let zoom: Option<bool> = if start_index + 2 < record.len() {
            match &record[start_index + 2] {
                SqlValue::Null => None,
                SqlValue::Integer(v) => Some(*v != 0),
                _ => {
                    return Err(DecodeError::DockZoom);
                },
            }
        } else {
            return Err(DecodeError::DockZoom);
        };
        let d = DockData {
            visible: match visible {
                Some(b) => b,
                None => false,
            },
            active_panel,
            zoom: match zoom {
                Some(b) => b,
                None => false,
            },
        };
        Ok((d, start_index + 3))
    }
}

/// Round trip: a dock region read back from the columns it was stored
/// under is the region itself, wherever those columns sit in a record.
pub proof fn lemma_dock_data_round_trip(d: DockDataView, cols: Seq<SqlData>, i: int)
    requires
        0 <= i,
        i + 3 <= cols.len(),
        cols.subrange(i, i + 3) == dock_data_columns(d),
    ensures
        parse_dock_data(cols, i) == Ok::<_, DecodeError>((d, i + 3)),
{
    assert(cols[i] == dock_data_columns(d)[0]);
    assert(cols[i + 1] == dock_data_columns(d)[1]);
    assert(cols[i + 2] == dock_data_columns(d)[2]);
}

// ---------------------------------------------------------------------------
// DockStructure: three dock regions, written left, right, bottom, in that
// fixed order. Reordering is a format break.
// ---------------------------------------------------------------------------
/// The columns the three dock regions are stored under.
pub open spec fn dock_structure_columns(d: DockStructureView) -> Seq<SqlData> {
    dock_data_columns(d.left) + dock_data_columns(d.right) + dock_data_columns(d.bottom)
}

/// Reading the three dock regions.
pub open spec fn parse_dock_structure(cols: Seq<SqlData>, i: int) -> Result<
    (DockStructureView, int),
    DecodeError,
> {
    match parse_dock_data(cols, i) {
        Err(e) => Err(e),
        Ok((left, j)) => match parse_dock_data(cols, j) {
            Err(e) => Err(e),
            Ok((right, k)) => match parse_dock_data(cols, k) {
                Err(e) => Err(e),
                Ok((bottom, next)) => Ok((DockStructureView { left, right, bottom }, next)),
            },
        },
    }
}

/// The view of a decode result.
pub open spec fn dock_structure_result_view(r: Result<(DockStructure, usize), DecodeError>)
    -> Result<(DockStructureView, int), DecodeError> {
    match r {
        Ok((d, next)) => Ok((d@, next as int)),
        Err(e) => Err(e),
    }
}

impl DockStructure {
    /// The number of store columns the three dock regions occupy.
    pub fn column_count() -> (n: usize)
        ensures
            n == 9,
    {
        9
    }

    /// Append the three dock regions' columns to `record`, left, right,
    /// bottom.
    pub fn bind(&self, record: &mut Vec<SqlValue>)
        ensures
            final(record).deep_view() == old(record).deep_view() + dock_structure_columns(self@),
    {
        self.left.bind(record);
        self.right.bind(record);
        self.bottom.bind(record);
        proof {
            assert(record.deep_view() =~= old(record).deep_view() + dock_structure_columns(
                self@,
            ));
        }
    }

    /// Read the three dock regions from `record` at `start_index`.
    pub fn column(record: &Vec<SqlValue>, start_index: usize) -> (r: Result<
        (Self, usize),
        DecodeError,
    >)
        ensures
            dock_structure_result_view(r) == parse_dock_structure(
                record.deep_view(),
                start_index as int,
            ),
    {
        let (left, next_index) = match DockData::column(record, start_index) {
            Ok(x) => x,
            Err(e) => {
                return Err(e);
            },
        };
        let (right, next_index) = match DockData::column(record, next_index) {
            Ok(x) => x,
            Err(e) => {
                return Err(e);
            },
        };
        let (bottom, next_index) = match DockData::column(record, next_index) {
            Ok(x) => x,
            Err(e) => {
                return Err(e);
            },
        };
        Ok((DockStructure { left, right, bottom }, next_index))
    }
}

/// Round trip for the three dock regions together.
pub proof fn lemma_dock_structure_round_trip(d: DockStructureView, cols: Seq<SqlData>, i: int)
    requires
        0 <= i,
        i + 9 <= cols.len(),
        cols.subrange(i, i + 9) == dock_structure_columns(d),
    ensures
        parse_dock_structure(cols, i) == Ok::<_, DecodeError>((d, i + 9)),
{
    assert(cols.subrange(i, i + 3) =~= dock_data_columns(d.left)) by {
        assert forall|k: int| 0 <= k < 3 implies cols.subrange(i, i + 3)[k]
            == dock_data_columns(d.left)[k] by {
            assert(cols.subrange(i, i + 9)[k] == cols[i + k]);
        }
    }
    assert(cols.subrange(i + 3, i + 6) =~= dock_data_columns(d.right)) by {
        assert forall|k: int| 0 <= k < 3 implies cols.subrange(i + 3, i + 6)[k]
            == dock_data_columns(d.right)[k] by {
            assert(cols.subrange(i, i + 9)[k + 3] == cols[i + 3 + k]);
        }
    }
    assert(cols.subrange(i + 6, i + 9) =~= dock_data_columns(d.bottom)) by {
        assert forall|k: int| 0 <= k < 3 implies cols.subrange(i + 6, i + 9)[k]
            == dock_data_columns(d.bottom)[k] by {
            assert(cols.subrange(i, i + 9)[k + 6] == cols[i + 6 + k]);
        }
    }
    lemma_dock_data_round_trip(d.left, cols, i);
    lemma_dock_data_round_trip(d.right, cols, i + 3);
    lemma_dock_data_round_trip(d.bottom, cols, i + 6);
}

// ---------------------------------------------------------------------------
// SerializedItem: 4 columns, `kind, item_id, active, preview`, in that
// fixed order.
// ---------------------------------------------------------------------------
/// The columns an item is stored under.
pub open spec fn item_columns(it: ItemView) -> Seq<SqlData> {
    seq![
        SqlData::Text(it.kind),
        SqlData::Integer(it.item_id as i64),
        int_of_bool(it.active),
        int_of_bool(it.preview),
    ]
}

/// Reading an item from four columns.
pub open spec fn parse_item(cols: Seq<SqlData>, i: int) -> Result<(ItemView, int), DecodeError> {
    match parse_text(cols, i, DecodeError::ItemKind) {
        Err(e) => Err(e),
        Ok(kind) => match parse_u64(cols, i + 1, DecodeError::ItemId) {
            Err(e) => Err(e),
            Ok(item_id) => match parse_bool(cols, i + 2, DecodeError::ItemActive) {
                Err(e) => Err(e),
                Ok(active) => match parse_bool(cols, i + 3, DecodeError::ItemPreview) {
                    Err(e) => Err(e),
                    Ok(preview) => Ok((ItemView { kind, item_id, active, preview }, i + 4)),
                },
            },
        },
    }
}

/// The view of a decode result.
pub open spec fn item_result_view(r: Result<(SerializedItem, usize), DecodeError>) -> Result<
    (ItemView, int),
    DecodeError,
> {
    match r {
        Ok((it, next)) => Ok((it@, next as int)),
        Err(e) => Err(e),
    }
}

impl SerializedItem {
    /// The number of store columns an item occupies.
    pub fn column_count() -> (n: usize)
        ensures
            n == 4,
    {
        4
    }

    /// Append this item's columns to `record`.
    pub fn bind(&self, record: &mut Vec<SqlValue>)
        ensures
            final(record).deep_view() == old(record).deep_view() + item_columns(self@),
    {
        record.push(SqlValue::Text(self.kind.clone()));
        record.push(SqlValue::Integer(self.item_id as i64));
        record.push(SqlValue::Integer(if self.active { 1 } else { 0 }));
        record.push(SqlValue::Integer(if self.preview { 1 } else { 0 }));
        proof {
            assert(record.deep_view() =~= old(record).deep_view() + item_columns(self@));
        }
    }

    /// Read an item from `record` at `start_index`.
    pub fn column(record: &Vec<SqlValue>, start_index: usize) -> (r: Result<
        (Self, usize),
        DecodeError,
    >)
        ensures
            item_result_view(r) == parse_item(record.deep_view(), start_index as int),
    {
        let kind: String = if start_index < record.len() {
            match &record[start_index] {
                SqlValue::Text(t) => t.clone(),
                _ => {
                    return Err(DecodeError::ItemKind);
                },
            }
        } else {
            return Err(DecodeError::ItemKind);
        };
        let item_id: u64 = if start_index + 1 < record.len() {
            match &record[start_index + 1] {
                SqlValue::Integer(v) => *v as u64,
                _ => {
                    return Err(DecodeError::ItemId);
                },
            }
        } else {
            return Err(DecodeError::ItemId);
        };
        let active: bool = if start_index + 2 < record.len() {
            match &record[start_index + 2] {
                SqlValue::Integer(v) => *v != 0,
                _ => {
                    return Err(DecodeError::ItemActive);
                },
            }
        } else {
            return Err(DecodeError::ItemActive);
        };
        let preview: bool = if start_index + 3 < record.len() {
            match &record[start_index + 3] {
                SqlValue::Integer(v) => *v != 0,
                _ => {
                    return Err(DecodeError::ItemPreview);
                },
            }
        } else {
            return Err(DecodeError::ItemPreview);
        };
        Ok((SerializedItem { kind, item_id, active, preview }, start_index + 4))
    }
}

/// Round trip: an item read back from the columns it was stored under is
/// the item itself.
pub proof fn lemma_item_round_trip(it: ItemView, cols: Seq<SqlData>, i: int)
    requires
        0 <= i,
        i + 4 <= cols.len(),
        cols.subrange(i, i + 4) == item_columns(it),
    ensures
        parse_item(cols, i) == Ok::<_, DecodeError>((it, i + 4)),
{
    assert(cols[i] == item_columns(it)[0]);
    assert(cols[i + 1] == item_columns(it)[1]);
    assert(cols[i + 2] == item_columns(it)[2]);
    assert(cols[i + 3] == item_columns(it)[3]);
    let id = it.item_id;
    assert((id as i64) as u64 == id) by (bit_vector);
    assert(it.active ==> (1int as i64) != 0);
}

// ---------------------------------------------------------------------------
// WorkspaceLocation: 2 columns, the path blob and the remote-project text.
// ---------------------------------------------------------------------------
/// The columns a location key is stored under.
pub open spec fn location_columns(l: LocationView) -> Seq<SqlData> {
    seq![
        SqlData::Blob(paths_blob_of(l.paths)),
        SqlData::Text(remote_json_of(l.remote_project)),
    ]
}

impl WorkspaceLocation {
    /// The number of store columns a location key occupies.
    pub fn column_count() -> (n: usize)
        ensures
            n == 2,
    {
        2
    }

    /// Append this location's columns to `record`: the path blob, then the
    /// remote-project text.
    pub fn bind(&self, record: &mut Vec<SqlValue>)
        ensures
            final(record).deep_view() == old(record).deep_view() + location_columns(self@),
    {
        let blob = encode_paths(&self.paths);
        record.push(SqlValue::Blob(blob));
        let text = encode_remote_project(&self.remote_project);
        record.push(SqlValue::Text(text));
        proof {
            assert(record.deep_view() =~= old(record).deep_view() + location_columns(self@));
        }
    }

    /// Read a location key from `record` at `start_index`. A record holding
    /// the columns some location was stored under decodes to that location;
    /// a first column that is not a decodable blob fails on the paths, a
    /// second that is not decodable text fails on the remote project.
    pub fn column(record: &Vec<SqlValue>, start_index: usize) -> (r: Result<
        (Self, usize),
        DecodeError,
    >)
        ensures
            r matches Ok((loc, next)) ==> next == start_index + 2,
            r matches Err(e) ==> (e == DecodeError::LocationPaths || e
                == DecodeError::LocationRemoteProject),
            record.deep_view().len() <= start_index ==> r == Err::<(Self, usize), _>(
                DecodeError::LocationPaths,
            ),
            start_index < record.deep_view().len() && !(record.deep_view()[start_index as int]
                is Blob) ==> r == Err::<(Self, usize), _>(DecodeError::LocationPaths),
            forall|l: LocationView|
                {
                    &&& start_index + 2 <= record.len()
                    &&& record.deep_view()[start_index as int] == SqlData::Blob(
                        #[trigger] paths_blob_of(l.paths),
                    )
                    &&& record.deep_view()[start_index + 1] == SqlData::Text(
                        remote_json_of(l.remote_project),
                    )
                } ==> (r matches Ok((loc, next)) && loc@ == l),
    {
        let paths: Vec<String> = if start_index < record.len() {
            match &record[start_index] {
                SqlValue::Blob(b) => match decode_paths(b) {
                    Some(p) => p,
                    None => {
                        return Err(DecodeError::LocationPaths);
                    },
                },
                _ => {
                    return Err(DecodeError::LocationPaths);
                },
            }
        } else {
            return Err(DecodeError::LocationPaths);
        };
        let remote_project: Option<SerializedRemoteProject> = if start_index + 1 < record.len() {
            match &record[start_index + 1] {
                SqlValue::Text(t) => match decode_remote_project(t.as_str()) {
                    Some(v) => v,
                    None => {
                        return Err(DecodeError::LocationRemoteProject);
                    },
                },
                _ => {
                    return Err(DecodeError::LocationRemoteProject);
                },
            }
        } else {
            return Err(DecodeError::LocationRemoteProject);
        };
        let loc = WorkspaceLocation { paths, remote_project };
        Ok((loc, start_index + 2))
    }
}

} // verus!
