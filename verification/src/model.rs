//! The layout record: the pure data types that describe one persisted
//! workspace window, together with their mathematical views.

use vstd::prelude::*;

verus! {

/// Split direction of a pane group.
#[derive(Debug, Clone, Copy, PartialEq, Eq, Structural)]
pub enum Axis {
    Horizontal,
    Vertical,
}

/// One item of a pane: a kind tag naming its deserializer, the persisted
/// identifier the deserializer is handed, and whether the item was the
/// active or the previewed one of its pane.
#[derive(Debug, Clone, PartialEq, Eq)]
pub struct SerializedItem {
    pub kind: String,
    pub item_id: u64,
    pub active: bool,
    pub preview: bool,
}

/// Mathematical value of a `SerializedItem`.
pub struct ItemView {
    pub kind: Seq<char>,
    pub item_id: u64,
    pub active: bool,
    pub preview: bool,
}

impl View for SerializedItem {
    type V = ItemView;

    open spec fn view(&self) -> ItemView {
        ItemView {
            kind: self.kind@,
            item_id: self.item_id,
            active: self.active,
            preview: self.preview,
        }
    }
}

impl DeepView for SerializedItem {
    type V = ItemView;

    open spec fn deep_view(&self) -> ItemView {
        self@
    }
}

impl SerializedItem {
    pub fn new(kind: &str, item_id: u64, active: bool, preview: bool) -> (r: Self)
        ensures
            r@ == (ItemView { kind: kind@, item_id, active, preview }),
    {
        SerializedItem { kind: kind.to_owned(), item_id, active, preview }
    }
}

impl Default for SerializedItem {
    /// The stand-in item used when a test needs some item and does not care
    /// which: a terminal tab with a fixed identifier.
    fn default() -> (r: Self)
        ensures
            r@ == (ItemView { kind: "Terminal"@, item_id: 100000, active: false, preview: false }),
    {
        SerializedItem {
            kind: "Terminal".to_owned(),
            item_id: 100000,
            active: false,
            preview: false,
        }
    }
}

/// A leaf of the layout tree: the ordered items of one pane and whether the
/// pane itself was the window's active pane.
#[derive(Debug, Clone, PartialEq, Eq)]
pub struct SerializedPane {
    pub active: bool,
    pub children: Vec<SerializedItem>,
}

/// Mathematical value of a `SerializedPane`.
pub struct PaneView {
    pub active: bool,
    pub children: Seq<ItemView>,
}

impl View for SerializedPane {
    type V = PaneView;

    open spec fn view(&self) -> PaneView {
        PaneView { active: self.active, children: self.children.deep_view() }
    }
}

impl SerializedPane {
    pub fn new(children: Vec<SerializedItem>, active: bool) -> (r: Self)
        ensures
            r@ == (PaneView { active, children: children.deep_view() }),
    {
        SerializedPane { active, children }
    }
}

/// The recursive layout tree: an axis-aligned split holding further trees,
/// or a single pane. A group's `flexes`, when present, carries one weight
/// per child, each stored as the raw bit pattern of a binary32 weight; the
/// reconstruction logic passes the weights through untouched.
#[derive(Debug)]
pub enum SerializedPaneGroup {
    Group { axis: Axis, flexes: Option<Vec<u32>>, children: Vec<SerializedPaneGroup> },
    Pane(SerializedPane),
}

/// Mathematical value of a `SerializedPaneGroup`.
pub enum PaneGroupView {
    Group { axis: Axis, flexes: Option<Seq<u32>>, children: Seq<PaneGroupView> },
    Pane(PaneView),
}

/// Mathematical value of a `SerializedPaneGroup`.
pub open spec fn pane_group_view(g: SerializedPaneGroup) -> PaneGroupView
    decreases g, 0int,
    via pane_group_view_decreases
{
    match g {
        SerializedPaneGroup::Group { axis, flexes, .. } => PaneGroupView::Group {
            axis,
            flexes: match flexes {
                Some(f) => Some(f@),
                None => None,
            },
            children: pane_group_views(g->Group_children@, 0),
        },
        SerializedPaneGroup::Pane(pane) => PaneGroupView::Pane(pane@),
    }
}

/// The views of `children[i..]`, in order.
pub open spec fn pane_group_views(children: Seq<SerializedPaneGroup>, i: int) -> Seq<PaneGroupView>
    decreases children, children.len() - i + 1,
{
    if i < 0 || i >= children.len() {
        Seq::empty()
    } else {
        seq![pane_group_view(children[i])] + pane_group_views(children, i + 1)
    }
}

#[via_fn]
proof fn pane_group_view_decreases(g: SerializedPaneGroup) {
    if let SerializedPaneGroup::Group { .. } = g {
        assert(decreases_to!(g => g->Group_children));
        assert(decreases_to!(g->Group_children => g->Group_children@));
    }
}

/// How `pane_group_views` unrolls: one view per child, in the same order.
pub proof fn lemma_pane_group_views(children: Seq<SerializedPaneGroup>, i: int)
    requires
        0 <= i <= children.len(),
    ensures
        pane_group_views(children, i).len() == children.len() - i,
        forall|k: int|
            0 <= k < children.len() - i ==> #[trigger] pane_group_views(children, i)[k]
                == pane_group_view(children[i + k]),
    decreases children.len() - i,
{
    if i < children.len() {
        lemma_pane_group_views(children, i + 1);
        assert forall|k: int| 0 <= k < children.len() - i implies #[trigger] pane_group_views(
            children,
            i,
        )[k] == pane_group_view(children[i + k]) by {
            if k > 0 {
                assert(pane_group_views(children, i)[k] == pane_group_views(children, i + 1)[k
                    - 1]);
            }
        }
    }
}

impl View for SerializedPaneGroup {
    type V = PaneGroupView;

    open spec fn view(&self) -> PaneGroupView {
        pane_group_view(*self)
    }
}

impl Default for SerializedPaneGroup {
    /// The stand-in tree used when a test needs some tree: one inactive pane
    /// holding the stand-in item.
    fn default() -> (r: Self)
        ensures
            r@ matches PaneGroupView::Pane(p) && p.active == false && p.children.len() == 1
                && p.children[0] == (ItemView {
                kind: "Terminal"@,
                item_id: 100000,
                active: false,
                preview: false,
            }),
    {
        SerializedPaneGroup::Pane(SerializedPane {
            active: false,
            children: vec![SerializedItem::default()],
        })
    }
}

/// The identity and display name of the remote project a workspace was
/// opened against.
#[derive(Debug, Clone)]
pub struct SerializedRemoteProject {
    pub id: u64,
    pub dev_server_name: String,
}

/// Mathematical value of a `SerializedRemoteProject`.
pub struct RemoteProjectView {
    pub id: u64,
    pub dev_server_name: Seq<char>,
}

impl View for SerializedRemoteProject {
    type V = RemoteProjectView;

    open spec fn view(&self) -> RemoteProjectView {
        RemoteProjectView { id: self.id, dev_server_name: self.dev_server_name@ }
    }
}

impl PartialEq for SerializedRemoteProject {
    fn eq(&self, other: &Self) -> (r: bool) {
        self.id == other.id && self.dev_server_name == other.dev_server_name
    }
}

impl vstd::std_specs::cmp::PartialEqSpecImpl for SerializedRemoteProject {
    open spec fn obeys_eq_spec() -> bool {
        true
    }

    open spec fn eq_spec(&self, other: &Self) -> bool {
        self@ == other@
    }
}

/// What the process-wide remote-project directory knows of one remote
/// project id: the project's root path and, when the directory also knows
/// the owning dev server, that server's name.
#[derive(Debug, Clone)]
pub struct RemoteProjectEntry {
    pub path: String,
    pub dev_server_name: Option<String>,
}

/// Mathematical value of a `RemoteProjectEntry`.
pub struct RemoteProjectEntryView {
    pub path: Seq<char>,
    pub dev_server_name: Option<Seq<char>>,
}

impl View for RemoteProjectEntry {
    type V = RemoteProjectEntryView;

    open spec fn view(&self) -> RemoteProjectEntryView {
        RemoteProjectEntryView {
            path: self.path@,
            dev_server_name: match &self.dev_server_name {
                Some(n) => Some(n@),
                None => None,
            },
        }
    }
}

/// The view of an optional remote-project descriptor.
pub open spec fn remote_opt_view(remote_project: Option<SerializedRemoteProject>) -> Option<
    RemoteProjectView,
> {
    match remote_project {
        Some(p) => Some(p@),
        None => None,
    }
}

/// Identity of a workspace instance: its ordered root paths, and the remote
/// project it belongs to when it is not a local one. Paths keep insertion
/// order; callers supply the canonical ordering before a lookup.
#[derive(Debug, Clone)]
pub struct WorkspaceLocation {
    pub paths: Vec<String>,
    pub remote_project: Option<SerializedRemoteProject>,
}

/// Mathematical value of a `WorkspaceLocation`.
pub struct LocationView {
    pub paths: Seq<Seq<char>>,
    pub remote_project: Option<RemoteProjectView>,
}

impl View for WorkspaceLocation {
    type V = LocationView;

    open spec fn view(&self) -> LocationView {
        LocationView {
            paths: self.paths.deep_view(),
            remote_project: remote_opt_view(self.remote_project),
        }
    }
}

/// The location key produced for a remote project id: the directory entry's
/// path as the sole root, or no roots at all when the id is unknown; the
/// dev server name degrades to the empty string whenever it is not known.
pub open spec fn remote_location(id: u64, lookup: Option<RemoteProjectEntryView>) -> LocationView {
    match lookup {
        Some(entry) => LocationView {
            paths: seq![entry.path],
            remote_project: Some(
                RemoteProjectView {
                    id,
                    dev_server_name: match entry.dev_server_name {
                        Some(name) => name,
                        None => Seq::empty(),
                    },
                },
            ),
        },
        None => LocationView {
            paths: Seq::empty(),
            remote_project: Some(RemoteProjectView { id, dev_server_name: Seq::empty() }),
        },
    }
}

impl WorkspaceLocation {
    /// A location rooted at the given local paths, kept in the given order.
    pub fn local(paths: Vec<String>) -> (r: Self)
        ensures
            r@ == (LocationView { paths: paths.deep_view(), remote_project: None }),
    {
        WorkspaceLocation { paths, remote_project: None }
    }

    /// A location for a remote project. `lookup` is what the process-wide
    /// remote-project directory answered for `remote_project_id`; an unknown
    /// id degrades to a key with no paths and an empty dev server name
    /// rather than failing.
    pub fn remote(remote_project_id: u64, lookup: Option<RemoteProjectEntry>) -> (r: Self)
        ensures
            r@ == remote_location(
                remote_project_id,
                match lookup {
                    Some(e) => Some(e@),
                    None => None,
                },
            ),
    {
        match lookup {
            Some(entry) => {
                let r = WorkspaceLocation {
                    paths: vec![entry.path],
                    remote_project: Some(
                        SerializedRemoteProject {
                            id: remote_project_id,
                            dev_server_name: match entry.dev_server_name {
                                Some(name) => name,
                                None => String::new(),
                            },
                        },
                    ),
                };
                proof {
                    assert(r@.paths =~~= remote_location(remote_project_id, Some(entry@)).paths);
                }
                r
            },
            None => {
                let r = WorkspaceLocation {
                    paths: Vec::new(),
                    remote_project: Some(
                        SerializedRemoteProject {
                            id: remote_project_id,
                            dev_server_name: String::new(),
                        },
                    ),
                };
                proof {
                    assert(r@.paths =~~= Seq::<Seq<char>>::empty());
                }
                r
            },
        }
    }

    /// The ordered root paths of the location.
    pub fn paths(&self) -> (r: &Vec<String>)
        ensures
            r.deep_view() == self@.paths,
    {
        &self.paths
    }

    /// A location rooted at the given local paths; the test-support twin of
    /// [`WorkspaceLocation::local`].
    pub fn from_local_paths(paths: Vec<String>) -> (r: Self)
        ensures
            r@ == (LocationView { paths: paths.deep_view(), remote_project: None }),
    {
        WorkspaceLocation { paths, remote_project: None }
    }
}

impl PartialEq for WorkspaceLocation {
    fn eq(&self, other: &Self) -> (r: bool) {
        if self.paths.len() != other.paths.len() {
            proof {
                assert(self@.paths.len() != other@.paths.len());
            }
            return false;
        }
        let n = self.paths.len();
        let mut i: usize = 0;
        while i < n
            invariant
                i <= n,
                n == self.paths.len(),
                n == other.paths.len(),
                forall|k: int| 0 <= k < i ==> self.paths@[k]@ == other.paths@[k]@,
            decreases n - i,
        {
            if !(self.paths[i] == other.paths[i]) {
                proof {
                    assert(self@.paths[i as int] != other@.paths[i as int]);
                }
                return false;
            }
            i += 1;
        }
        proof {
            assert(self@.paths =~~= other@.paths);
        }
        match (&self.remote_project, &other.remote_project) {
            (None, None) => true,
            (Some(a), Some(b)) => a == b,
            _ => false,
        }
    }
}

impl vstd::std_specs::cmp::PartialEqSpecImpl for WorkspaceLocation {
    open spec fn obeys_eq_spec() -> bool {
        true
    }

    open spec fn eq_spec(&self, other: &Self) -> bool {
        self@ == other@
    }
}

/// States of a dock region: whether it is shown, which of its panels is the
/// active one, and whether that panel is zoomed. Absent stored values
/// default to hidden, no panel, not zoomed.
#[derive(Debug, Clone, PartialEq, Eq)]
pub struct DockData {
    pub visible: bool,
    pub active_panel: Option<String>,
    pub zoom: bool,
}

/// Mathematical value of a `DockData`.
pub struct DockDataView {
    pub visible: bool,
    pub active_panel: Option<Seq<char>>,
    pub zoom: bool,
}

impl View for DockData {
    type V = DockDataView;

    open spec fn view(&self) -> DockDataView {
        DockDataView {
            visible: self.visible,
            active_panel: match &self.active_panel {
                Some(p) => Some(p@),
                None => None,
            },
            zoom: self.zoom,
        }
    }
}

impl Default for DockData {
    fn default() -> (r: Self)
        ensures
            r@ == (DockDataView { visible: false, active_panel: None, zoom: false }),
    {
        DockData { visible: false, active_panel: None, zoom: false }
    }
}

/// The three dock regions of a window, in their fixed left, right, bottom
/// order.
#[derive(Debug, Clone, PartialEq, Eq)]
pub struct DockStructure {
    pub left: DockData,
    pub right: DockData,
    pub bottom: DockData,
}

/// Mathematical value of a `DockStructure`.
pub struct DockStructureView {
    pub left: DockDataView,
    pub right: DockDataView,
    pub bottom: DockDataView,
}

impl View for DockStructure {
    type V = DockStructureView;

    open spec fn view(&self) -> DockStructureView {
        DockStructureView { left: self.left@, right: self.right@, bottom: self.bottom@ }
    }
}

impl Default for DockStructure {
    fn default() -> (r: Self)
        ensures
            r@.left == (DockDataView { visible: false, active_panel: None, zoom: false }),
            r@.right == (DockDataView { visible: false, active_panel: None, zoom: false }),
            r@.bottom == (DockDataView { visible: false, active_panel: None, zoom: false }),
    {
        DockStructure {
            left: DockData::default(),
            right: DockData::default(),
            bottom: DockData::default(),
        }
    }
}

/// A window rectangle in device pixels.
#[derive(Debug, Clone, Copy, PartialEq, Eq, Structural)]
pub struct WindowBounds {
    pub origin_x: i32,
    pub origin_y: i32,
    pub width: i32,
    pub height: i32,
}

/// The full persisted description of one workspace window: its identifier,
/// its location key, the layout tree of its center area, its window
/// geometry, and its dock states. `display` holds the 128-bit identifier of
/// the display the window was on, when one was recorded.
#[derive(Debug)]
pub struct SerializedWorkspace {
    pub id: i64,
    pub location: WorkspaceLocation,
    pub center_group: SerializedPaneGroup,
    pub bounds: Option<WindowBounds>,
    pub fullscreen: bool,
    pub display: Option<u128>,
    pub docks: DockStructure,
}

} // verus!
