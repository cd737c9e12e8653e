//! What Rift reports of displays, workspaces and windows, the commands it takes,
//! and the events it sends.
use crate::geometry::Rect;
use crate::text::copy_optional;
use vstd::prelude::*;

verus! {

/// Identifies a window.
#[derive(Clone, Copy, Debug, PartialEq, Eq, Structural)]
pub struct WindowId {
    pub pid: i32,
    pub idx: u32,
}

/// A window as Rift reports it.
#[derive(Debug, PartialEq, Eq)]
pub struct WindowData {
    pub id: WindowId,
    pub window_server_id: Option<u32>,
    pub is_focused: bool,
    pub frame: Rect,
    pub bundle_id: Option<String>,
}

impl Clone for WindowData {
    fn clone(&self) -> (copy: Self)
        ensures
            copy == *self,
    {
        WindowData {
            id: self.id,
            window_server_id: self.window_server_id,
            is_focused: self.is_focused,
            frame: self.frame,
            bundle_id: copy_optional(&self.bundle_id),
        }
    }
}

/// A workspace as Rift reports it. The windows stand in membership order.
#[derive(Debug, PartialEq, Eq)]
pub struct WorkspaceData {
    pub index: usize,
    pub name: String,
    pub layout_mode: String,
    pub is_active: bool,
    pub windows: Vec<WindowData>,
}

/// A display as Rift reports it.
#[derive(Debug, PartialEq, Eq)]
pub struct DisplayData {
    pub uuid: String,
    pub name: Option<String>,
    pub frame: Rect,
    pub space: Option<u64>,
    pub is_active_context: bool,
    pub active_space_ids: Vec<u64>,
    pub inactive_space_ids: Vec<u64>,
}

/// A command to Rift.
#[derive(Debug, PartialEq, Eq)]
pub enum RiftCommand {
    /// Moves the mouse to the display.
    MoveMouseToDisplay { display_uuid: String },
    /// Focuses the window.
    FocusWindow { window_id: WindowId, window_server_id: Option<u32> },
    /// Moves the window with this index to the display.
    MoveWindowToDisplay { display_uuid: String, window_index: u32 },
    /// Activates the workspace with this index on the active display.
    SwitchToWorkspace { workspace_index: usize },
    /// Moves the window with this index to the workspace, and follows it if asked to.
    MoveWindowToWorkspace { workspace_index: usize, follow: bool, window_index: u32 },
}

/// The contents of a [`RiftCommand`].
pub enum CommandView {
    MoveMouseToDisplay { display_uuid: Seq<char> },
    FocusWindow { window_id: WindowId, window_server_id: Option<u32> },
    MoveWindowToDisplay { display_uuid: Seq<char>, window_index: u32 },
    SwitchToWorkspace { workspace_index: usize },
    MoveWindowToWorkspace { workspace_index: usize, follow: bool, window_index: u32 },
}

impl View for RiftCommand {
    type V = CommandView;

    open spec fn view(&self) -> CommandView {
        match *self {
            RiftCommand::MoveMouseToDisplay { display_uuid } => CommandView::MoveMouseToDisplay {
                display_uuid: display_uuid@,
            },
            RiftCommand::FocusWindow { window_id, window_server_id } => CommandView::FocusWindow {
                window_id,
                window_server_id,
            },
            RiftCommand::MoveWindowToDisplay { display_uuid, window_index } =>
                CommandView::MoveWindowToDisplay { display_uuid: display_uuid@, window_index },
            RiftCommand::SwitchToWorkspace { workspace_index } => CommandView::SwitchToWorkspace {
                workspace_index,
            },
            RiftCommand::MoveWindowToWorkspace { workspace_index, follow, window_index } =>
                CommandView::MoveWindowToWorkspace { workspace_index, follow, window_index },
        }
    }
}

impl Clone for RiftCommand {
    fn clone(&self) -> (copy: Self)
        ensures
            copy == *self,
    {
        match self {
            RiftCommand::MoveMouseToDisplay { display_uuid } => RiftCommand::MoveMouseToDisplay {
                display_uuid: display_uuid.clone(),
            },
            RiftCommand::FocusWindow { window_id, window_server_id } => RiftCommand::FocusWindow {
                window_id: *window_id,
                window_server_id: *window_server_id,
            },
            RiftCommand::MoveWindowToDisplay { display_uuid, window_index } =>
                RiftCommand::MoveWindowToDisplay {
                    display_uuid: display_uuid.clone(),
                    window_index: *window_index,
                },
            RiftCommand::SwitchToWorkspace { workspace_index } => RiftCommand::SwitchToWorkspace {
                workspace_index: *workspace_index,
            },
            RiftCommand::MoveWindowToWorkspace { workspace_index, follow, window_index } =>
                RiftCommand::MoveWindowToWorkspace {
                    workspace_index: *workspace_index,
                    follow: *follow,
                    window_index: *window_index,
                },
        }
    }
}

/// An event that Rift sends.
#[derive(Debug, PartialEq, Eq)]
pub enum RiftEvent {
    WorkspaceChanged { workspace_name: String, display_uuid: Option<String> },
    WindowsChanged { workspace_name: String, display_uuid: Option<String> },
    FocusedWindowChanged { workspace_name: String, display_uuid: Option<String> },
    WindowTitleChanged { display_uuid: Option<String> },
    StacksChanged { display_uuid: Option<String> },
}

/// The space that a display shows now: the first of its active spaces, else its own space.
pub open spec fn space_of(display: DisplayData) -> Option<u64> {
    if display.active_space_ids@.len() > 0 {
        Some(display.active_space_ids@[0])
    } else {
        display.space
    }
}

/// The macOS space that a display shows, if Rift manages it.
pub fn display_space(display: &DisplayData) -> (space: Option<u64>)
    ensures
        space == space_of(*display),
{
    if display.active_space_ids.len() > 0 {
        Some(display.active_space_ids[0])
    } else {
        display.space
    }
}

/// The first item of a sequence that the predicate accepts.
pub open spec fn first<T>(items: Seq<T>, accepts: spec_fn(T) -> bool) -> Option<T>
    decreases items.len(),
{
    if items.len() == 0 {
        None
    } else if accepts(items[0]) {
        Some(items[0])
    } else {
        first(items.skip(1), accepts)
    }
}

/// The search stops at the first item that is accepted.
pub proof fn lemma_first_found<T>(items: Seq<T>, accepts: spec_fn(T) -> bool, at: int)
    requires
        0 <= at < items.len(),
        accepts(items[at]),
        forall|i: int| 0 <= i < at ==> !accepts(#[trigger] items[i]),
    ensures
        first(items, accepts) == Some(items[at]),
    decreases at,
{
    if at > 0 {
        assert(!accepts(items[0]));
        assert forall|i: int| 0 <= i < at - 1 implies !accepts(#[trigger] items.skip(1)[i]) by {
            assert(items.skip(1)[i] == items[i + 1]);
        }
        lemma_first_found(items.skip(1), accepts, at - 1);
    }
}

/// The search finds nothing where no item is accepted.
pub proof fn lemma_first_absent<T>(items: Seq<T>, accepts: spec_fn(T) -> bool)
    requires
        forall|i: int| 0 <= i < items.len() ==> !accepts(#[trigger] items[i]),
    ensures
        first(items, accepts) is None,
    decreases items.len(),
{
    if items.len() > 0 {
        assert(!accepts(items[0]));
        assert forall|i: int| 0 <= i < items.skip(1).len() implies !accepts(
            #[trigger] items.skip(1)[i],
        ) by {
            assert(items.skip(1)[i] == items[i + 1]);
        }
        lemma_first_absent(items.skip(1), accepts);
    }
}

/// What the search finds is an item of the sequence that the predicate accepts.
pub proof fn lemma_first_accepted<T>(items: Seq<T>, accepts: spec_fn(T) -> bool)
    ensures
        first(items, accepts) matches Some(found) ==> accepts(found) && items.contains(found),
        first(items, accepts) is None ==> forall|i: int|
            0 <= i < items.len() ==> !accepts(#[trigger] items[i]),
    decreases items.len(),
{
    if items.len() > 0 {
        lemma_first_accepted(items.skip(1), accepts);
        if !accepts(items[0]) {
            match first(items, accepts) {
                Some(found) => {
                    let i = choose|i: int|
                        0 <= i < items.skip(1).len() && items.skip(1)[i] == found;
                    assert(items[i + 1] == found);
                },
                None => {
                    assert forall|i: int| 0 <= i < items.len() implies !accepts(
                        #[trigger] items[i],
                    ) by {
                        if i > 0 {
                            assert(items.skip(1)[i - 1] == items[i]);
                        }
                    }
                },
            }
        } else {
            assert(items.contains(items[0]));
        }
    }
}

/// Accepts the display with this identifier.
pub open spec fn has_uuid(uuid: Seq<char>) -> spec_fn(DisplayData) -> bool {
    |display: DisplayData| display.uuid@ == uuid
}

/// Accepts a display that has the keyboard.
pub open spec fn has_context() -> spec_fn(DisplayData) -> bool {
    |display: DisplayData| display.is_active_context
}

/// Accepts the workspace with this name.
pub open spec fn has_name(name: Seq<char>) -> spec_fn(WorkspaceData) -> bool {
    |workspace: WorkspaceData| workspace.name@ == name
}

/// Accepts an active workspace.
pub open spec fn is_active() -> spec_fn(WorkspaceData) -> bool {
    |workspace: WorkspaceData| workspace.is_active
}

/// Accepts a workspace with a window.
pub open spec fn is_occupied() -> spec_fn(WorkspaceData) -> bool {
    |workspace: WorkspaceData| workspace.windows@.len() > 0
}

/// Accepts a workspace that holds the window.
pub open spec fn holds(id: WindowId) -> spec_fn(WorkspaceData) -> bool {
    |workspace: WorkspaceData| has_window(workspace.windows@, id)
}

/// Accepts a focused window.
pub open spec fn is_focused() -> spec_fn(WindowData) -> bool {
    |window: WindowData| window.is_focused
}

/// Whether a window with this identifier is among the windows.
pub open spec fn has_window(windows: Seq<WindowData>, id: WindowId) -> bool {
    exists|i: int| 0 <= i < windows.len() && (#[trigger] windows[i]).id == id
}

/// The position of the display with this identifier.
pub fn find_display(displays: &Vec<DisplayData>, uuid: &str) -> (found: Option<usize>)
    ensures
        found matches Some(at) ==> at < displays.len() && displays@[at as int].uuid@ == uuid@
            && first(displays@, has_uuid(uuid@)) == Some(displays@[at as int]) && forall|i: int|
            0 <= i < at ==> (#[trigger] displays@[i]).uuid@ != uuid@,
        found is None ==> first(displays@, has_uuid(uuid@)) is None && forall|i: int|
            0 <= i < displays.len() ==> (#[trigger] displays@[i]).uuid@ != uuid@,
{
    let mut at: usize = 0;
    while at < displays.len()
        invariant
            at <= displays.len(),
            forall|i: int| 0 <= i < at ==> (#[trigger] displays@[i]).uuid@ != uuid@,
        decreases displays.len() - at,
    {
        if crate::text::same_text(&displays[at].uuid, uuid) {
            proof {
                lemma_first_found(displays@, has_uuid(uuid@), at as int);
            }
            return Some(at);
        }
        at = at + 1;
    }
    proof {
        lemma_first_absent(displays@, has_uuid(uuid@));
    }
    None
}

/// The first display that has the keyboard.
pub fn find_context(displays: &Vec<DisplayData>) -> (found: Option<&DisplayData>)
    ensures
        found matches Some(display) ==> first(displays@, has_context()) == Some(*display),
        found is None ==> first(displays@, has_context()) is None,
{
    let mut at: usize = 0;
    while at < displays.len()
        invariant
            at <= displays.len(),
            forall|i: int| 0 <= i < at ==> !(#[trigger] displays@[i]).is_active_context,
        decreases displays.len() - at,
    {
        if displays[at].is_active_context {
            proof {
                lemma_first_found(displays@, has_context(), at as int);
            }
            return Some(&displays[at]);
        }
        at = at + 1;
    }
    proof {
        lemma_first_absent(displays@, has_context());
    }
    None
}

/// The first workspace with this name.
pub fn find_workspace<'a>(workspaces: &'a Vec<WorkspaceData>, name: &str) -> (found: Option<
    &'a WorkspaceData,
>)
    ensures
        found matches Some(workspace) ==> first(workspaces@, has_name(name@)) == Some(*workspace),
        found is None ==> first(workspaces@, has_name(name@)) is None,
{
    let mut at: usize = 0;
    while at < workspaces.len()
        invariant
            at <= workspaces.len(),
            forall|i: int| 0 <= i < at ==> (#[trigger] workspaces@[i]).name@ != name@,
        decreases workspaces.len() - at,
    {
        if crate::text::same_text(&workspaces[at].name, name) {
            proof {
                lemma_first_found(workspaces@, has_name(name@), at as int);
            }
            return Some(&workspaces[at]);
        }
        at = at + 1;
    }
    proof {
        lemma_first_absent(workspaces@, has_name(name@));
    }
    None
}

/// The first active workspace.
pub fn find_active(workspaces: &Vec<WorkspaceData>) -> (found: Option<&WorkspaceData>)
    ensures
        found matches Some(workspace) ==> first(workspaces@, is_active()) == Some(*workspace),
        found is None ==> first(workspaces@, is_active()) is None,
{
    let mut at: usize = 0;
    while at < workspaces.len()
        invariant
            at <= workspaces.len(),
            forall|i: int| 0 <= i < at ==> !(#[trigger] workspaces@[i]).is_active,
        decreases workspaces.len() - at,
    {
        if workspaces[at].is_active {
            proof {
                lemma_first_found(workspaces@, is_active(), at as int);
            }
            return Some(&workspaces[at]);
        }
        at = at + 1;
    }
    proof {
        lemma_first_absent(workspaces@, is_active());
    }
    None
}

/// The first workspace with a window.
pub fn find_occupied(workspaces: &Vec<WorkspaceData>) -> (found: Option<&WorkspaceData>)
    ensures
        found matches Some(workspace) ==> first(workspaces@, is_occupied()) == Some(*workspace),
        found is None ==> first(workspaces@, is_occupied()) is None,
{
    let mut at: usize = 0;
    while at < workspaces.len()
        invariant
            at <= workspaces.len(),
            forall|i: int| 0 <= i < at ==> (#[trigger] workspaces@[i]).windows@.len() == 0,
        decreases workspaces.len() - at,
    {
        if workspaces[at].windows.len() > 0 {
            proof {
                lemma_first_found(workspaces@, is_occupied(), at as int);
            }
            return Some(&workspaces[at]);
        }
        at = at + 1;
    }
    proof {
        lemma_first_absent(workspaces@, is_occupied());
    }
    None
}

/// The first workspace that holds the window.
pub fn find_holder(workspaces: &Vec<WorkspaceData>, id: WindowId) -> (found: Option<&WorkspaceData>)
    ensures
        found matches Some(workspace) ==> first(workspaces@, holds(id)) == Some(*workspace),
        found is None ==> first(workspaces@, holds(id)) is None,
{
    let mut at: usize = 0;
    while at < workspaces.len()
        invariant
            at <= workspaces.len(),
            forall|i: int| 0 <= i < at ==> !has_window((#[trigger] workspaces@[i]).windows@, id),
        decreases workspaces.len() - at,
    {
        if contains_window(&workspaces[at].windows, id) {
            proof {
                lemma_first_found(workspaces@, holds(id), at as int);
            }
            return Some(&workspaces[at]);
        }
        at = at + 1;
    }
    proof {
        lemma_first_absent(workspaces@, holds(id));
    }
    None
}

/// The first focused window.
pub fn find_focused(windows: &Vec<WindowData>) -> (found: Option<&WindowData>)
    ensures
        found matches Some(window) ==> first(windows@, is_focused()) == Some(*window),
        found is None ==> first(windows@, is_focused()) is None,
{
    let mut at: usize = 0;
    while at < windows.len()
        invariant
            at <= windows.len(),
            forall|i: int| 0 <= i < at ==> !(#[trigger] windows@[i]).is_focused,
        decreases windows.len() - at,
    {
        if windows[at].is_focused {
            proof {
                lemma_first_found(windows@, is_focused(), at as int);
            }
            return Some(&windows[at]);
        }
        at = at + 1;
    }
    proof {
        lemma_first_absent(windows@, is_focused());
    }
    None
}

/// Whether a window with this identifier is among the windows.
pub fn contains_window(windows: &Vec<WindowData>, id: WindowId) -> (contains: bool)
    ensures
        contains == has_window(windows@, id),
{
    let mut at: usize = 0;
    while at < windows.len()
        invariant
            at <= windows.len(),
            forall|i: int| 0 <= i < at ==> (#[trigger] windows@[i]).id != id,
        decreases windows.len() - at,
    {
        if windows[at].id == id {
            return true;
        }
        at = at + 1;
    }
    false
}

/// The identifiers of windows.
pub open spec fn ids_of(windows: Seq<WindowData>) -> Seq<WindowId> {
    Seq::new(windows.len(), |i: int| windows[i].id)
}

/// The identifiers of windows.
pub fn collect_ids(windows: &Vec<WindowData>) -> (ids: Vec<WindowId>)
    ensures
        ids@ == ids_of(windows@),
{
    let mut ids: Vec<WindowId> = Vec::new();
    let mut at: usize = 0;
    while at < windows.len()
        invariant
            at <= windows.len(),
            ids@ == ids_of(windows@.take(at as int)),
        decreases windows.len() - at,
    {
        ids.push(windows[at].id);
        at = at + 1;
        assert(ids@ =~= ids_of(windows@.take(at as int)));
    }
    assert(windows@.take(at as int) =~= windows@);
    ids
}

/// Whether an identifier is among these.
pub fn contains_id(ids: &Vec<WindowId>, id: WindowId) -> (contains: bool)
    ensures
        contains == ids@.contains(id),
{
    let mut at: usize = 0;
    while at < ids.len()
        invariant
            at <= ids.len(),
            forall|i: int| 0 <= i < at ==> #[trigger] ids@[i] != id,
        decreases ids.len() - at,
    {
        if ids[at] == id {
            return true;
        }
        at = at + 1;
    }
    false
}

/// Filtering one item more.
pub proof fn lemma_filter_next<T>(items: Seq<T>, kept: spec_fn(T) -> bool, at: int)
    requires
        0 <= at < items.len(),
    ensures
        items.take(at + 1).filter(kept) == (if kept(items[at]) {
            items.take(at).filter(kept).push(items[at])
        } else {
            items.take(at).filter(kept)
        }),
{
    reveal(Seq::filter);
    assert(items.take(at + 1).drop_last() =~= items.take(at));
    assert(items.take(at + 1).last() == items[at]);
}

/// Accepts the windows with one of these identifiers.
pub open spec fn is_one_of(ids: Seq<WindowId>) -> spec_fn(WindowData) -> bool {
    |window: WindowData| ids.contains(window.id)
}

/// Those of the windows that have one of these identifiers, in order.
pub fn select_windows(windows: &Vec<WindowData>, ids: &Vec<WindowId>) -> (selected: Vec<WindowData>)
    ensures
        selected@ == windows@.filter(is_one_of(ids@)),
{
    let ghost kept = is_one_of(ids@);
    let mut selected: Vec<WindowData> = Vec::new();
    let mut at: usize = 0;
    #[verifier::loop_isolation(false)]
    while at < windows.len()
        invariant
            at <= windows.len(),
            selected@ == windows@.take(at as int).filter(kept),
        decreases windows.len() - at,
    {
        let window = &windows[at];
        proof {
            lemma_filter_next(windows@, kept, at as int);
        }
        if contains_id(ids, window.id) {
            selected.push(window.clone());
        }
        at = at + 1;
    }
    assert(windows@.take(at as int) =~= windows@);
    selected
}

} // verus!
