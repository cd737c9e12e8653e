//! Queries of Rift's state and the construction of commands.
use crate::dialogue;
use crate::dialogue::{refused, Ask, AskView, Program, Reply, Request, RequestView, Rift, Stop, StopView};
use crate::error;
use crate::error::{state_error, ErgoError, ErrorKind, ErrorView};
use crate::geometry;
use crate::geometry::{frame_matches_display, frame_validation, FrameValidation};
use crate::model;
use crate::model::{CommandView, DisplayData, RiftCommand, WindowData, WindowId, WorkspaceData};
use crate::text::{join2, same_text};
use vstd::prelude::*;

verus! {

broadcast use dialogue::group_run;

/// Where a window is.
#[derive(Debug, PartialEq, Eq)]
pub struct WindowLocation {
    pub display_uuid: String,
    pub workspace_name: String,
    pub is_focused: bool,
}

/// The contents of a [`WindowLocation`].
pub struct LocationView {
    pub display_uuid: Seq<char>,
    pub workspace_name: Seq<char>,
    pub is_focused: bool,
}

impl View for WindowLocation {
    type V = LocationView;

    open spec fn view(&self) -> LocationView {
        LocationView {
            display_uuid: self.display_uuid@,
            workspace_name: self.workspace_name@,
            is_focused: self.is_focused,
        }
    }
}

impl Clone for WindowLocation {
    fn clone(&self) -> (copy: Self)
        ensures
            copy == *self,
    {
        WindowLocation {
            display_uuid: self.display_uuid.clone(),
            workspace_name: self.workspace_name.clone(),
            is_focused: self.is_focused,
        }
    }
}

/// The focused window and where it is.
pub struct FocusedWindow<'a> {
    pub window: &'a WindowData,
    pub location: WindowLocation,
}

/// The contents of a [`FocusedWindow`].
pub struct FocusedWindowView {
    pub window: WindowData,
    pub location: LocationView,
}

impl View for FocusedWindow<'_> {
    type V = FocusedWindowView;

    open spec fn view(&self) -> FocusedWindowView {
        FocusedWindowView { window: *self.window, location: self.location@ }
    }
}

/// The workspace with the focused window, and the display that shows it.
pub struct FocusedWorkspace<'a> {
    pub display_uuid: String,
    pub workspace: &'a WorkspaceData,
    pub focused_window: &'a WindowData,
}

/// The contents of a [`FocusedWorkspace`].
pub struct FocusedWorkspaceView {
    pub display_uuid: Seq<char>,
    pub workspace: WorkspaceData,
    pub focused_window: WindowData,
}

impl View for FocusedWorkspace<'_> {
    type V = FocusedWorkspaceView;

    open spec fn view(&self) -> FocusedWorkspaceView {
        FocusedWorkspaceView {
            display_uuid: self.display_uuid@,
            workspace: *self.workspace,
            focused_window: *self.focused_window,
        }
    }
}

/// A workspace on a display, as the destination of a command.
#[derive(Debug, PartialEq, Eq)]
pub struct TargetContext {
    pub display_uuid: String,
    pub space: u64,
    pub workspace_index: usize,
    pub display_is_active: bool,
    pub workspace_is_active: bool,
    /// A window of the display's active workspace: its focused one, else its first.
    pub focus_anchor: Option<WindowData>,
    pub frame_validation: FrameValidation,
}

/// The contents of a [`TargetContext`].
pub struct TargetView {
    pub display_uuid: Seq<char>,
    pub space: u64,
    pub workspace_index: usize,
    pub display_is_active: bool,
    pub workspace_is_active: bool,
    pub focus_anchor: Option<WindowData>,
    pub frame_validation: FrameValidation,
}

impl View for TargetContext {
    type V = TargetView;

    open spec fn view(&self) -> TargetView {
        TargetView {
            display_uuid: self.display_uuid@,
            space: self.space,
            workspace_index: self.workspace_index,
            display_is_active: self.display_is_active,
            workspace_is_active: self.workspace_is_active,
            focus_anchor: self.focus_anchor,
            frame_validation: self.frame_validation,
        }
    }
}

impl Clone for TargetContext {
    fn clone(&self) -> (copy: Self)
        ensures
            copy == *self,
    {
        TargetContext {
            display_uuid: self.display_uuid.clone(),
            space: self.space,
            workspace_index: self.workspace_index,
            display_is_active: self.display_is_active,
            workspace_is_active: self.workspace_is_active,
            focus_anchor: match &self.focus_anchor {
                Some(window) => Some(window.clone()),
                None => None,
            },
            frame_validation: self.frame_validation,
        }
    }
}

// ---------------------------------------------------------------------------
// The queries as programs.
// ---------------------------------------------------------------------------

/// Asks the outside and goes on with the reply.
pub open spec fn outside<A>(ask: AskView, resume: spec_fn(Reply) -> Program<A>) -> Program<A> {
    Program::Ask(RequestView::Outside(ask), resume)
}

/// Asks for something to be done.
pub open spec fn effect(ask: AskView) -> Program<()> {
    outside(
        ask,
        |reply: Reply|
            match reply {
                Reply::Done => Program::Return(()),
                _ => Program::Fail(dialogue::refusal(reply)),
            },
    )
}

/// Connects to Rift; its service has to answer.
pub open spec fn connect() -> Program<()> {
    outside(
        AskView::Connect,
        |reply: Reply|
            match reply {
                Reply::Connected { available } => if available {
                    Program::Return(())
                } else {
                    Program::Fail(
                        ErrorView {
                            kind: ErrorKind::NotConnected,
                            message: "Rift's Mach service is unavailable"@,
                        },
                    )
                },
                _ => Program::Fail(dialogue::refusal(reply)),
            },
    )
}

/// The displays.
pub open spec fn displays() -> Program<Seq<DisplayData>> {
    outside(
        AskView::Displays,
        |reply: Reply|
            match reply {
                Reply::Displays(displays) => Program::Return(displays@),
                _ => Program::Fail(dialogue::refusal(reply)),
            },
    )
}

/// The workspaces of a space.
pub open spec fn workspaces(space: u64) -> Program<Seq<WorkspaceData>> {
    outside(
        AskView::Workspaces { space },
        |reply: Reply|
            match reply {
                Reply::Workspaces(workspaces) => Program::Return(workspaces@),
                _ => Program::Fail(dialogue::refusal(reply)),
            },
    )
}

/// The windows of a space.
pub open spec fn windows(space: u64) -> Program<Seq<WindowData>> {
    outside(
        AskView::Windows { space },
        |reply: Reply|
            match reply {
                Reply::Windows(windows) => Program::Return(windows@),
                _ => Program::Fail(dialogue::refusal(reply)),
            },
    )
}

/// One window as it is now.
pub open spec fn window_info(window_id: WindowId) -> Program<WindowData> {
    outside(
        AskView::WindowInfo { window_id },
        |reply: Reply|
            match reply {
                Reply::WindowInfo(window) => Program::Return(window),
                _ => Program::Fail(dialogue::refusal(reply)),
            },
    )
}

/// The clock.
pub open spec fn now() -> Program<u64> {
    outside(
        AskView::Now,
        |reply: Reply|
            match reply {
                Reply::Now(nanos) => Program::Return(nanos),
                _ => Program::Fail(dialogue::refusal(reply)),
            },
    )
}

/// The window by which a display can be focused: the focused window of its active workspace,
/// else the first one there.
pub open spec fn anchor_of(workspaces: Seq<WorkspaceData>) -> Option<WindowData> {
    match model::first(workspaces, model::is_active()) {
        None => None,
        Some(workspace) => match model::first(workspace.windows@, model::is_focused()) {
            Some(window) => Some(window),
            None => if workspace.windows@.len() > 0 {
                Some(workspace.windows@[0])
            } else {
                None
            },
        },
    }
}

/// The space that the display with this identifier shows.
pub open spec fn shown_space(displays: Seq<DisplayData>, display_uuid: Seq<char>) -> Result<
    (DisplayData, u64),
    ErrorView,
> {
    match model::first(displays, model::has_uuid(display_uuid)) {
        None => Err(error::state_failure("target display disappeared"@)),
        Some(display) => match model::space_of(display) {
            None => Err(error::state_failure("target display has no active macOS space"@)),
            Some(space) => Ok((display, space)),
        },
    }
}

/// The workspace with this name among those of a display's space, as a destination.
pub open spec fn target_among(
    workspace_name: Seq<char>,
    display: DisplayData,
    space: u64,
    displays: Seq<DisplayData>,
    workspaces: Seq<WorkspaceData>,
) -> Result<TargetView, ErrorView> {
    match model::first(workspaces, model::has_name(workspace_name)) {
        None => Err(error::state_failure("unknown workspace: "@ + workspace_name)),
        Some(workspace) => Ok(
            TargetView {
                display_uuid: display.uuid@,
                space,
                workspace_index: workspace.index,
                display_is_active: display.is_active_context,
                workspace_is_active: workspace.is_active,
                focus_anchor: anchor_of(workspaces),
                frame_validation: geometry::validation(display, displays, workspace.layout_mode@),
            },
        ),
    }
}

/// The named workspace on a display, as a destination.
pub open spec fn target_context(
    workspace_name: Seq<char>,
    display_uuid: Seq<char>,
    displays: Seq<DisplayData>,
) -> Program<TargetView> {
    dialogue::bind(
        dialogue::decided(shown_space(displays, display_uuid)),
        |shown: (DisplayData, u64)|
            dialogue::bind(
                workspaces(shown.1),
                |workspaces: Seq<WorkspaceData>|
                    dialogue::decided(
                        target_among(workspace_name, shown.0, shown.1, displays, workspaces),
                    ),
            ),
    )
}

/// The active workspace on a display, as a destination, with its name.
pub open spec fn active_target_context(
    display_uuid: Seq<char>,
    displays: Seq<DisplayData>,
) -> Program<(Seq<char>, TargetView)> {
    dialogue::bind(
        dialogue::decided(shown_space(displays, display_uuid)),
        |shown: (DisplayData, u64)|
            dialogue::bind(
                workspaces(shown.1),
                |workspaces: Seq<WorkspaceData>|
                    match model::first(workspaces, model::is_active()) {
                        None => Program::Fail(
                            error::state_failure("target display has no active Rift workspace"@),
                        ),
                        Some(workspace) => dialogue::bind(
                            target_context(workspace.name@, display_uuid, displays),
                            |target: TargetView| Program::Return((workspace.name@, target)),
                        ),
                    },
            ),
    )
}

/// The named workspace of a destination's space as it is now.
pub open spec fn workspace_at(target: TargetView, workspace_name: Seq<char>) -> Program<
    WorkspaceData,
> {
    dialogue::bind(
        workspaces(target.space),
        |workspaces: Seq<WorkspaceData>|
            match model::first(workspaces, model::has_name(workspace_name)) {
                None => Program::Fail(
                    error::state_failure("unknown workspace: "@ + workspace_name),
                ),
                Some(workspace) => Program::Return(workspace),
            },
    )
}

/// The focused workspace among the displays from this one on: the first display that shows a
/// focused window in one of its workspaces decides.
pub open spec fn focused_workspace_from(displays: Seq<DisplayData>, at: int) -> Program<
    FocusedWorkspaceView,
>
    decreases displays.len() - at,
{
    if at < 0 || at >= displays.len() {
        Program::Fail(error::state_failure("no focused Rift-managed window"@))
    } else {
        match model::space_of(displays[at]) {
            None => focused_workspace_from(displays, at + 1),
            Some(space) => dialogue::bind(
                windows(space),
                |windows: Seq<WindowData>|
                    match model::first(windows, model::is_focused()) {
                        None => focused_workspace_from(displays, at + 1),
                        Some(window) => dialogue::bind(
                            workspaces(space),
                            |workspaces: Seq<WorkspaceData>|
                                match model::first(workspaces, model::holds(window.id)) {
                                    None => focused_workspace_from(displays, at + 1),
                                    Some(workspace) => Program::Return(
                                        FocusedWorkspaceView {
                                            display_uuid: displays[at].uuid@,
                                            workspace,
                                            focused_window: window,
                                        },
                                    ),
                                },
                        ),
                    },
            ),
        }
    }
}

/// The workspace with the focused window.
pub open spec fn focused_workspace(displays: Seq<DisplayData>) -> Program<FocusedWorkspaceView> {
    focused_workspace_from(displays, 0)
}

/// The focused window and where it is.
pub open spec fn focused_window(displays: Seq<DisplayData>) -> Program<FocusedWindowView> {
    dialogue::bind(
        focused_workspace(displays),
        |focused: FocusedWorkspaceView|
            Program::Return(
                FocusedWindowView {
                    window: focused.focused_window,
                    location: LocationView {
                        display_uuid: focused.display_uuid,
                        workspace_name: focused.workspace.name@,
                        is_focused: true,
                    },
                },
            ),
    )
}

/// Whether the display with this identifier has the keyboard.
pub open spec fn some_context(displays: Seq<DisplayData>, display_uuid: Seq<char>) -> bool {
    exists|i: int|
        0 <= i < displays.len() && (#[trigger] displays[i]).uuid@ == display_uuid
            && displays[i].is_active_context
}

/// Whether a display has the keyboard now.
pub open spec fn display_is_active(display_uuid: Seq<char>) -> Program<bool> {
    dialogue::bind(
        displays(),
        |displays: Seq<DisplayData>| Program::Return(some_context(displays, display_uuid)),
    )
}

/// Whether a workspace with this name is active.
pub open spec fn some_active(workspaces: Seq<WorkspaceData>, workspace_name: Seq<char>) -> bool {
    exists|i: int|
        0 <= i < workspaces.len() && (#[trigger] workspaces[i]).name@ == workspace_name
            && workspaces[i].is_active
}

/// Whether the named workspace is active on a destination now.
pub open spec fn workspace_is_active(target: TargetView, workspace_name: Seq<char>) -> Program<
    bool,
> {
    dialogue::bind(
        workspaces(target.space),
        |workspaces: Seq<WorkspaceData>| Program::Return(some_active(workspaces, workspace_name)),
    )
}

/// Where a window is on a destination's space, if it is there.
pub open spec fn window_location(target: TargetView, window_id: WindowId) -> Program<
    Option<LocationView>,
> {
    dialogue::bind(
        workspaces(target.space),
        |workspaces: Seq<WorkspaceData>|
            match model::first(workspaces, model::holds(window_id)) {
                None => Program::Return(None),
                Some(workspace) => dialogue::bind(
                    window_info(window_id),
                    |window: WindowData|
                        Program::Return(
                            Some(
                                LocationView {
                                    display_uuid: target.display_uuid,
                                    workspace_name: workspace.name@,
                                    is_focused: window.is_focused,
                                },
                            ),
                        ),
                ),
            },
    )
}

/// Whether a window is in the named workspace of a destination's space.
pub open spec fn window_is_at(
    target: TargetView,
    workspace_name: Seq<char>,
    window_id: WindowId,
) -> Program<bool> {
    dialogue::bind(
        window_location(target, window_id),
        |location: Option<LocationView>|
            Program::Return(location is Some && location->0.workspace_name == workspace_name),
    )
}

/// Whether a window is in some workspace of a destination's space, and its frame on the
/// destination's display.
pub open spec fn window_is_on_display(target: TargetView, window_id: WindowId) -> Program<bool> {
    dialogue::bind(
        window_location(target, window_id),
        |location: Option<LocationView>|
            if location is None {
                Program::Return(false)
            } else {
                dialogue::bind(
                    window_info(window_id),
                    |window: WindowData|
                        Program::Return(
                            geometry::frame_matches(window.frame, target.frame_validation),
                        ),
                )
            },
    )
}

/// Whether a window is in the named workspace of a destination's space, and focused.
pub open spec fn window_is_focused_at(
    target: TargetView,
    workspace_name: Seq<char>,
    window_id: WindowId,
) -> Program<bool> {
    dialogue::bind(
        window_is_at(target, workspace_name, window_id),
        |there: bool|
            if there {
                dialogue::bind(
                    window_info(window_id),
                    |window: WindowData| Program::Return(window.is_focused),
                )
            } else {
                Program::Return(false)
            },
    )
}

/// Whether a window that is to be among `members` is there, and its frame on the destination's
/// display. A window that is not a member is not asked for.
pub open spec fn window_is_placed(
    target: TargetView,
    members: Seq<WindowData>,
    window_id: WindowId,
) -> Program<bool> {
    if model::has_window(members, window_id) {
        dialogue::bind(
            window_info(window_id),
            |window: WindowData|
                Program::Return(geometry::frame_matches(window.frame, target.frame_validation)),
        )
    } else {
        Program::Return(false)
    }
}

/// Whether the windows from this one on are placed among `members`; the first that is not
/// ends the search.
pub open spec fn windows_are_placed_from(
    target: TargetView,
    members: Seq<WindowData>,
    window_ids: Seq<WindowId>,
    at: int,
) -> Program<bool>
    decreases window_ids.len() - at,
{
    if at < 0 || at >= window_ids.len() {
        Program::Return(true)
    } else {
        dialogue::bind(
            window_is_placed(target, members, window_ids[at]),
            |placed: bool|
                if placed {
                    windows_are_placed_from(target, members, window_ids, at + 1)
                } else {
                    Program::Return(false)
                },
        )
    }
}

/// Whether the windows are all in the named workspace and on the display of a destination.
pub open spec fn windows_are_at(
    target: TargetView,
    workspace_name: Seq<char>,
    window_ids: Seq<WindowId>,
) -> Program<bool> {
    dialogue::bind(
        workspaces(target.space),
        |workspaces: Seq<WorkspaceData>|
            match model::first(workspaces, model::has_name(workspace_name)) {
                None => Program::Return(false),
                Some(workspace) => windows_are_placed_from(
                    target,
                    workspace.windows@,
                    window_ids,
                    0,
                ),
            },
    )
}

/// Those of the windows from this one on that are not placed among `members`, in order and
/// after the ones already found.
pub open spec fn windows_missing_from(
    target: TargetView,
    members: Seq<WindowData>,
    window_ids: Seq<WindowId>,
    at: int,
    missing: Seq<WindowId>,
) -> Program<Seq<WindowId>>
    decreases window_ids.len() - at,
{
    if at < 0 || at >= window_ids.len() {
        Program::Return(missing)
    } else {
        dialogue::bind(
            window_is_placed(target, members, window_ids[at]),
            |placed: bool|
                windows_missing_from(
                    target,
                    members,
                    window_ids,
                    at + 1,
                    if placed {
                        missing
                    } else {
                        missing.push(window_ids[at])
                    },
                ),
        )
    }
}

/// The windows of the named workspace, none where there is no such workspace.
pub open spec fn members_of(workspaces: Seq<WorkspaceData>, workspace_name: Seq<char>) -> Seq<
    WindowData,
> {
    match model::first(workspaces, model::has_name(workspace_name)) {
        None => Seq::empty(),
        Some(workspace) => workspace.windows@,
    }
}

/// Those of the windows that are not in the named workspace or not on the display of a
/// destination, in order.
pub open spec fn windows_missing_from_workspace(
    target: TargetView,
    workspace_name: Seq<char>,
    window_ids: Seq<WindowId>,
) -> Program<Seq<WindowId>> {
    dialogue::bind(
        workspaces(target.space),
        |workspaces: Seq<WorkspaceData>|
            windows_missing_from(
                target,
                members_of(workspaces, workspace_name),
                window_ids,
                0,
                Seq::empty(),
            ),
    )
}

// ---------------------------------------------------------------------------
// The commands.
// ---------------------------------------------------------------------------

/// Focuses a destination's display: by its anchor where it has one, else with the mouse.
pub open spec fn focus_destination(target: TargetView) -> CommandView {
    match target.focus_anchor {
        None => CommandView::MoveMouseToDisplay { display_uuid: target.display_uuid },
        Some(anchor) => focus_of(anchor),
    }
}

/// Focuses a window.
pub open spec fn focus_of(window: WindowData) -> CommandView {
    CommandView::FocusWindow { window_id: window.id, window_server_id: window.window_server_id }
}

/// Activates a destination's workspace.
pub open spec fn activation_of(target: TargetView) -> CommandView {
    CommandView::SwitchToWorkspace { workspace_index: target.workspace_index }
}

/// Moves a window to a destination's display.
pub open spec fn transfer_of(target: TargetView, window: WindowData) -> CommandView {
    CommandView::MoveWindowToDisplay {
        display_uuid: target.display_uuid,
        window_index: window.id.idx,
    }
}

/// Moves a window to a destination's workspace.
pub open spec fn placement_of(target: TargetView, window: WindowData, follow: bool) -> CommandView {
    CommandView::MoveWindowToWorkspace {
        workspace_index: target.workspace_index,
        follow,
        window_index: window.id.idx,
    }
}

/// The commands that move windows to a destination's workspace.
pub open spec fn placements_of(target: TargetView, windows: Seq<WindowData>) -> Seq<CommandView> {
    Seq::new(windows.len(), |i: int| placement_of(target, windows[i], false))
}

// ---------------------------------------------------------------------------
// The executable queries and commands.
// ---------------------------------------------------------------------------

/// The contents of a location that was looked for.
pub open spec fn seen_location(result: Result<Option<WindowLocation>, Stop>) -> Result<
    Option<LocationView>,
    StopView,
> {
    match result {
        Ok(Some(location)) => Ok(Some(location@)),
        Ok(None) => Ok(None),
        Err(stop) => Err(stop@),
    }
}

/// The contents of a named destination.
pub open spec fn seen_named(result: Result<(String, TargetContext), Stop>) -> Result<
    (Seq<char>, TargetView),
    StopView,
> {
    match result {
        Ok((name, target)) => Ok((name@, target@)),
        Err(stop) => Err(stop@),
    }
}

impl<'a> Rift<'a> {
    /// Asks for something to be done.
    pub fn perform(&mut self, ask: Ask) -> (done: Result<(), Stop>)
        ensures
            dialogue::follows(
                effect(ask@),
                old(self).rest(),
                final(self).rest(),
                dialogue::seen(done),
            ),
    {
        let reply = self.ask(Request::Outside(ask))?;
        match reply {
            Reply::Done => Ok(()),
            _ => Err(refused(reply)),
        }
    }

    /// Connects to Rift; its service has to answer.
    pub fn connect(&mut self) -> (connected: Result<(), Stop>)
        ensures
            dialogue::follows(
                connect(),
                old(self).rest(),
                final(self).rest(),
                dialogue::seen(connected),
            ),
    {
        let reply = self.ask(Request::Outside(Ask::Connect))?;
        match reply {
            Reply::Connected { available } => if *available {
                Ok(())
            } else {
                Err(
                    Stop::Failed(
                        ErgoError {
                            kind: ErrorKind::NotConnected,
                            message: "Rift's Mach service is unavailable".to_owned(),
                        },
                    ),
                )
            },
            _ => Err(refused(reply)),
        }
    }

    /// The displays.
    pub fn displays(&mut self) -> (reported: Result<&'a Vec<DisplayData>, Stop>)
        ensures
            dialogue::follows(
                displays(),
                old(self).rest(),
                final(self).rest(),
                dialogue::seen(reported),
            ),
    {
        let reply = self.ask(Request::Outside(Ask::Displays))?;
        match reply {
            Reply::Displays(displays) => Ok(displays),
            _ => Err(refused(reply)),
        }
    }

    /// The workspaces of a space.
    pub fn workspaces(&mut self, space: u64) -> (reported: Result<&'a Vec<WorkspaceData>, Stop>)
        ensures
            dialogue::follows(
                workspaces(space),
                old(self).rest(),
                final(self).rest(),
                dialogue::seen(reported),
            ),
    {
        let reply = self.ask(Request::Outside(Ask::Workspaces { space }))?;
        match reply {
            Reply::Workspaces(workspaces) => Ok(workspaces),
            _ => Err(refused(reply)),
        }
    }

    /// The windows of a space.
    pub fn windows(&mut self, space: u64) -> (reported: Result<&'a Vec<WindowData>, Stop>)
        ensures
            dialogue::follows(
                windows(space),
                old(self).rest(),
                final(self).rest(),
                dialogue::seen(reported),
            ),
    {
        let reply = self.ask(Request::Outside(Ask::Windows { space }))?;
        match reply {
            Reply::Windows(windows) => Ok(windows),
            _ => Err(refused(reply)),
        }
    }

    /// One window as it is now.
    pub fn window_info(&mut self, window_id: WindowId) -> (window: Result<&'a WindowData, Stop>)
        ensures
            dialogue::follows(
                window_info(window_id),
                old(self).rest(),
                final(self).rest(),
                dialogue::seen_as_is(window),
            ),
    {
        let reply = self.ask(Request::Outside(Ask::WindowInfo { window_id }))?;
        match reply {
            Reply::WindowInfo(window) => Ok(window),
            _ => Err(refused(reply)),
        }
    }

    /// The clock, in nanoseconds since a fixed moment.
    pub fn now(&mut self) -> (nanos: Result<u64, Stop>)
        ensures
            dialogue::follows(now(), old(self).rest(), final(self).rest(), dialogue::seen(nanos)),
    {
        let reply = self.ask(Request::Outside(Ask::Now))?;
        match reply {
            Reply::Now(nanos) => Ok(*nanos),
            _ => Err(refused(reply)),
        }
    }

    /// Subscribes to Rift's events.
    pub fn subscribe(&mut self) -> (done: Result<(), Stop>)
        ensures
            dialogue::follows(
                effect(AskView::Subscribe),
                old(self).rest(),
                final(self).rest(),
                dialogue::seen(done),
            ),
    {
        self.perform(Ask::Subscribe)
    }

    /// Has Rift execute a command.
    pub fn execute(&mut self, command: RiftCommand) -> (done: Result<(), Stop>)
        ensures
            dialogue::follows(
                effect(AskView::Execute { command: command@ }),
                old(self).rest(),
                final(self).rest(),
                dialogue::seen(done),
            ),
    {
        self.perform(Ask::Execute { command })
    }

    /// The named workspace on a display, as a destination.
    pub fn target_context(
        &mut self,
        workspace_name: &str,
        display_uuid: String,
        displays: &Vec<DisplayData>,
    ) -> (target: Result<TargetContext, Stop>)
        ensures
            dialogue::follows(
                target_context(workspace_name@, display_uuid@, displays@),
                old(self).rest(),
                final(self).rest(),
                dialogue::seen(target),
            ),
    {
        let (display, space) = match find_shown(displays, &display_uuid) {
            Ok(shown) => shown,
            Err(error) => {
                return Err(Stop::Failed(error));
            },
        };
        let workspaces = self.workspaces(space)?;
        let workspace = match model::find_workspace(workspaces, workspace_name) {
            Some(workspace) => workspace,
            None => {
                return Err(
                    Stop::Failed(state_error(join2("unknown workspace: ", workspace_name))),
                );
            },
        };
        Ok(
            TargetContext {
                display_uuid,
                space,
                workspace_index: workspace.index,
                display_is_active: display.is_active_context,
                workspace_is_active: workspace.is_active,
                focus_anchor: find_anchor(workspaces),
                frame_validation: frame_validation(display, displays, &workspace.layout_mode),
            },
        )
    }

    /// The active workspace on a display, as a destination, with its name.
    pub fn active_target_context(
        &mut self,
        display_uuid: String,
        displays: &Vec<DisplayData>,
    ) -> (named: Result<(String, TargetContext), Stop>)
        ensures
            dialogue::follows(
                active_target_context(display_uuid@, displays@),
                old(self).rest(),
                final(self).rest(),
                seen_named(named),
            ),
    {
        let (_, space) = match find_shown(displays, &display_uuid) {
            Ok(shown) => shown,
            Err(error) => {
                return Err(Stop::Failed(error));
            },
        };
        let workspaces = self.workspaces(space)?;
        let workspace_name = match model::find_active(workspaces) {
            Some(workspace) => workspace.name.clone(),
            None => {
                return Err(
                    Stop::Failed(
                        state_error("target display has no active Rift workspace".to_owned()),
                    ),
                );
            },
        };
        let target = self.target_context(&workspace_name, display_uuid, displays)?;
        Ok((workspace_name, target))
    }

    /// The named workspace of a destination's space as it is now.
    pub fn workspace_at(&mut self, target: &TargetContext, workspace_name: &str) -> (workspace:
        Result<&'a WorkspaceData, Stop>)
        ensures
            dialogue::follows(
                workspace_at(target@, workspace_name@),
                old(self).rest(),
                final(self).rest(),
                dialogue::seen_as_is(workspace),
            ),
    {
        let workspaces = self.workspaces(target.space)?;
        match model::find_workspace(workspaces, workspace_name) {
            Some(workspace) => Ok(workspace),
            None => Err(Stop::Failed(state_error(join2("unknown workspace: ", workspace_name)))),
        }
    }

    /// The focused window and where it is.
    pub fn focused_window(&mut self, displays: &Vec<DisplayData>) -> (focused: Result<
        FocusedWindow<'a>,
        Stop,
    >)
        ensures
            dialogue::follows(
                focused_window(displays@),
                old(self).rest(),
                final(self).rest(),
                dialogue::seen(focused),
            ),
    {
        let focused = self.focused_workspace(displays)?;
        Ok(
            FocusedWindow {
                window: focused.focused_window,
                location: WindowLocation {
                    display_uuid: focused.display_uuid,
                    workspace_name: focused.workspace.name.clone(),
                    is_focused: true,
                },
            },
        )
    }

    /// The workspace with the focused window.
    pub fn focused_workspace(&mut self, displays: &Vec<DisplayData>) -> (focused: Result<
        FocusedWorkspace<'a>,
        Stop,
    >)
        ensures
            dialogue::follows(
                focused_workspace(displays@),
                old(self).rest(),
                final(self).rest(),
                dialogue::seen(focused),
            ),
    {
        let mut at: usize = 0;
        #[verifier::loop_isolation(false)]
        while at < displays.len()
            invariant
                at <= displays.len(),
                dialogue::run(focused_workspace_from(displays@, 0), old(self).rest())
                    == dialogue::run(focused_workspace_from(displays@, at as int), self.rest()),
            decreases displays.len() - at,
        {
            if let Some(space) = model::display_space(&displays[at]) {
                let windows = self.windows(space)?;
                if let Some(window) = model::find_focused(windows) {
                    let workspaces = self.workspaces(space)?;
                    if let Some(workspace) = model::find_holder(workspaces, window.id) {
                        return Ok(
                            FocusedWorkspace {
                                display_uuid: displays[at].uuid.clone(),
                                workspace,
                                focused_window: window,
                            },
                        );
                    }
                }
            }
            at = at + 1;
        }
        Err(Stop::Failed(state_error("no focused Rift-managed window".to_owned())))
    }

    /// Whether a display has the keyboard now.
    pub fn display_is_active(&mut self, display_uuid: &str) -> (active: Result<bool, Stop>)
        ensures
            dialogue::follows(
                display_is_active(display_uuid@),
                old(self).rest(),
                final(self).rest(),
                dialogue::seen(active),
            ),
    {
        let displays = self.displays()?;
        let mut at: usize = 0;
        #[verifier::loop_isolation(false)]
        while at < displays.len()
            invariant
                at <= displays.len(),
                forall|i: int|
                    0 <= i < at && (#[trigger] displays@[i]).uuid@ == display_uuid@
                        ==> !displays@[i].is_active_context,
            decreases displays.len() - at,
        {
            if same_text(&displays[at].uuid, display_uuid) && displays[at].is_active_context {
                return Ok(true);
            }
            at = at + 1;
        }
        Ok(false)
    }

    /// Whether the named workspace is active on a destination now.
    pub fn workspace_is_active(&mut self, target: &TargetContext, workspace_name: &str) -> (active:
        Result<bool, Stop>)
        ensures
            dialogue::follows(
                workspace_is_active(target@, workspace_name@),
                old(self).rest(),
                final(self).rest(),
                dialogue::seen(active),
            ),
    {
        let workspaces = self.workspaces(target.space)?;
        let mut at: usize = 0;
        #[verifier::loop_isolation(false)]
        while at < workspaces.len()
            invariant
                at <= workspaces.len(),
                forall|i: int|
                    0 <= i < at && (#[trigger] workspaces@[i]).name@ == workspace_name@
                        ==> !workspaces@[i].is_active,
            decreases workspaces.len() - at,
        {
            if same_text(&workspaces[at].name, workspace_name) && workspaces[at].is_active {
                return Ok(true);
            }
            at = at + 1;
        }
        Ok(false)
    }

    /// Where a window is on a destination's space, if it is there.
    pub fn window_location(&mut self, target: &TargetContext, window_id: WindowId) -> (location:
        Result<Option<WindowLocation>, Stop>)
        ensures
            dialogue::follows(
                window_location(target@, window_id),
                old(self).rest(),
                final(self).rest(),
                seen_location(location),
            ),
    {
        let workspaces = self.workspaces(target.space)?;
        match model::find_holder(workspaces, window_id) {
            None => Ok(None),
            Some(workspace) => {
                let window = self.window_info(window_id)?;
                Ok(
                    Some(
                        WindowLocation {
                            display_uuid: target.display_uuid.clone(),
                            workspace_name: workspace.name.clone(),
                            is_focused: window.is_focused,
                        },
                    ),
                )
            },
        }
    }

    /// Whether a window is in the named workspace of a destination's space.
    pub fn window_is_at(
        &mut self,
        target: &TargetContext,
        workspace_name: &str,
        window_id: WindowId,
    ) -> (there: Result<bool, Stop>)
        ensures
            dialogue::follows(
                window_is_at(target@, workspace_name@, window_id),
                old(self).rest(),
                final(self).rest(),
                dialogue::seen(there),
            ),
    {
        match self.window_location(target, window_id)? {
            Some(location) => Ok(same_text(&location.workspace_name, workspace_name)),
            None => Ok(false),
        }
    }

    /// Whether a window is in some workspace of a destination's space, and its frame on the
    /// destination's display.
    pub fn window_is_on_display(&mut self, target: &TargetContext, window_id: WindowId) -> (there:
        Result<bool, Stop>)
        ensures
            dialogue::follows(
                window_is_on_display(target@, window_id),
                old(self).rest(),
                final(self).rest(),
                dialogue::seen(there),
            ),
    {
        match self.window_location(target, window_id)? {
            None => Ok(false),
            Some(_) => {
                let window = self.window_info(window_id)?;
                Ok(frame_matches_display(&window.frame, target.frame_validation))
            },
        }
    }

    /// Whether a window is in the named workspace of a destination's space, and focused.
    pub fn window_is_focused_at(
        &mut self,
        target: &TargetContext,
        workspace_name: &str,
        window_id: WindowId,
    ) -> (focused: Result<bool, Stop>)
        ensures
            dialogue::follows(
                window_is_focused_at(target@, workspace_name@, window_id),
                old(self).rest(),
                final(self).rest(),
                dialogue::seen(focused),
            ),
    {
        if !self.window_is_at(target, workspace_name, window_id)? {
            return Ok(false);
        }
        let window = self.window_info(window_id)?;
        Ok(window.is_focused)
    }

    fn window_is_placed(
        &mut self,
        target: &TargetContext,
        members: &Vec<WindowData>,
        window_id: WindowId,
    ) -> (placed: Result<bool, Stop>)
        ensures
            dialogue::follows(
                window_is_placed(target@, members@, window_id),
                old(self).rest(),
                final(self).rest(),
                dialogue::seen(placed),
            ),
    {
        if !model::contains_window(members, window_id) {
            return Ok(false);
        }
        let window = self.window_info(window_id)?;
        Ok(frame_matches_display(&window.frame, target.frame_validation))
    }

    /// Whether the windows are all in the named workspace and on the display of a destination.
    pub fn windows_are_at(
        &mut self,
        target: &TargetContext,
        workspace_name: &str,
        window_ids: &Vec<WindowId>,
    ) -> (there: Result<bool, Stop>)
        ensures
            dialogue::follows(
                windows_are_at(target@, workspace_name@, window_ids@),
                old(self).rest(),
                final(self).rest(),
                dialogue::seen(there),
            ),
    {
        let workspaces = self.workspaces(target.space)?;
        let workspace = match model::find_workspace(workspaces, workspace_name) {
            Some(workspace) => workspace,
            None => {
                return Ok(false);
            },
        };
        let mut at: usize = 0;
        #[verifier::loop_isolation(false)]
        while at < window_ids.len()
            invariant
                at <= window_ids.len(),
                dialogue::run(
                    windows_are_at(target@, workspace_name@, window_ids@),
                    old(self).rest(),
                ) == dialogue::run(
                    windows_are_placed_from(
                        target@,
                        workspace.windows@,
                        window_ids@,
                        at as int,
                    ),
                    self.rest(),
                ),
            decreases window_ids.len() - at,
        {
            if !self.window_is_placed(target, &workspace.windows, window_ids[at])? {
                return Ok(false);
            }
            at = at + 1;
        }
        Ok(true)
    }

    /// Those of the windows that are not in the named workspace or not on the display of a
    /// destination, in order.
    pub fn windows_missing_from_workspace(
        &mut self,
        target: &TargetContext,
        workspace_name: &str,
        window_ids: &Vec<WindowId>,
    ) -> (missing: Result<Vec<WindowId>, Stop>)
        ensures
            dialogue::follows(
                windows_missing_from_workspace(target@, workspace_name@, window_ids@),
                old(self).rest(),
                final(self).rest(),
                dialogue::seen(missing),
            ),
    {
        let workspaces = self.workspaces(target.space)?;
        let workspace = model::find_workspace(workspaces, workspace_name);
        let ghost members = members_of(workspaces@, workspace_name@);
        let mut missing: Vec<WindowId> = Vec::new();
        let mut at: usize = 0;
        #[verifier::loop_isolation(false)]
        while at < window_ids.len()
            invariant
                at <= window_ids.len(),
                match workspace {
                    Some(workspace) => members == workspace.windows@,
                    None => members == Seq::<WindowData>::empty(),
                },
                dialogue::run(
                    windows_missing_from_workspace(target@, workspace_name@, window_ids@),
                    old(self).rest(),
                ) == dialogue::run(
                    windows_missing_from(target@, members, window_ids@, at as int, missing@),
                    self.rest(),
                ),
            decreases window_ids.len() - at,
        {
            let placed = match workspace {
                Some(workspace) => self.window_is_placed(
                    target,
                    &workspace.windows,
                    window_ids[at],
                )?,
                None => false,
            };
            if !placed {
                missing.push(window_ids[at]);
            }
            at = at + 1;
        }
        Ok(missing)
    }

    /// Focuses a destination's display: by its anchor where it has one, else with the mouse.
    pub fn focus_destination_command(&self, target: &TargetContext) -> (command: RiftCommand)
        ensures
            command@ == focus_destination(target@),
    {
        match &target.focus_anchor {
            None => RiftCommand::MoveMouseToDisplay { display_uuid: target.display_uuid.clone() },
            Some(anchor) => self.focus_window_command(anchor),
        }
    }

    /// Activates a destination's workspace.
    pub fn activate_workspace_command(&self, target: &TargetContext) -> (command: RiftCommand)
        ensures
            command@ == activation_of(target@),
    {
        RiftCommand::SwitchToWorkspace { workspace_index: target.workspace_index }
    }

    /// Moves a window to a destination's display.
    pub fn transfer_window_command(&self, target: &TargetContext, window: &WindowData) -> (command:
        RiftCommand)
        ensures
            command@ == transfer_of(target@, *window),
    {
        RiftCommand::MoveWindowToDisplay {
            display_uuid: target.display_uuid.clone(),
            window_index: window.id.idx,
        }
    }

    /// Focuses a window.
    pub fn focus_window_command(&self, window: &WindowData) -> (command: RiftCommand)
        ensures
            command@ == focus_of(*window),
    {
        RiftCommand::FocusWindow { window_id: window.id, window_server_id: window.window_server_id }
    }

    /// Moves a window to a destination's workspace and follows it.
    pub fn move_within_display_command(
        &self,
        target: &TargetContext,
        window: &WindowData,
    ) -> (command: RiftCommand)
        ensures
            command@ == placement_of(target@, *window, true),
    {
        self.move_window_to_workspace_command(target, window, true)
    }

    /// Moves a window to a destination's workspace.
    pub fn move_window_to_workspace_command(
        &self,
        target: &TargetContext,
        window: &WindowData,
        follow: bool,
    ) -> (command: RiftCommand)
        ensures
            command@ == placement_of(target@, *window, follow),
    {
        RiftCommand::MoveWindowToWorkspace {
            workspace_index: target.workspace_index,
            follow,
            window_index: window.id.idx,
        }
    }

    /// Moves windows to a destination's workspace.
    pub fn placement_commands(&self, target: &TargetContext, windows: &Vec<WindowData>) -> (commands:
        Vec<RiftCommand>)
        ensures
            crate::transaction::command_views(commands@) == placements_of(target@, windows@),
    {
        let mut commands: Vec<RiftCommand> = Vec::new();
        let mut at: usize = 0;
        while at < windows.len()
            invariant
                at <= windows.len(),
                commands.len() == at,
                forall|i: int|
                    0 <= i < at ==> (#[trigger] commands@[i])@ == placement_of(
                        target@,
                        windows@[i],
                        false,
                    ),
            decreases windows.len() - at,
        {
            commands.push(self.move_window_to_workspace_command(target, &windows[at], false));
            at = at + 1;
        }
        assert(crate::transaction::command_views(commands@) =~= placements_of(target@, windows@));
        commands
    }
}

/// The display with this identifier and the space it shows.
fn find_shown<'d>(displays: &'d Vec<DisplayData>, display_uuid: &str) -> (shown: Result<
    (&'d DisplayData, u64),
    ErgoError,
>)
    ensures
        shown matches Ok((display, space)) ==> shown_space(displays@, display_uuid@) == Ok::<
            (DisplayData, u64),
            ErrorView,
        >((*display, space)) && display.uuid@ == display_uuid@,
        shown matches Err(error) ==> shown_space(displays@, display_uuid@) == Err::<
            (DisplayData, u64),
            ErrorView,
        >(error@),
{
    match model::find_display(displays, display_uuid) {
        None => Err(state_error("target display disappeared".to_owned())),
        Some(at) => match model::display_space(&displays[at]) {
            None => Err(state_error("target display has no active macOS space".to_owned())),
            Some(space) => Ok((&displays[at], space)),
        },
    }
}

/// The window by which the display with these workspaces can be focused.
fn find_anchor(workspaces: &Vec<WorkspaceData>) -> (anchor: Option<WindowData>)
    ensures
        anchor == anchor_of(workspaces@),
{
    match model::find_active(workspaces) {
        None => None,
        Some(workspace) => match model::find_focused(&workspace.windows) {
            Some(window) => Some(window.clone()),
            None => if workspace.windows.len() > 0 {
                Some(workspace.windows[0].clone())
            } else {
                None
            },
        },
    }
}

proof fn lemma_placed_looks(
    target: TargetView,
    members: Seq<WindowData>,
    window_ids: Seq<WindowId>,
    at: int,
)
    ensures
        dialogue::asks_only(
            windows_are_placed_from(target, members, window_ids, at),
            dialogue::looks(),
        ),
    decreases window_ids.len() - at,
{
    broadcast use dialogue::group_asks_only;

    if 0 <= at < window_ids.len() {
        lemma_placed_looks(target, members, window_ids, at + 1);
    }
}

/// Checking where windows are does no more than look.
pub proof fn lemma_windows_are_at_looks(
    target: TargetView,
    workspace_name: Seq<char>,
    window_ids: Seq<WindowId>,
)
    ensures
        dialogue::asks_only(
            windows_are_at(target, workspace_name, window_ids),
            dialogue::looks(),
        ),
{
    broadcast use dialogue::group_asks_only;

    assert forall|members: Seq<WindowData>|
        dialogue::asks_only(
            #[trigger] windows_are_placed_from(target, members, window_ids, 0),
            dialogue::looks(),
        ) by {
        lemma_placed_looks(target, members, window_ids, 0);
    }
}

} // verus!
