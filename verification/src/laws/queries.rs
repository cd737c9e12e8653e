//! What the answers to questions about Rift's state are, in terms of the replies.
use crate::dialogue;
use crate::dialogue::{AskView, Outcome, Reply, RequestView};
use crate::error::{ErrorKind, ErrorView};
use crate::geometry;
use crate::geometry::{Coordinate, Extent, FrameValidation, Rect};
use crate::laws;
use crate::laws::looking;
use crate::model;
use crate::model::{CommandView, DisplayData, WindowData, WindowId, WorkspaceData};
use crate::rift;
use crate::rift::{FocusedWorkspaceView, LocationView, TargetView};
use vstd::prelude::*;

verus! {

broadcast use {dialogue::group_run, laws::group_requests};

// ---------------------------------------------------------------------------
// Positions.
// ---------------------------------------------------------------------------

/// Whether the first display with this identifier stands here.
pub open spec fn is_display(displays: Seq<DisplayData>, uuid: Seq<char>, at: int) -> bool {
    &&& 0 <= at < displays.len()
    &&& displays[at].uuid@ == uuid
    &&& forall|i: int| 0 <= i < at ==> (#[trigger] displays[i]).uuid@ != uuid
}

/// Whether a display shows this space: the first of its active ones, or its own where none is
/// active.
pub open spec fn shows_space(display: DisplayData, space: u64) -> bool {
    if display.active_space_ids@.len() > 0 {
        display.active_space_ids@[0] == space
    } else {
        display.space == Some(space)
    }
}

/// Whether a display shows no space.
pub open spec fn shows_no_space(display: DisplayData) -> bool {
    display.active_space_ids@.len() == 0 && display.space is None
}

/// Whether the first workspace with this name stands here.
pub open spec fn is_workspace(workspaces: Seq<WorkspaceData>, name: Seq<char>, at: int) -> bool {
    &&& 0 <= at < workspaces.len()
    &&& workspaces[at].name@ == name
    &&& forall|i: int| 0 <= i < at ==> (#[trigger] workspaces[i]).name@ != name
}

/// Whether the first active workspace stands here.
pub open spec fn is_active_workspace(workspaces: Seq<WorkspaceData>, at: int) -> bool {
    &&& 0 <= at < workspaces.len()
    &&& workspaces[at].is_active
    &&& forall|i: int| 0 <= i < at ==> !(#[trigger] workspaces[i]).is_active
}

/// Whether a window with this identifier is in the workspace.
pub open spec fn has_member(workspace: WorkspaceData, id: WindowId) -> bool {
    exists|i: int| 0 <= i < workspace.windows@.len() && (#[trigger] workspace.windows@[i]).id == id
}

/// Whether the first workspace with this window stands here.
pub open spec fn is_holder(workspaces: Seq<WorkspaceData>, id: WindowId, at: int) -> bool {
    &&& 0 <= at < workspaces.len()
    &&& has_member(workspaces[at], id)
    &&& forall|i: int| 0 <= i < at ==> !has_member(#[trigger] workspaces[i], id)
}

/// Whether no workspace has this window.
pub open spec fn has_no_holder(workspaces: Seq<WorkspaceData>, id: WindowId) -> bool {
    forall|i: int| 0 <= i < workspaces.len() ==> !has_member(#[trigger] workspaces[i], id)
}

/// Whether the first focused window stands here.
pub open spec fn is_focused_window(windows: Seq<WindowData>, at: int) -> bool {
    &&& 0 <= at < windows.len()
    &&& windows[at].is_focused
    &&& forall|i: int| 0 <= i < at ==> !(#[trigger] windows[i]).is_focused
}

/// Whether none of the windows is focused.
pub open spec fn none_is_focused(windows: Seq<WindowData>) -> bool {
    forall|i: int| 0 <= i < windows.len() ==> !(#[trigger] windows[i]).is_focused
}

/// The first display with an identifier is the one that is found.
pub proof fn lemma_display_found(displays: Seq<DisplayData>, uuid: Seq<char>, at: int)
    requires
        is_display(displays, uuid, at),
    ensures
        model::first(displays, model::has_uuid(uuid)) == Some(displays[at]),
{
    model::lemma_first_found(displays, model::has_uuid(uuid), at);
}

/// A display that is found is the first one with its identifier.
pub proof fn lemma_found_display(displays: Seq<DisplayData>, uuid: Seq<char>) -> (at: int)
    requires
        model::first(displays, model::has_uuid(uuid)) is Some,
    ensures
        is_display(displays, uuid, at),
        model::first(displays, model::has_uuid(uuid)) == Some(displays[at]),
{
    let at = lemma_first_at(displays, model::has_uuid(uuid));
    assert forall|i: int| 0 <= i < at implies (#[trigger] displays[i]).uuid@ != uuid by {
        assert(!(model::has_uuid(uuid))(displays[i]));
    }
    at
}

/// What is found stands somewhere, and nothing before it is accepted.
pub proof fn lemma_first_at<T>(items: Seq<T>, accepts: spec_fn(T) -> bool) -> (at: int)
    requires
        model::first(items, accepts) is Some,
    ensures
        0 <= at < items.len(),
        model::first(items, accepts) == Some(items[at]),
        accepts(items[at]),
        forall|i: int| 0 <= i < at ==> !accepts(#[trigger] items[i]),
    decreases items.len(),
{
    if accepts(items[0]) {
        0
    } else {
        let later = lemma_first_at(items.skip(1), accepts);
        assert forall|i: int| 0 <= i < later + 1 implies !accepts(#[trigger] items[i]) by {
            if i > 0 {
                assert(items.skip(1)[i - 1] == items[i]);
            }
        }
        later + 1
    }
}

proof fn lemma_workspace_found(workspaces: Seq<WorkspaceData>, name: Seq<char>, at: int)
    requires
        is_workspace(workspaces, name, at),
    ensures
        model::first(workspaces, model::has_name(name)) == Some(workspaces[at]),
{
    model::lemma_first_found(workspaces, model::has_name(name), at);
}

proof fn lemma_active_found(workspaces: Seq<WorkspaceData>, at: int)
    requires
        is_active_workspace(workspaces, at),
    ensures
        model::first(workspaces, model::is_active()) == Some(workspaces[at]),
{
    model::lemma_first_found(workspaces, model::is_active(), at);
}

proof fn lemma_holder_found(workspaces: Seq<WorkspaceData>, id: WindowId, at: int)
    requires
        is_holder(workspaces, id, at),
    ensures
        model::first(workspaces, model::holds(id)) == Some(workspaces[at]),
{
    assert forall|i: int| 0 <= i < at implies !(model::holds(id))(#[trigger] workspaces[i]) by {
        assert(!has_member(workspaces[i], id));
    }
    model::lemma_first_found(workspaces, model::holds(id), at);
}

proof fn lemma_holder_absent(workspaces: Seq<WorkspaceData>, id: WindowId)
    requires
        has_no_holder(workspaces, id),
    ensures
        model::first(workspaces, model::holds(id)) is None,
{
    assert forall|i: int| 0 <= i < workspaces.len() implies !(model::holds(id))(
        #[trigger] workspaces[i],
    ) by {
        assert(!has_member(workspaces[i], id));
    }
    model::lemma_first_absent(workspaces, model::holds(id));
}

/// Which space a display shows.
pub proof fn a_display_shows_its_first_active_space(display: DisplayData, space: u64)
    ensures
        model::space_of(display) == Some(space) <==> shows_space(display, space),
        model::space_of(display) is None <==> shows_no_space(display),
{
}

/// The identifiers of windows are those of all of them, in order.
pub proof fn every_window_has_its_identifier(windows: Seq<WindowData>)
    ensures
        model::ids_of(windows).len() == windows.len(),
        forall|i: int| 0 <= i < windows.len() ==> #[trigger] model::ids_of(windows)[i] == windows[i].id,
{
}

/// Of windows, those are chosen whose identifiers are wanted.
pub proof fn the_wanted_windows_are_chosen(ids: Seq<WindowId>, window: WindowData)
    ensures
        (model::is_one_of(ids))(window) <==> exists|i: int|
            0 <= i < ids.len() && #[trigger] ids[i] == window.id,
{
    if exists|i: int| 0 <= i < ids.len() && #[trigger] ids[i] == window.id {
        assert(ids.contains(window.id));
    }
}

// ---------------------------------------------------------------------------
// Frames.
// ---------------------------------------------------------------------------

/// Whether one coordinate comes before another; never so without a number.
pub open spec fn comes_before(first: Coordinate, second: Coordinate) -> bool {
    first.key is Some && second.key is Some && first.key->0 < second.key->0
}

/// Whether a coordinate is not before the first and not past the second.
pub open spec fn lies_between(first: Coordinate, middle: Coordinate, second: Coordinate) -> bool {
    &&& first.key is Some && middle.key is Some && second.key is Some
    &&& first.key->0 <= middle.key->0 <= second.key->0
}

/// Whether two extents share an inner point.
pub open spec fn share_a_point(first: Extent, second: Extent) -> bool {
    comes_before(first.start, second.end) && comes_before(second.start, first.end)
}

/// A window is on a display by its centre: by the axis that is judged, and on any display where
/// none is.
pub proof fn a_frame_is_judged_by_its_centre(frame: Rect, display: Rect)
    ensures
        geometry::frame_matches(frame, FrameValidation::Horizontal(display)) <==> lies_between(
            display.horizontal.start,
            frame.horizontal.center,
            display.horizontal.end,
        ),
        geometry::frame_matches(frame, FrameValidation::Vertical(display)) <==> lies_between(
            display.vertical.start,
            frame.vertical.center,
            display.vertical.end,
        ),
        geometry::frame_matches(frame, FrameValidation::MembershipOnly),
{
}

/// Whether another display shares a row with this one.
pub open spec fn shares_a_row(display: DisplayData, displays: Seq<DisplayData>) -> bool {
    exists|i: int|
        0 <= i < displays.len() && (#[trigger] displays[i]).uuid@ != display.uuid@ && share_a_point(
            display.frame.vertical,
            displays[i].frame.vertical,
        )
}

/// Whether another display shares a column with this one.
pub open spec fn shares_a_column(display: DisplayData, displays: Seq<DisplayData>) -> bool {
    exists|i: int|
        0 <= i < displays.len() && (#[trigger] displays[i]).uuid@ != display.uuid@ && share_a_point(
            display.frame.horizontal,
            displays[i].frame.horizontal,
        )
}

/// Whether frames are to be judged in this way on a display: by row where no other display shares
/// one; else by column, where no other display shares one and the layout does not scroll; else not
/// at all.
pub open spec fn judges_frames(
    validation: FrameValidation,
    display: DisplayData,
    displays: Seq<DisplayData>,
    layout_mode: Seq<char>,
) -> bool {
    if !shares_a_row(display, displays) {
        validation == FrameValidation::Vertical(display.frame)
    } else if !shares_a_column(display, displays) && layout_mode != "scrolling"@ {
        validation == FrameValidation::Horizontal(display.frame)
    } else {
        validation == FrameValidation::MembershipOnly
    }
}

/// The axis on which displays differ judges the frames.
pub proof fn frames_are_judged_where_displays_differ(
    display: DisplayData,
    displays: Seq<DisplayData>,
    layout_mode: Seq<char>,
)
    ensures
        judges_frames(
            geometry::validation(display, displays, layout_mode),
            display,
            displays,
            layout_mode,
        ),
{
    assert(geometry::vertically_disjoint(display, displays) <==> !shares_a_row(display, displays))
        by {
        if shares_a_row(display, displays) {
            let i = choose|i: int|
                0 <= i < displays.len() && (#[trigger] displays[i]).uuid@ != display.uuid@
                    && share_a_point(display.frame.vertical, displays[i].frame.vertical);
            assert(geometry::overlap(display.frame.vertical, displays[i].frame.vertical));
        }
        if !geometry::vertically_disjoint(display, displays) {
            let i = choose|i: int|
                0 <= i < displays.len() && (#[trigger] displays[i]).uuid@ != display.uuid@
                    && geometry::overlap(display.frame.vertical, displays[i].frame.vertical);
            assert(share_a_point(display.frame.vertical, displays[i].frame.vertical));
        }
    }
    assert(geometry::horizontally_disjoint(display, displays) <==> !shares_a_column(
        display,
        displays,
    )) by {
        if shares_a_column(display, displays) {
            let i = choose|i: int|
                0 <= i < displays.len() && (#[trigger] displays[i]).uuid@ != display.uuid@
                    && share_a_point(display.frame.horizontal, displays[i].frame.horizontal);
            assert(geometry::overlap(display.frame.horizontal, displays[i].frame.horizontal));
        }
        if !geometry::horizontally_disjoint(display, displays) {
            let i = choose|i: int|
                0 <= i < displays.len() && (#[trigger] displays[i]).uuid@ != display.uuid@
                    && geometry::overlap(display.frame.horizontal, displays[i].frame.horizontal);
            assert(share_a_point(display.frame.horizontal, displays[i].frame.horizontal));
        }
    }
}

/// Whether a reply shows a window with its frame on the display: by row or by column, as the frame
/// is to be judged.
pub open spec fn shows_frame(reply: Reply, validation: FrameValidation) -> bool {
    reply matches Reply::WindowInfo(window) && match validation {
        FrameValidation::Horizontal(display) => lies_between(
            display.horizontal.start,
            window.frame.horizontal.center,
            display.horizontal.end,
        ),
        FrameValidation::Vertical(display) => lies_between(
            display.vertical.start,
            window.frame.vertical.center,
            display.vertical.end,
        ),
        FrameValidation::MembershipOnly => true,
    }
}

// ---------------------------------------------------------------------------
// Destinations.
// ---------------------------------------------------------------------------

/// Whether this is the window by which a display can be focused: the focused one of its active
/// workspace, else the first one there; none where no workspace is active or that one is empty.
pub open spec fn is_anchor(anchor: Option<WindowData>, workspaces: Seq<WorkspaceData>) -> bool {
    &&& forall|a: int| #[trigger]
        is_active_workspace(workspaces, a) ==> {
            let windows = workspaces[a].windows@;
            &&& forall|f: int| #[trigger]
                is_focused_window(windows, f) ==> anchor == Some(windows[f])
            &&& none_is_focused(windows) && windows.len() > 0 ==> anchor == Some(windows[0])
            &&& windows.len() == 0 ==> anchor is None
        }
    &&& (forall|i: int| 0 <= i < workspaces.len() ==> !(#[trigger] workspaces[i]).is_active)
        ==> anchor is None
}

proof fn lemma_anchor(workspaces: Seq<WorkspaceData>)
    ensures
        is_anchor(rift::anchor_of(workspaces), workspaces),
{
    assert forall|a: int| #[trigger] is_active_workspace(workspaces, a) implies {
        let windows = workspaces[a].windows@;
        let anchor = rift::anchor_of(workspaces);
        &&& forall|f: int| #[trigger] is_focused_window(windows, f) ==> anchor == Some(windows[f])
        &&& none_is_focused(windows) && windows.len() > 0 ==> anchor == Some(windows[0])
        &&& windows.len() == 0 ==> anchor is None
    } by {
        let windows = workspaces[a].windows@;
        lemma_active_found(workspaces, a);
        assert forall|f: int| #[trigger] is_focused_window(windows, f) implies rift::anchor_of(
            workspaces,
        ) == Some(windows[f]) by {
            model::lemma_first_found(windows, model::is_focused(), f);
        }
        if none_is_focused(windows) {
            model::lemma_first_absent(windows, model::is_focused());
        }
    }
    if forall|i: int| 0 <= i < workspaces.len() ==> !(#[trigger] workspaces[i]).is_active {
        model::lemma_first_absent(workspaces, model::is_active());
    }
}

/// Whether this is a workspace of a display as a destination.
pub open spec fn is_destination(
    target: TargetView,
    display: DisplayData,
    displays: Seq<DisplayData>,
    space: u64,
    workspaces: Seq<WorkspaceData>,
    at: int,
) -> bool {
    &&& target.display_uuid == display.uuid@
    &&& target.space == space
    &&& target.workspace_index == workspaces[at].index
    &&& target.display_is_active == display.is_active_context
    &&& target.workspace_is_active == workspaces[at].is_active
    &&& is_anchor(target.focus_anchor, workspaces)
    &&& judges_frames(target.frame_validation, display, displays, workspaces[at].layout_mode@)
}

/// The workspaces of a space are asked for.
pub open spec fn asks_workspaces(space: u64) -> RequestView {
    RequestView::Outside(AskView::Workspaces { space })
}

/// A window is asked for.
pub open spec fn asks_window(window_id: WindowId) -> RequestView {
    RequestView::Outside(AskView::WindowInfo { window_id })
}

/// A destination is the first workspace with the name in the reply for the space that the first
/// display with the identifier shows; that space is all that is asked for.
pub proof fn a_destination_is_the_named_workspace_of_the_display(
    workspace_name: Seq<char>,
    display_uuid: Seq<char>,
    displays: Seq<DisplayData>,
    display: int,
    space: u64,
    replies: Seq<Reply>,
    at: int,
)
    requires
        is_display(displays, display_uuid, display),
        shows_space(displays[display], space),
        replies.len() > 0,
        replies[0] matches Reply::Workspaces(found) && is_workspace(found@, workspace_name, at),
    ensures
        ({
            let context = rift::target_context(workspace_name, display_uuid, displays);
            &&& laws::requests(context, replies) == seq![asks_workspaces(space)]
            &&& dialogue::run(context, replies) matches Outcome::Finished(target, rest)
                && is_destination(
                target,
                displays[display],
                displays,
                space,
                replies[0]->Workspaces_0@,
                at,
            ) && rest == replies.skip(1)
        }),
{
    let workspaces = replies[0]->Workspaces_0@;
    lemma_display_found(displays, display_uuid, display);
    lemma_workspace_found(workspaces, workspace_name, at);
    lemma_anchor(workspaces);
    frames_are_judged_where_displays_differ(
        displays[display],
        displays,
        workspaces[at].layout_mode@,
    );
    let context = rift::target_context(workspace_name, display_uuid, displays);
    assert(laws::requests(context, replies) =~= seq![asks_workspaces(space)]);
}

/// A destination that was found is the first workspace with the name, in the reply for the space
/// that the first display with the identifier shows.
pub proof fn a_destination_that_was_found_is_the_named_workspace(
    workspace_name: Seq<char>,
    display_uuid: Seq<char>,
    displays: Seq<DisplayData>,
    replies: Seq<Reply>,
) -> (found: (int, int))
    requires
        dialogue::run(
            rift::target_context(workspace_name, display_uuid, displays),
            replies,
        ) is Finished,
    ensures
        ({
            let context = rift::target_context(workspace_name, display_uuid, displays);
            let target = dialogue::run(context, replies)->Finished_0;
            let (display, at) = found;
            &&& is_display(displays, display_uuid, display)
            &&& shows_space(displays[display], target.space)
            &&& replies.len() > 0
            &&& replies[0] matches Reply::Workspaces(workspaces) && is_workspace(
                workspaces@,
                workspace_name,
                at,
            ) && is_destination(
                target,
                displays[display],
                displays,
                target.space,
                workspaces@,
                at,
            )
            &&& laws::requests(context, replies) == seq![asks_workspaces(target.space)]
            &&& dialogue::run(context, replies)->Finished_1 == replies.skip(1)
        }),
{
    let display = lemma_found_display(displays, display_uuid);
    assert(replies.len() > 0);
    let workspaces = replies[0]->Workspaces_0@;
    let at = lemma_first_at(workspaces, model::has_name(workspace_name));
    assert forall|i: int| 0 <= i < at implies (#[trigger] workspaces[i]).name@
        != workspace_name by {
        assert(!(model::has_name(workspace_name))(workspaces[i]));
    }
    let space = model::space_of(displays[display])->0;
    a_destination_is_the_named_workspace_of_the_display(
        workspace_name,
        display_uuid,
        displays,
        display,
        space,
        replies,
        at,
    );
    (display, at)
}

/// Without the display, without a space on it, or without the workspace there is no destination.
pub proof fn a_destination_that_is_not_there_is_a_failure(
    workspace_name: Seq<char>,
    display_uuid: Seq<char>,
    displays: Seq<DisplayData>,
    replies: Seq<Reply>,
)
    ensures
        (forall|i: int|
            0 <= i < displays.len() ==> (#[trigger] displays[i]).uuid@ != display_uuid)
            ==> dialogue::run(
            rift::target_context(workspace_name, display_uuid, displays),
            replies,
        ) == Outcome::<TargetView>::Failed(
            ErrorView { kind: ErrorKind::Other, message: "target display disappeared"@ },
            replies,
        ),
        forall|d: int| #[trigger]
            is_display(displays, display_uuid, d) && shows_no_space(displays[d])
                ==> dialogue::run(
                rift::target_context(workspace_name, display_uuid, displays),
                replies,
            ) == Outcome::<TargetView>::Failed(
                ErrorView {
                    kind: ErrorKind::Other,
                    message: "target display has no active macOS space"@,
                },
                replies,
            ),
        forall|d: int, space: u64|
            #[trigger] is_display(displays, display_uuid, d) && #[trigger] shows_space(
                displays[d],
                space,
            ) && replies.len() > 0 && (replies[0] matches Reply::Workspaces(workspaces) && forall|
                i: int,
            |
                0 <= i < workspaces@.len() ==> (#[trigger] workspaces@[i]).name@ != workspace_name)
                ==> dialogue::run(
                rift::target_context(workspace_name, display_uuid, displays),
                replies,
            ) == Outcome::<TargetView>::Failed(
                ErrorView {
                    kind: ErrorKind::Other,
                    message: "unknown workspace: "@ + workspace_name,
                },
                replies.skip(1),
            ),
{
    if forall|i: int| 0 <= i < displays.len() ==> (#[trigger] displays[i]).uuid@ != display_uuid {
        model::lemma_first_absent(displays, model::has_uuid(display_uuid));
    }
    if exists|d: int| is_display(displays, display_uuid, d) {
        let d = choose|d: int| is_display(displays, display_uuid, d);
        lemma_display_found(displays, display_uuid, d);
        assert forall|other: int| is_display(displays, display_uuid, other) implies other
            == d by {}
        if replies.len() > 0 && replies[0] is Workspaces {
            let workspaces = replies[0]->Workspaces_0@;
            if forall|i: int|
                0 <= i < workspaces.len() ==> (#[trigger] workspaces[i]).name@
                    != workspace_name {
                model::lemma_first_absent(workspaces, model::has_name(workspace_name));
            }
        }
    }
}

/// The active workspace of a display as a destination: its name is the one that the active
/// workspace has in the first reply, and the rest is read from the workspace with that name in the
/// second.
pub proof fn an_active_destination_is_the_active_workspace_of_the_display(
    display_uuid: Seq<char>,
    displays: Seq<DisplayData>,
    replies: Seq<Reply>,
) -> (found: (int, int, int))
    requires
        dialogue::run(rift::active_target_context(display_uuid, displays), replies) is Finished,
    ensures
        ({
            let context = rift::active_target_context(display_uuid, displays);
            let (name, target) = dialogue::run(context, replies)->Finished_0;
            let (display, active, at) = found;
            &&& is_display(displays, display_uuid, display)
            &&& shows_space(displays[display], target.space)
            &&& replies.len() > 1
            &&& replies[0] matches Reply::Workspaces(first) && is_active_workspace(first@, active)
                && first@[active].name@ == name
            &&& replies[1] matches Reply::Workspaces(second) && is_workspace(second@, name, at)
                && is_destination(
                target,
                displays[display],
                displays,
                target.space,
                second@,
                at,
            )
            &&& laws::requests(context, replies) == seq![
                asks_workspaces(target.space),
                asks_workspaces(target.space),
            ]
        }),
{
    let context = rift::active_target_context(display_uuid, displays);
    let display = lemma_found_display(displays, display_uuid);
    assert(replies.len() > 0);
    let first = replies[0]->Workspaces_0@;
    let active = lemma_first_at(first, model::is_active());
    assert forall|i: int| 0 <= i < active implies !(#[trigger] first[i]).is_active by {
        assert(!(model::is_active())(first[i]));
    }
    let later = replies.skip(1);
    let (again, at) = a_destination_that_was_found_is_the_named_workspace(
        first[active].name@,
        display_uuid,
        displays,
        later,
    );
    assert(again == display);
    assert(later[0] == replies[1]);
    let target = dialogue::run(context, replies)->Finished_0.1;
    assert(laws::requests(context, replies) =~= seq![
        asks_workspaces(target.space),
        asks_workspaces(target.space),
    ]);
    (display, active, at)
}

/// The named workspace of a destination's space as it is now is the first one with the name in the
/// reply for that space.
pub proof fn a_workspace_is_read_by_its_name(
    target: TargetView,
    workspace_name: Seq<char>,
    replies: Seq<Reply>,
    at: int,
)
    requires
        replies.len() > 0,
        replies[0] matches Reply::Workspaces(found) && is_workspace(found@, workspace_name, at),
    ensures
        laws::requests(rift::workspace_at(target, workspace_name), replies) == seq![
            asks_workspaces(target.space),
        ],
        dialogue::run(rift::workspace_at(target, workspace_name), replies) == Outcome::Finished(
            replies[0]->Workspaces_0@[at],
            replies.skip(1),
        ),
{
    lemma_workspace_found(replies[0]->Workspaces_0@, workspace_name, at);
    assert(laws::requests(rift::workspace_at(target, workspace_name), replies) =~= seq![
        asks_workspaces(target.space),
    ]);
}

// ---------------------------------------------------------------------------
// The focused window.
// ---------------------------------------------------------------------------

/// Whether the display shows, from this request on, no focused window in a workspace of its own:
/// it shows no space; or no window of its space is focused; or no workspace there has the window
/// that is.
pub open spec fn shows_no_focus(
    display: DisplayData,
    asked: Seq<RequestView>,
    replies: Seq<Reply>,
    at: int,
) -> bool {
    ||| shows_no_space(display)
    ||| exists|space: u64|
        #[trigger] shows_space(display, space) && 0 <= at < asked.len() && at < replies.len()
            && asked[at] == RequestView::Outside(AskView::Windows { space }) && (replies[at] matches
            Reply::Windows(windows) && (none_is_focused(windows@) || exists|f: int|
            #[trigger] is_focused_window(windows@, f) && at + 1 < asked.len() && at + 1
                < replies.len() && asked[at + 1] == asks_workspaces(space) && (replies[at + 1]
                matches Reply::Workspaces(workspaces) && has_no_holder(
                workspaces@,
                windows@[f].id,
            ))))
}

/// Whether the last two requests were for this space of the display, and their replies show this
/// focused window in this workspace.
pub open spec fn shows_focus_at(
    display: DisplayData,
    asked: Seq<RequestView>,
    replies: Seq<Reply>,
    found: FocusedWorkspaceView,
    space: u64,
    f: int,
    h: int,
) -> bool {
    let last = asked.len() - 1;
    &&& shows_space(display, space)
    &&& 2 <= asked.len() <= replies.len()
    &&& asked[last - 1] == RequestView::Outside(AskView::Windows { space })
    &&& asked[last] == asks_workspaces(space)
    &&& replies[last - 1] is Windows
    &&& replies[last] is Workspaces
    &&& is_focused_window(replies[last - 1]->Windows_0@, f)
    &&& is_holder(replies[last]->Workspaces_0@, found.focused_window.id, h)
    &&& found.focused_window == replies[last - 1]->Windows_0@[f]
    &&& found.workspace == replies[last]->Workspaces_0@[h]
    &&& found.display_uuid == display.uuid@
}

/// Whether the display shows, in the last two requests, this focused window in this workspace.
pub open spec fn shows_focus(
    display: DisplayData,
    asked: Seq<RequestView>,
    replies: Seq<Reply>,
    found: FocusedWorkspaceView,
) -> bool {
    exists|space: u64, f: int, h: int|
        shows_focus_at(display, asked, replies, found, space, f, h)
}

/// Whether the display was seen to show no focused window in a workspace of its own.
pub open spec fn showed_no_focus(
    display: DisplayData,
    asked: Seq<RequestView>,
    replies: Seq<Reply>,
) -> bool {
    exists|at: int| shows_no_focus(display, asked, replies, at)
}

/// Whether this is the focused workspace: some display showed it, and each one before showed no
/// focused window in a workspace of its own.
pub open spec fn is_focused_workspace(
    displays: Seq<DisplayData>,
    from: int,
    asked: Seq<RequestView>,
    replies: Seq<Reply>,
    found: FocusedWorkspaceView,
) -> bool {
    exists|d: int|
        from <= d < displays.len() && #[trigger] shows_focus(displays[d], asked, replies, found)
            && forall|i: int|
            from <= i < d ==> showed_no_focus(#[trigger] displays[i], asked, replies)
}

proof fn lemma_focus_later(
    displays: Seq<DisplayData>,
    from: int,
    first: Seq<RequestView>,
    later: Seq<RequestView>,
    replies: Seq<Reply>,
    found: FocusedWorkspaceView,
)
    requires
        0 <= from < displays.len(),
        first.len() <= replies.len(),
        later.len() <= replies.skip(first.len() as int).len(),
        is_focused_workspace(
            displays,
            from + 1,
            later,
            replies.skip(first.len() as int),
            found,
        ),
        shows_no_focus(displays[from], first, replies, 0),
    ensures
        is_focused_workspace(displays, from, first + later, replies, found),
{
    let asked = first + later;
    let rest = replies.skip(first.len() as int);
    let n = first.len() as int;
    let d = choose|d: int|
        from + 1 <= d < displays.len() && #[trigger] shows_focus(displays[d], later, rest, found)
            && forall|i: int|
            from + 1 <= i < d ==> showed_no_focus(#[trigger] displays[i], later, rest);
    let last = later.len() - 1;
    let (space, f, h) = choose|space: u64, f: int, h: int|
        shows_focus_at(displays[d], later, rest, found, space, f, h);
    let end = asked.len() - 1;
    assert(asked[end] == later[last] && asked[end - 1] == later[last - 1]);
    assert(replies[end] == rest[last] && replies[end - 1] == rest[last - 1]);
    assert(shows_focus_at(displays[d], asked, replies, found, space, f, h));
    assert(shows_focus(displays[d], asked, replies, found));
    assert forall|i: int| from <= i < d implies showed_no_focus(
        #[trigger] displays[i],
        asked,
        replies,
    ) by {
        if i == from {
            lemma_no_focus_later(displays[i], Seq::empty(), first, later, replies, 0);
            assert(Seq::<RequestView>::empty() + (first + later) =~= asked);
            assert(replies.skip(0) =~= replies);
            assert(shows_no_focus(displays[i], asked, replies, 0));
        } else {
            let at = choose|at: int| shows_no_focus(displays[i], later, rest, at);
            assert(later + Seq::<RequestView>::empty() =~= later);
            lemma_no_focus_later(displays[i], first, later, Seq::empty(), replies, at);
            assert(first + (later + Seq::<RequestView>::empty()) =~= asked);
            assert(shows_no_focus(displays[i], asked, replies, n + at));
        }
    }
}

proof fn lemma_no_focus_later(
    display: DisplayData,
    before: Seq<RequestView>,
    asked: Seq<RequestView>,
    after: Seq<RequestView>,
    replies: Seq<Reply>,
    at: int,
)
    requires
        before.len() <= replies.len(),
        shows_no_focus(display, asked, replies.skip(before.len() as int), at),
    ensures
        shows_no_focus(display, before + (asked + after), replies, before.len() + at),
{
    let whole = before + (asked + after);
    let own = replies.skip(before.len() as int);
    let n = before.len() as int;
    if !shows_no_space(display) {
        let space = choose|space: u64|
            #[trigger] shows_space(display, space) && 0 <= at < asked.len() && at < own.len()
                && asked[at] == RequestView::Outside(AskView::Windows { space }) && (own[at] matches
                Reply::Windows(windows) && (none_is_focused(windows@) || exists|f: int|
                #[trigger] is_focused_window(windows@, f) && at + 1 < asked.len() && at + 1
                    < own.len() && asked[at + 1] == asks_workspaces(space) && (own[at + 1] matches
                    Reply::Workspaces(workspaces) && has_no_holder(
                    workspaces@,
                    windows@[f].id,
                ))));
        assert(whole[n + at] == asked[at]);
        assert(replies[n + at] == own[at]);
        if at + 1 < asked.len() && at + 1 < own.len() {
            assert(whole[n + at + 1] == asked[at + 1]);
            assert(replies[n + at + 1] == own[at + 1]);
        }
        assert(shows_space(display, space));
    }
}

proof fn lemma_focused_from(displays: Seq<DisplayData>, from: int, replies: Seq<Reply>)
    requires
        0 <= from <= displays.len(),
        dialogue::run(rift::focused_workspace_from(displays, from), replies) is Finished,
    ensures
        is_focused_workspace(
            displays,
            from,
            laws::requests(rift::focused_workspace_from(displays, from), replies),
            replies,
            dialogue::run(rift::focused_workspace_from(displays, from), replies)->Finished_0,
        ),
    decreases displays.len() - from,
{
    let program = rift::focused_workspace_from(displays, from);
    let asked = laws::requests(program, replies);
    let found = dialogue::run(program, replies)->Finished_0;
    let next = rift::focused_workspace_from(displays, from + 1);
    match model::space_of(displays[from]) {
        None => {
            let first = Seq::<RequestView>::empty();
            assert(replies.skip(0) =~= replies);
            assert(first + asked =~= asked);
            lemma_focused_from(displays, from + 1, replies);
            laws::each_request_has_its_reply(next, replies);
            assert(shows_no_focus(displays[from], first, replies, 0));
            lemma_focus_later(displays, from, first, asked, replies, found);
        },
        Some(space) => {
            assert(replies.len() > 0);
            let windows = replies[0]->Windows_0@;
            let one = seq![RequestView::Outside(AskView::Windows { space })];
            let rest = replies.skip(1);
            assert(shows_space(displays[from], space));
            match model::first(windows, model::is_focused()) {
                None => {
                    model::lemma_first_accepted(windows, model::is_focused());
                    assert forall|i: int| 0 <= i < windows.len() implies !(
                    #[trigger] windows[i]).is_focused by {
                        assert(!(model::is_focused())(windows[i]));
                    }
                    assert(none_is_focused(windows));
                    assert(shows_no_focus(displays[from], one, replies, 0));
                    lemma_focused_from(displays, from + 1, rest);
                    laws::each_request_has_its_reply(next, rest);
                    assert(asked =~= one + laws::requests(next, rest));
                    lemma_focus_later(
                        displays,
                        from,
                        one,
                        laws::requests(next, rest),
                        replies,
                        found,
                    );
                },
                Some(window) => {
                    let f = lemma_first_at(windows, model::is_focused());
                    assert forall|i: int| 0 <= i < f implies !(
                    #[trigger] windows[i]).is_focused by {
                        assert(!(model::is_focused())(windows[i]));
                    }
                    assert(is_focused_window(windows, f));
                    lemma_focus_found(displays, from, space, f, replies);
                },
            }
        },
    }
}

proof fn lemma_focus_found(
    displays: Seq<DisplayData>,
    from: int,
    space: u64,
    f: int,
    replies: Seq<Reply>,
)
    requires
        0 <= from < displays.len(),
        dialogue::run(rift::focused_workspace_from(displays, from), replies) is Finished,
        model::space_of(displays[from]) == Some(space),
        replies.len() > 0,
        replies[0] is Windows,
        is_focused_window(replies[0]->Windows_0@, f),
    ensures
        is_focused_workspace(
            displays,
            from,
            laws::requests(rift::focused_workspace_from(displays, from), replies),
            replies,
            dialogue::run(rift::focused_workspace_from(displays, from), replies)->Finished_0,
        ),
    decreases displays.len() - from, 0int,
{
    let program = rift::focused_workspace_from(displays, from);
    let asked = laws::requests(program, replies);
    let found = dialogue::run(program, replies)->Finished_0;
    let next = rift::focused_workspace_from(displays, from + 1);
    let windows = replies[0]->Windows_0@;
    let window = windows[f];
    model::lemma_first_found(windows, model::is_focused(), f);
    assert(shows_space(displays[from], space));
    let two = seq![RequestView::Outside(AskView::Windows { space }), asks_workspaces(space)];
    assert(replies.skip(1).len() > 0);
    assert(replies.skip(1)[0] == replies[1]);
    assert(replies.skip(1).skip(1) =~= replies.skip(2));
    let rest = replies.skip(2);
    let workspaces = replies[1]->Workspaces_0@;
    match model::first(workspaces, model::holds(window.id)) {
        None => {
            model::lemma_first_accepted(workspaces, model::holds(window.id));
            assert forall|i: int| 0 <= i < workspaces.len() implies !has_member(
                #[trigger] workspaces[i],
                window.id,
            ) by {
                assert(!(model::holds(window.id))(workspaces[i]));
            }
            assert(has_no_holder(workspaces, window.id));
            assert(shows_no_focus(displays[from], two, replies, 0));
            lemma_focused_from(displays, from + 1, rest);
            laws::each_request_has_its_reply(next, rest);
            assert(asked =~= two + laws::requests(next, rest));
            lemma_focus_later(displays, from, two, laws::requests(next, rest), replies, found);
        },
        Some(workspace) => {
            let h = lemma_first_at(workspaces, model::holds(window.id));
            assert forall|i: int| 0 <= i < h implies !has_member(
                #[trigger] workspaces[i],
                window.id,
            ) by {
                assert(!(model::holds(window.id))(workspaces[i]));
            }
            assert(asked =~= two);
            assert(is_holder(workspaces, window.id, h));
            assert(shows_focus_at(displays[from], asked, replies, found, space, f, h));
            assert(shows_focus(displays[from], asked, replies, found));
        },
    }
}

/// The focused workspace is the one that the first display shows which has a focused window in one
/// of its workspaces: the last two requests were for the windows and the workspaces of its space;
/// the window is the first focused one in the one reply, and the workspace the first with this
/// window in the other.
pub proof fn the_focused_workspace_is_where_the_focus_was_shown(
    displays: Seq<DisplayData>,
    replies: Seq<Reply>,
)
    requires
        dialogue::run(rift::focused_workspace(displays), replies) is Finished,
    ensures
        is_focused_workspace(
            displays,
            0,
            laws::requests(rift::focused_workspace(displays), replies),
            replies,
            dialogue::run(rift::focused_workspace(displays), replies)->Finished_0,
        ),
{
    lemma_focused_from(displays, 0, replies);
}

/// The focused window is the one of the focused workspace, at the display and in the workspace
/// where it was found; and it counts as focused.
pub proof fn the_focused_window_is_that_of_the_focused_workspace(
    displays: Seq<DisplayData>,
    replies: Seq<Reply>,
)
    requires
        dialogue::run(rift::focused_window(displays), replies) is Finished,
    ensures
        ({
            let asked = laws::requests(rift::focused_window(displays), replies);
            let focused = dialogue::run(rift::focused_window(displays), replies)->Finished_0;
            exists|found: FocusedWorkspaceView|
                #[trigger] is_focused_workspace(displays, 0, asked, replies, found)
                    && focused.window == found.focused_window && focused.location.display_uuid
                    == found.display_uuid && focused.location.workspace_name
                    == found.workspace.name@ && focused.location.is_focused
        }),
{
    let asked = laws::requests(rift::focused_window(displays), replies);
    let inner = laws::requests(rift::focused_workspace(displays), replies);
    assert(asked =~= inner);
    lemma_focused_from(displays, 0, replies);
}

// ---------------------------------------------------------------------------
// Questions with a yes or a no.
// ---------------------------------------------------------------------------

/// A display has the keyboard where the displays, asked for now, have one with its identifier that
/// has it.
pub proof fn a_display_is_active_as_the_displays_say(display_uuid: Seq<char>, replies: Seq<Reply>)
    requires
        replies.len() > 0,
        replies[0] is Displays,
    ensures
        laws::requests(rift::display_is_active(display_uuid), replies) == seq![
            RequestView::Outside(AskView::Displays),
        ],
        dialogue::run(rift::display_is_active(display_uuid), replies) == Outcome::Finished(
            exists|i: int|
                0 <= i < replies[0]->Displays_0@.len() && (
                #[trigger] replies[0]->Displays_0@[i]).uuid@ == display_uuid
                    && replies[0]->Displays_0@[i].is_active_context,
            replies.skip(1),
        ),
{
    assert(laws::requests(rift::display_is_active(display_uuid), replies) =~= seq![
        RequestView::Outside(AskView::Displays),
    ]);
}

/// A workspace is active where the workspaces of the destination's space, asked for now, have an
/// active one with its name.
pub proof fn a_workspace_is_active_as_the_workspaces_say(
    target: TargetView,
    workspace_name: Seq<char>,
    replies: Seq<Reply>,
)
    requires
        replies.len() > 0,
        replies[0] is Workspaces,
    ensures
        laws::requests(rift::workspace_is_active(target, workspace_name), replies) == seq![
            asks_workspaces(target.space),
        ],
        dialogue::run(rift::workspace_is_active(target, workspace_name), replies)
            == Outcome::Finished(
            exists|i: int|
                0 <= i < replies[0]->Workspaces_0@.len() && (
                #[trigger] replies[0]->Workspaces_0@[i]).name@ == workspace_name
                    && replies[0]->Workspaces_0@[i].is_active,
            replies.skip(1),
        ),
{
    assert(laws::requests(rift::workspace_is_active(target, workspace_name), replies) =~= seq![
        asks_workspaces(target.space),
    ]);
}

/// A window that no workspace of the destination's space has is nowhere there, and is not asked
/// for: it is not in the named workspace, not on the display, and not focused there.
pub proof fn a_window_without_a_workspace_is_nowhere(
    target: TargetView,
    workspace_name: Seq<char>,
    id: WindowId,
    replies: Seq<Reply>,
)
    requires
        replies.len() > 0,
        replies[0] matches Reply::Workspaces(workspaces) && has_no_holder(workspaces@, id),
    ensures
        dialogue::run(rift::window_location(target, id), replies) == Outcome::Finished(
            None::<LocationView>,
            replies.skip(1),
        ),
        dialogue::run(rift::window_is_at(target, workspace_name, id), replies)
            == Outcome::Finished(false, replies.skip(1)),
        dialogue::run(rift::window_is_on_display(target, id), replies) == Outcome::Finished(
            false,
            replies.skip(1),
        ),
        dialogue::run(rift::window_is_focused_at(target, workspace_name, id), replies)
            == Outcome::Finished(false, replies.skip(1)),
{
    lemma_holder_absent(replies[0]->Workspaces_0@, id);
}

/// A window is in the first workspace of the destination's space that has it, and focused as its
/// own reply says.
pub proof fn a_window_is_where_its_workspace_is(
    target: TargetView,
    workspace_name: Seq<char>,
    id: WindowId,
    replies: Seq<Reply>,
    at: int,
)
    requires
        replies.len() > 1,
        replies[0] matches Reply::Workspaces(workspaces) && is_holder(workspaces@, id, at),
        replies[1] is WindowInfo,
    ensures
        ({
            let name = replies[0]->Workspaces_0@[at].name@;
            let asked = seq![asks_workspaces(target.space), asks_window(id)];
            &&& laws::requests(rift::window_location(target, id), replies) == asked
            &&& dialogue::run(rift::window_location(target, id), replies) == Outcome::Finished(
                Some(
                    LocationView {
                        display_uuid: target.display_uuid,
                        workspace_name: name,
                        is_focused: replies[1]->WindowInfo_0.is_focused,
                    },
                ),
                replies.skip(2),
            )
            &&& laws::requests(rift::window_is_at(target, workspace_name, id), replies) == asked
            &&& dialogue::run(rift::window_is_at(target, workspace_name, id), replies)
                == Outcome::Finished(name == workspace_name, replies.skip(2))
        }),
{
    lemma_holder_found(replies[0]->Workspaces_0@, id, at);
    assert(replies.skip(1)[0] == replies[1]);
    assert(replies.skip(1).skip(1) =~= replies.skip(2));
    let asked = seq![asks_workspaces(target.space), asks_window(id)];
    assert(laws::requests(rift::window_location(target, id), replies) =~= asked);
    assert(laws::requests(rift::window_is_at(target, workspace_name, id), replies) =~= asked);
}

/// A window is on the display where a workspace of the destination's space has it and its frame,
/// asked for once more, is there.
pub proof fn a_window_is_on_the_display_by_its_frame(
    target: TargetView,
    id: WindowId,
    replies: Seq<Reply>,
    at: int,
)
    requires
        replies.len() > 2,
        replies[0] matches Reply::Workspaces(workspaces) && is_holder(workspaces@, id, at),
        replies[1] is WindowInfo,
        replies[2] is WindowInfo,
    ensures
        laws::requests(rift::window_is_on_display(target, id), replies) == seq![
            asks_workspaces(target.space),
            asks_window(id),
            asks_window(id),
        ],
        dialogue::run(rift::window_is_on_display(target, id), replies) == Outcome::Finished(
            shows_frame(replies[2], target.frame_validation),
            replies.skip(3),
        ),
{
    lemma_holder_found(replies[0]->Workspaces_0@, id, at);
    assert(replies.skip(1)[0] == replies[1]);
    assert(replies.skip(1).skip(1) =~= replies.skip(2));
    assert(replies.skip(2)[0] == replies[2]);
    assert(replies.skip(2).skip(1) =~= replies.skip(3));
    assert(laws::requests(rift::window_is_on_display(target, id), replies) =~= seq![
        asks_workspaces(target.space),
        asks_window(id),
        asks_window(id),
    ]);
}

/// A window is focused at a destination where the first workspace there that has it is the named
/// one, and the window, asked for once more, is focused.
pub proof fn a_window_is_focused_there_as_its_own_reply_says(
    target: TargetView,
    workspace_name: Seq<char>,
    id: WindowId,
    replies: Seq<Reply>,
    at: int,
)
    requires
        replies.len() > 2,
        replies[0] matches Reply::Workspaces(workspaces) && is_holder(workspaces@, id, at),
        replies[1] is WindowInfo,
        replies[2] is WindowInfo,
    ensures
        ({
            let there = replies[0]->Workspaces_0@[at].name@ == workspace_name;
            let asked = seq![asks_workspaces(target.space), asks_window(id)];
            let program = rift::window_is_focused_at(target, workspace_name, id);
            if there {
                laws::requests(program, replies) == asked.push(asks_window(id)) && dialogue::run(
                    program,
                    replies,
                ) == Outcome::Finished(replies[2]->WindowInfo_0.is_focused, replies.skip(3))
            } else {
                laws::requests(program, replies) == asked && dialogue::run(program, replies)
                    == Outcome::Finished(false, replies.skip(2))
            }
        }),
{
    a_window_is_where_its_workspace_is(target, workspace_name, id, replies, at);
    assert(replies.skip(2)[0] == replies[2]);
    assert(replies.skip(2).skip(1) =~= replies.skip(3));
    let program = rift::window_is_focused_at(target, workspace_name, id);
    let asked = seq![asks_workspaces(target.space), asks_window(id)];
    if replies[0]->Workspaces_0@[at].name@ == workspace_name {
        assert(laws::requests(program, replies) =~= asked.push(asks_window(id)));
    } else {
        assert(laws::requests(program, replies) =~= asked);
    }
}

/// Windows are all at a destination where the first workspace with the name has each of them and
/// each of their frames, asked for in turn, is on the display.
pub proof fn windows_are_there_where_each_is_shown_there(
    target: TargetView,
    workspace_name: Seq<char>,
    ids: Seq<WindowId>,
    replies: Seq<Reply>,
    at: int,
)
    requires
        replies.len() > ids.len(),
        replies[0] matches Reply::Workspaces(workspaces) && is_workspace(
            workspaces@,
            workspace_name,
            at,
        ) && forall|i: int|
            0 <= i < ids.len() ==> has_member(workspaces@[at], #[trigger] ids[i]) && shows_frame(
                replies[i + 1],
                target.frame_validation,
            ),
    ensures
        dialogue::run(rift::windows_are_at(target, workspace_name, ids), replies)
            == Outcome::Finished(true, replies.skip(ids.len() as int + 1)),
{
    let workspaces = replies[0]->Workspaces_0@;
    lemma_workspace_found(workspaces, workspace_name, at);
    assert(replies.skip(1 + 0int) =~= replies.skip(1));
    lemma_placed_from(target, workspaces[at], ids, 0, replies);
}

proof fn lemma_placed_from(
    target: TargetView,
    workspace: WorkspaceData,
    ids: Seq<WindowId>,
    from: int,
    replies: Seq<Reply>,
)
    requires
        0 <= from <= ids.len() < replies.len(),
        forall|i: int|
            0 <= i < ids.len() ==> has_member(workspace, #[trigger] ids[i]) && shows_frame(
                replies[i + 1],
                target.frame_validation,
            ),
    ensures
        dialogue::run(
            rift::windows_are_placed_from(target, workspace.windows@, ids, from),
            replies.skip(from + 1),
        ) == Outcome::Finished(true, replies.skip(ids.len() as int + 1)),
    decreases ids.len() - from,
{
    if from < ids.len() {
        let rest = replies.skip(from + 1);
        assert(has_member(workspace, ids[from]));
        assert(model::has_window(workspace.windows@, ids[from]));
        assert(rest[0] == replies[from + 1]);
        assert(rest.skip(1) =~= replies.skip(from + 2));
        lemma_placed_from(target, workspace, ids, from + 1, replies);
    }
}

/// Windows that were found at a destination are each in the first workspace with the name, and
/// each of their frames, asked for in turn, is on the display.
pub proof fn windows_that_are_there_are_each_shown_there(
    target: TargetView,
    workspace_name: Seq<char>,
    ids: Seq<WindowId>,
    replies: Seq<Reply>,
) -> (at: int)
    requires
        dialogue::run(rift::windows_are_at(target, workspace_name, ids), replies) matches
            Outcome::Finished(there, _) && there,
    ensures
        replies.len() > ids.len(),
        replies[0] matches Reply::Workspaces(workspaces) && is_workspace(
            workspaces@,
            workspace_name,
            at,
        ) && forall|i: int|
            0 <= i < ids.len() ==> has_member(workspaces@[at], #[trigger] ids[i]) && shows_frame(
                replies[i + 1],
                target.frame_validation,
            ),
        laws::requests(rift::windows_are_at(target, workspace_name, ids), replies) == seq![
            asks_workspaces(target.space),
        ] + Seq::new(ids.len(), |i: int| asks_window(ids[i])),
{
    looking::windows_at_a_destination_are_members_on_its_display(
        target,
        workspace_name,
        ids,
        replies,
    );
    looking::windows_at_a_destination_are_asked_for(target, workspace_name, ids, replies);
    let workspaces = replies[0]->Workspaces_0@;
    let at = lemma_first_at(workspaces, model::has_name(workspace_name));
    assert forall|i: int| 0 <= i < at implies (#[trigger] workspaces[i]).name@
        != workspace_name by {
        assert(!(model::has_name(workspace_name))(workspaces[i]));
    }
    assert forall|i: int| 0 <= i < ids.len() implies has_member(workspaces[at], #[trigger] ids[i])
        && shows_frame(replies[i + 1], target.frame_validation) by {
        assert(model::has_window(workspaces[at].windows@, ids[i]));
        assert(looking::shows_on_display(target, replies[i + 1]));
    }
    assert(looking::asking_for(ids) =~= Seq::new(ids.len(), |i: int| asks_window(ids[i])));
    at
}

// ---------------------------------------------------------------------------
// Commands.
// ---------------------------------------------------------------------------

/// What the commands are made of.
pub proof fn commands_name_their_window_and_destination(
    target: TargetView,
    window: WindowData,
    windows: Seq<WindowData>,
    follow: bool,
)
    ensures
        rift::focus_of(window) == (CommandView::FocusWindow {
            window_id: window.id,
            window_server_id: window.window_server_id,
        }),
        target.focus_anchor matches Some(anchor) ==> rift::focus_destination(target) == (
        CommandView::FocusWindow {
            window_id: anchor.id,
            window_server_id: anchor.window_server_id,
        }),
        target.focus_anchor is None ==> rift::focus_destination(target) == (
        CommandView::MoveMouseToDisplay { display_uuid: target.display_uuid }),
        rift::activation_of(target) == (CommandView::SwitchToWorkspace {
            workspace_index: target.workspace_index,
        }),
        rift::transfer_of(target, window) == (CommandView::MoveWindowToDisplay {
            display_uuid: target.display_uuid,
            window_index: window.id.idx,
        }),
        rift::placement_of(target, window, follow) == (CommandView::MoveWindowToWorkspace {
            workspace_index: target.workspace_index,
            follow,
            window_index: window.id.idx,
        }),
        rift::placements_of(target, windows).len() == windows.len(),
        forall|i: int|
            0 <= i < windows.len() ==> #[trigger] rift::placements_of(target, windows)[i] == (
            CommandView::MoveWindowToWorkspace {
                workspace_index: target.workspace_index,
                follow: false,
                window_index: windows[i].id.idx,
            }),
{
}

} // verus!
