//! What a command that has succeeded has brought about, in terms of what was asked and replied.
use crate::dialogue;
use crate::dialogue::{AskView, Program, Reply, RequestView};
use crate::laws;
use crate::laws::{command_line, moving, placing, queries};
use crate::model;
use crate::model::{DisplayData, WindowData, WindowId};
use crate::rift;
use crate::rift::{FocusedWorkspaceView, TargetView};
use crate::space_escape;
use crate::workflow;
use crate::workflow::move_workspace_to_display;
use crate::workflow::move_workspace_to_display::{Departure, MoveWorkspaceView};
use crate::workflow::DisplayDirection;
use vstd::prelude::*;

verus! {

/// Whether these displays are the reply to the request here.
pub open spec fn reported_at(
    asked: Seq<RequestView>,
    replies: Seq<Reply>,
    displays: Seq<DisplayData>,
    at: int,
) -> bool {
    &&& 0 <= at < asked.len()
    &&& at < replies.len()
    &&& asked[at] == RequestView::Outside(AskView::Displays) || asked[at] is Watch
    &&& replies[at] matches Reply::Displays(found) && found@ == displays
}

/// Whether these displays were reported.
pub open spec fn reported(
    asked: Seq<RequestView>,
    replies: Seq<Reply>,
    displays: Seq<DisplayData>,
) -> bool {
    exists|at: int| reported_at(asked, replies, displays, at)
}

/// Whether a destination is, out of these displays, the workspace at `place` in the reply to the
/// request at `at`, and on the display at `display`.
pub open spec fn read_at(
    asked: Seq<RequestView>,
    replies: Seq<Reply>,
    displays: Seq<DisplayData>,
    target: TargetView,
    workspace_name: Seq<char>,
    display_uuid: Seq<char>,
    display: int,
    at: int,
    place: int,
) -> bool {
    &&& queries::is_display(displays, display_uuid, display)
    &&& queries::shows_space(displays[display], target.space)
    &&& 0 <= at < asked.len()
    &&& at < replies.len()
    &&& asked[at] == queries::asks_workspaces(target.space)
    &&& replies[at] matches Reply::Workspaces(workspaces) && queries::is_workspace(
        workspaces@,
        workspace_name,
        place,
    ) && queries::is_destination(
        target,
        displays[display],
        displays,
        target.space,
        workspaces@,
        place,
    )
}

/// Whether a destination was read out of these displays.
pub open spec fn read_from(
    asked: Seq<RequestView>,
    replies: Seq<Reply>,
    displays: Seq<DisplayData>,
    target: TargetView,
    workspace_name: Seq<char>,
    display_uuid: Seq<char>,
) -> bool {
    exists|display: int, at: int, place: int|
        read_at(
            asked,
            replies,
            displays,
            target,
            workspace_name,
            display_uuid,
            display,
            at,
            place,
        )
}

/// Whether a destination is the first workspace with the name, in a reply for the space that the
/// first display with the identifier shows, out of displays that were reported.
pub open spec fn is_read(
    asked: Seq<RequestView>,
    replies: Seq<Reply>,
    target: TargetView,
    workspace_name: Seq<char>,
    display_uuid: Seq<char>,
) -> bool {
    exists|displays: Seq<DisplayData>|
        #[trigger] reported(asked, replies, displays) && read_from(
            asked,
            replies,
            displays,
            target,
            workspace_name,
            display_uuid,
        )
}

/// Displays that were reported are reported so.
pub proof fn lemma_reported(
    asked: Seq<RequestView>,
    replies: Seq<Reply>,
    displays: Seq<DisplayData>,
)
    requires
        laws::were_reported(asked, replies, displays),
    ensures
        reported(asked, replies, displays),
{
    broadcast use {dialogue::group_run, laws::group_requests};

    if laws::did(asked, replies, rift::displays(), displays) {
        let at = choose|at: int| laws::did_at(asked, replies, rift::displays(), displays, at);
        lemma_single_request(asked, replies, rift::displays(), displays, at);
    } else {
        let uuid = choose|uuid: Seq<char>|
            laws::did(
                asked,
                replies,
                #[trigger] space_escape::await_managed_space(uuid),
                Some(displays),
            );
        let watching = space_escape::await_managed_space(uuid);
        let at = choose|at: int| laws::did_at(asked, replies, watching, Some(displays), at);
        lemma_single_request(asked, replies, watching, Some(displays), at);
        assert(reported_at(asked, replies, displays, at));
    }
    if laws::did(asked, replies, rift::displays(), displays) {
        let at = choose|at: int| laws::did_at(asked, replies, rift::displays(), displays, at);
        assert(reported_at(asked, replies, displays, at));
    }
}

proof fn lemma_single_request<A>(
    asked: Seq<RequestView>,
    replies: Seq<Reply>,
    program: Program<A>,
    value: A,
    at: int,
)
    requires
        laws::did_at(asked, replies, program, value, at),
        program is Ask,
    ensures
        0 <= at < asked.len(),
        at < replies.len(),
        asked[at] == program->Ask_0,
        replies.skip(at)[0] == replies[at],
        laws::requests(program, replies.skip(at)).len() > 0,
        asked[at] == laws::requests(program, replies.skip(at))[0],
{
    let own = laws::requests(program, replies.skip(at));
    assert(asked.subrange(at, at + own.len())[0] == asked[at]);
}

/// A destination that was read is read so.
pub proof fn lemma_read(
    asked: Seq<RequestView>,
    replies: Seq<Reply>,
    target: TargetView,
    workspace_name: Seq<char>,
    display_uuid: Seq<char>,
)
    requires
        laws::was_read(asked, replies, target, workspace_name, display_uuid),
    ensures
        is_read(asked, replies, target, workspace_name, display_uuid),
{
    let displays = choose|displays: Seq<DisplayData>|
        laws::were_reported(asked, replies, displays) && laws::did(
            asked,
            replies,
            #[trigger] rift::target_context(workspace_name, display_uuid, displays),
            target,
        );
    lemma_reported(asked, replies, displays);
    lemma_read_from(asked, replies, displays, target, workspace_name, display_uuid);
}

/// A destination that was looked for in displays is read from them.
pub proof fn lemma_read_from(
    asked: Seq<RequestView>,
    replies: Seq<Reply>,
    displays: Seq<DisplayData>,
    target: TargetView,
    workspace_name: Seq<char>,
    display_uuid: Seq<char>,
)
    requires
        laws::did(
            asked,
            replies,
            rift::target_context(workspace_name, display_uuid, displays),
            target,
        ),
    ensures
        read_from(asked, replies, displays, target, workspace_name, display_uuid),
{
    let context = rift::target_context(workspace_name, display_uuid, displays);
    let at = choose|at: int| laws::did_at(asked, replies, context, target, at);
    let look = replies.skip(at);
    let (display, place) = queries::a_destination_that_was_found_is_the_named_workspace(
        workspace_name,
        display_uuid,
        displays,
        look,
    );
    let own = laws::requests(context, look);
    assert(asked.subrange(at, at + own.len())[0] == asked[at]);
    assert(look[0] == replies[at]);
    assert(read_at(
        asked,
        replies,
        displays,
        target,
        workspace_name,
        display_uuid,
        display,
        at,
        place,
    ));
}

/// Whether the last two requests were for the workspaces of a destination's space and for a
/// window, and their replies show the window in the named workspace, and focused.
pub open spec fn window_ended_in(
    asked: Seq<RequestView>,
    replies: Seq<Reply>,
    target: TargetView,
    workspace_name: Seq<char>,
    id: WindowId,
) -> bool {
    let last = asked.len() - 1;
    &&& 2 <= asked.len() <= replies.len()
    &&& asked[last - 1] == queries::asks_workspaces(target.space)
    &&& asked[last] == queries::asks_window(id)
    &&& shows_focused_in(replies[last - 1], replies[last], workspace_name, id)
}

/// Whether the first of two replies shows a window in the named workspace, and the second shows it
/// focused.
pub open spec fn shows_focused_in(
    workspaces: Reply,
    window: Reply,
    workspace_name: Seq<char>,
    id: WindowId,
) -> bool {
    &&& workspaces is Workspaces
    &&& exists|h: int|
        #[trigger] queries::is_holder(workspaces->Workspaces_0@, id, h)
            && workspaces->Workspaces_0@[h].name@ == workspace_name
    &&& window is WindowInfo
    &&& window->WindowInfo_0.is_focused
}

proof fn lemma_shows_focused(
    workspaces: Reply,
    window: Reply,
    workspace_name: Seq<char>,
    id: WindowId,
)
    requires
        workspaces matches Reply::Workspaces(found) && model::first(found@, model::holds(id))
            matches Some(workspace) && workspace.name@ == workspace_name,
        window matches Reply::WindowInfo(window) && window.is_focused,
    ensures
        shows_focused_in(workspaces, window, workspace_name, id),
{
    let found = workspaces->Workspaces_0@;
    let h = queries::lemma_first_at(found, model::holds(id));
    assert forall|i: int| 0 <= i < h implies !queries::has_member(#[trigger] found[i], id) by {
        assert(!(model::holds(id))(found[i]));
    }
    assert(queries::is_holder(found, id, h));
}

/// A window that ended in place ended so.
pub proof fn lemma_window_ended(
    asked: Seq<RequestView>,
    replies: Seq<Reply>,
    target: TargetView,
    workspace_name: Seq<char>,
    id: WindowId,
)
    requires
        placing::ended_in_place(asked, replies, target, workspace_name, id),
    ensures
        window_ended_in(asked, replies, target, workspace_name, id),
{
    let last = asked.len() - 1;
    lemma_shows_focused(replies[last - 1], replies[last], workspace_name, id);
}

// ---------------------------------------------------------------------------
// Moving a workspace.
// ---------------------------------------------------------------------------

/// Whether the requests from this one on, which are the last, were for the workspaces of a
/// destination's space, for each of the windows, and then twice for the window that was focused;
/// and their replies show each of the windows in the named workspace and on the display, and the
/// window that was focused there, and focused.
pub open spec fn workspace_shown_from(
    asked: Seq<RequestView>,
    replies: Seq<Reply>,
    target: TargetView,
    workspace_name: Seq<char>,
    windows: Seq<WindowData>,
    focused: WindowId,
    from: int,
) -> bool {
    let count = windows.len() as int;
    &&& 0 <= from
    &&& from + count + 4 == asked.len() <= replies.len()
    &&& asked[from] == queries::asks_workspaces(target.space)
    &&& forall|i: int|
        0 <= i < count ==> asked[from + 1 + i] == queries::asks_window((#[trigger] windows[i]).id)
    &&& asked[from + count + 1] == queries::asks_workspaces(target.space)
    &&& asked[from + count + 2] == queries::asks_window(focused)
    &&& asked[from + count + 3] == queries::asks_window(focused)
    &&& replies[from] is Workspaces
    &&& exists|w: int|
        #[trigger] queries::is_workspace(replies[from]->Workspaces_0@, workspace_name, w)
            && forall|i: int|
            0 <= i < count ==> queries::has_member(
                replies[from]->Workspaces_0@[w],
                (#[trigger] windows[i]).id,
            ) && queries::shows_frame(replies[from + 1 + i], target.frame_validation)
    &&& shows_focused_in(
        replies[from + count + 1],
        replies[from + count + 3],
        workspace_name,
        focused,
    )
}

/// Whether the last that was asked shows all of the windows at the destination.
pub open spec fn workspace_ended_in(
    asked: Seq<RequestView>,
    replies: Seq<Reply>,
    target: TargetView,
    workspace_name: Seq<char>,
    windows: Seq<WindowData>,
    focused: WindowId,
) -> bool {
    exists|from: int|
        workspace_shown_from(
            asked,
            replies,
            target,
            workspace_name,
            windows,
            focused,
            from,
        )
}

proof fn lemma_workspace_ended(
    asked: Seq<RequestView>,
    replies: Seq<Reply>,
    work: MoveWorkspaceView,
)
    requires
        moving::ended_complete(asked, replies, work),
    ensures
        workspace_ended_in(
            asked,
            replies,
            work.target,
            work.workspace_name,
            work.windows,
            work.focused_window.id,
        ),
{
    let required = move_workspace_to_display::requirement(work);
    let at = choose|at: int|
        #[trigger] laws::did_at(asked, replies, required, (), at) && at + laws::requests(
            required,
            replies.skip(at),
        ).len() == asked.len();
    let look = replies.skip(at);
    let own = laws::requests(required, look);
    moving::the_requirement_shows_the_workspace_complete(work, look);
    let ids = model::ids_of(work.windows);
    let count = work.windows.len() as int;
    assert(ids.len() == count);
    assert(own.len() == count + 4);
    assert forall|i: int| 0 <= i < own.len() implies #[trigger] own[i] == asked[at + i] by {
        assert(asked.subrange(at, at + own.len())[i] == asked[at + i]);
    }
    assert(own[0] == asked[at + 0]);
    assert(own[count + 1] == asked[at + count + 1]);
    assert(own[count + 2] == asked[at + count + 2]);
    assert(own[count + 3] == asked[at + count + 3]);
    assert forall|i: int| 0 <= i < count implies asked[at + 1 + i] == queries::asks_window(
        (#[trigger] work.windows[i]).id,
    ) by {
        assert(own[i + 1] == asked[at + (i + 1)]);
        assert(ids[i] == work.windows[i].id);
    }
    assert(look[0] == replies[at]);
    assert(look[count + 1] == replies[at + count + 1]);
    assert(look[count + 3] == replies[at + count + 3]);
    let workspaces = replies[at]->Workspaces_0@;
    let named = model::has_name(work.workspace_name);
    let w = queries::lemma_first_at(workspaces, named);
    assert forall|i: int| 0 <= i < w implies (#[trigger] workspaces[i]).name@
        != work.workspace_name by {
        assert(!named(workspaces[i]));
    }
    assert(queries::is_workspace(workspaces, work.workspace_name, w));
    assert forall|i: int| 0 <= i < count implies queries::has_member(
        workspaces[w],
        (#[trigger] work.windows[i]).id,
    ) && queries::shows_frame(replies[at + 1 + i], work.target.frame_validation) by {
        assert(ids[i] == work.windows[i].id);
        assert(model::has_window(workspaces[w].windows@, ids[i]));
        assert(look[i + 1] == replies[at + 1 + i]);
    }
    lemma_shows_focused(
        replies[at + count + 1],
        replies[at + count + 3],
        work.workspace_name,
        work.focused_window.id,
    );
    assert(workspace_shown_from(
        asked,
        replies,
        work.target,
        work.workspace_name,
        work.windows,
        work.focused_window.id,
        at,
    ));
}

/// Whether, from the third request on, this workspace was found to be the focused one among the
/// displays, by so many requests.
pub open spec fn focus_found_by(
    asked: Seq<RequestView>,
    replies: Seq<Reply>,
    displays: Seq<DisplayData>,
    source: FocusedWorkspaceView,
    from: int,
    count: int,
) -> bool {
    &&& 0 <= from
    &&& 0 <= count
    &&& from + count <= asked.len()
    &&& from <= replies.len()
    &&& queries::is_focused_workspace(
        displays,
        0,
        asked.subrange(from, from + count),
        replies.skip(from),
        source,
    )
}

/// Whether a command began by connecting and reading these displays.
pub open spec fn begins_with_displays(
    asked: Seq<RequestView>,
    replies: Seq<Reply>,
    displays: Seq<DisplayData>,
) -> bool {
    &&& asked.len() >= 2
    &&& replies.len() >= 2
    &&& asked[0] == RequestView::Outside(AskView::Connect)
    &&& asked[1] == RequestView::Outside(AskView::Displays)
    &&& replies[1] matches Reply::Displays(found) && found@ == displays
}

/// Whether the windows of a workspace ended on the display beside that of the workspace, in the
/// workspace with the same name: the last that was asked shows them there, with the focus kept.
pub open spec fn arrived_beside(
    asked: Seq<RequestView>,
    replies: Seq<Reply>,
    displays: Seq<DisplayData>,
    source: FocusedWorkspaceView,
    direction: DisplayDirection,
) -> bool {
    exists|at: int, target: TargetView|
        #[trigger] queries::is_display(displays, source.display_uuid, at) && #[trigger] is_read(
            asked,
            replies,
            target,
            source.workspace.name@,
            displays[command_line::place_beside(at, direction, displays.len() as int)].uuid@,
        ) && (workspace_ended_in(
            asked,
            replies,
            target,
            source.workspace.name@,
            source.workspace.windows@,
            source.focused_window.id,
        ) || source.workspace.windows@.len() == 1 && window_ended_in(
            asked,
            replies,
            target,
            source.workspace.name@,
            source.focused_window.id,
        ))
}

proof fn lemma_departure_parts(direction: DisplayDirection, replies: Seq<Reply>)
    requires
        dialogue::run(move_workspace_to_display::departure(direction), replies) is Finished,
    ensures
        replies.len() > 1,
        replies[1] is Displays,
        ({
            let displays = replies[1]->Displays_0@;
            let asked = laws::requests(move_workspace_to_display::departure(direction), replies);
            let finding = rift::focused_workspace(displays);
            let outcome = dialogue::run(finding, replies.skip(2));
            let source = outcome->Finished_0;
            let found = laws::requests(finding, replies.skip(2));
            let start = seq![
                RequestView::Outside(AskView::Connect),
                RequestView::Outside(AskView::Displays),
            ];
            let departure = dialogue::run(
                move_workspace_to_display::departure(direction),
                replies,
            )->Finished_0;
            &&& outcome is Finished
            &&& match workflow::neighbour(displays, source.display_uuid, direction) {
                Ok(Some(display)) => departure is Some && departure->0.source == source
                    && departure->0.target.display_uuid == display.uuid@ && asked == start + (found
                    + laws::requests(
                    rift::target_context(source.workspace.name@, display.uuid@, displays),
                    laws::left_over(outcome),
                )),
                Ok(None) => departure is None && asked == start + found,
                Err(_) => false,
            }
        }),
{
    broadcast use {dialogue::group_run, laws::group_requests};

    assert(replies.len() > 1);
    assert(replies.skip(1)[0] == replies[1]);
    assert(replies.skip(1).skip(1) =~= replies.skip(2));
    let displays = replies[1]->Displays_0@;
    let finding = rift::focused_workspace(displays);
    let outcome = dialogue::run(finding, replies.skip(2));
    let source = outcome->Finished_0;
    match workflow::neighbour(displays, source.display_uuid, direction) {
        Ok(Some(display)) => {
            crate::laws::looking::a_destination_is_on_its_display(
                source.workspace.name@,
                display.uuid@,
                displays,
                laws::left_over(outcome),
            );
        },
        _ => {},
    }
}

/// `move-workspace-to-display` that has succeeded began by reading the displays and finding the
/// focused workspace. With fewer than two displays it did no more. Else the windows of that
/// workspace ended on the display beside it, in the workspace with the same name, whether or not
/// that was active: the last that was asked shows each of them there, and the window that was
/// focused focused.
pub proof fn a_moved_workspace_arrives_beside(direction: DisplayDirection, replies: Seq<Reply>)
    requires
        dialogue::run(
            move_workspace_to_display::move_workspace_program(direction),
            replies,
        ) is Finished,
    ensures
        ({
            let asked = laws::requests(
                move_workspace_to_display::move_workspace_program(direction),
                replies,
            );
            let displays = replies[1]->Displays_0@;
            let source = dialogue::run(
                rift::focused_workspace(displays),
                replies.skip(2),
            )->Finished_0;
            let found = laws::requests(rift::focused_workspace(displays), replies.skip(2));
            &&& begins_with_displays(asked, replies, displays)
            &&& focus_found_by(asked, replies, displays, source, 2, found.len() as int)
            &&& if displays.len() < 2 {
                asked.len() == 2 + found.len()
            } else {
                arrived_beside(asked, replies, displays, source, direction)
            }
        }),
{
    let whole = move_workspace_to_display::move_workspace_program(direction);
    let asked = laws::requests(whole, replies);
    let departing = move_workspace_to_display::departure(direction);
    moving::move_workspace_ends_complete(direction, replies);
    lemma_departure_parts(direction, replies);
    let displays = replies[1]->Displays_0@;
    let finding = rift::focused_workspace(displays);
    let source = dialogue::run(finding, replies.skip(2))->Finished_0;
    let found = laws::requests(finding, replies.skip(2));
    queries::the_focused_workspace_is_where_the_focus_was_shown(displays, replies.skip(2));
    command_line::the_neighbour_stands_beside_the_display(
        displays,
        source.display_uuid,
        direction,
    );
    let start = seq![
        RequestView::Outside(AskView::Connect),
        RequestView::Outside(AskView::Displays),
    ];
    lemma_departure_first(direction, replies);
    let later = asked.skip(laws::requests(departing, replies).len() as int);
    assert(asked == laws::requests(departing, replies) + later);
    assert(asked[0] == start[0] && asked[1] == start[1]);
    assert(asked.subrange(2, 2 + found.len() as int) =~= found);
    if displays.len() >= 2 {
        let departure = dialogue::run(departing, replies)->Finished_0->0;
        assert(exists|i: int| 0 <= i < displays.len() && (#[trigger] displays[i]).uuid@
            == source.display_uuid);
        let at = lemma_stands(displays, source.display_uuid);
        lemma_arrived_beside(asked, replies, departure, direction, at);
    }
}

/// A display that is there first stands somewhere.
pub proof fn lemma_stands(displays: Seq<DisplayData>, uuid: Seq<char>) -> (at: int)
    requires
        exists|i: int| 0 <= i < displays.len() && (#[trigger] displays[i]).uuid@ == uuid,
    ensures
        queries::is_display(displays, uuid, at),
{
    let i = choose|i: int| 0 <= i < displays.len() && (#[trigger] displays[i]).uuid@ == uuid;
    let named = model::has_uuid(uuid);
    assert(named(displays[i]));
    model::lemma_first_accepted(displays, named);
    queries::lemma_found_display(displays, uuid)
}

proof fn lemma_departure_first(direction: DisplayDirection, replies: Seq<Reply>)
    requires
        dialogue::run(move_workspace_to_display::departure(direction), replies) is Finished,
    ensures
        ({
            let asked = laws::requests(
                move_workspace_to_display::move_workspace_program(direction),
                replies,
            );
            let departed = laws::requests(
                move_workspace_to_display::departure(direction),
                replies,
            );
            departed.len() <= asked.len() && asked == departed + asked.skip(departed.len() as int)
        }),
{
    laws::lemma_requests_bind(
        move_workspace_to_display::departure(direction),
        |found: Option<Departure>|
            match found {
                None => Program::Return(()),
                Some(departure) => move_workspace_to_display::move_of(departure),
            },
        replies,
    );
    let asked = laws::requests(
        move_workspace_to_display::move_workspace_program(direction),
        replies,
    );
    let departed = laws::requests(move_workspace_to_display::departure(direction), replies);
    assert(departed + asked.skip(departed.len() as int) =~= asked);
}

proof fn lemma_arrived_beside(
    asked: Seq<RequestView>,
    replies: Seq<Reply>,
    departure: Departure,
    direction: DisplayDirection,
    at: int,
)
    requires
        replies.len() > 1,
        replies[1] is Displays,
        queries::is_display(replies[1]->Displays_0@, departure.source.display_uuid, at),
        departure.target.display_uuid == replies[1]->Displays_0@[command_line::place_beside(
            at,
            direction,
            replies[1]->Displays_0@.len() as int,
        )].uuid@,
        moving::arrived(asked, replies, departure),
        laws::was_read(
            asked,
            replies,
            departure.target,
            departure.source.workspace.name@,
            departure.target.display_uuid,
        ),
    ensures
        arrived_beside(
            asked,
            replies,
            replies[1]->Displays_0@,
            departure.source,
            direction,
        ),
{
    let name = departure.source.workspace.name@;
    let uuid = departure.target.display_uuid;
    let displays = replies[1]->Displays_0@;
    lemma_read(asked, replies, departure.target, name, uuid);
    if departure.source.workspace.windows@.len() == 1 && placing::ended_in_place(
        asked,
        replies,
        departure.target,
        name,
        departure.source.focused_window.id,
    ) {
        lemma_window_ended(
            asked,
            replies,
            departure.target,
            name,
            departure.source.focused_window.id,
        );
    } else {
        let work = choose|work: MoveWorkspaceView|
            moving::is_move_of(work, departure) && #[trigger] moving::ended_complete(
                asked,
                replies,
                work,
            ) && (work.target == departure.target || departure.source.workspace.windows@.len() == 1
                && laws::was_read(asked, replies, work.target, name, uuid));
        lemma_workspace_ended(asked, replies, work);
        if work.target != departure.target {
            lemma_read(asked, replies, work.target, name, uuid);
        }
        assert(is_read(asked, replies, work.target, name, uuid));
    }
}

} // verus!
