//! How a command fails, and what a failure tells.
use crate::cli;
use crate::cli::InvocationView;
use crate::dialogue;
use crate::dialogue::{AskView, Outcome, Reply, RequestView};
use crate::error::{ErrorKind, ErrorView};
use crate::laws;
use crate::model;
use crate::model::{DisplayData, WindowData};
use crate::policy;
use crate::rift;
use crate::rift::TargetView;
use crate::space_escape;
use crate::text;
use crate::transaction;
use crate::workflow;
use crate::workflow::move_workspace_to_display as moves;
use crate::workflow::move_workspace_to_display::{Departure, MoveWorkspaceView};
use crate::workflow::rehome;
use crate::workflow::rehome::{GroupView, SourceView};
use crate::workflow::{
    move_follow, move_window_to_display, placement, switch_workspace, switch_workspace_both,
    DisplayDirection,
};
use vstd::prelude::*;

verus! {

/// A failure of Rift's state, told in these words.
pub open spec fn told(message: Seq<char>) -> ErrorView {
    ErrorView { kind: ErrorKind::Other, message }
}

// ---------------------------------------------------------------------------
// Connecting.
// ---------------------------------------------------------------------------

/// Connecting asks for a connection, and succeeds exactly where Rift's service answers on it.
pub proof fn connecting_needs_the_service(replies: Seq<Reply>)
    ensures
        replies.len() == 0 ==> dialogue::run(rift::connect(), replies) == Outcome::<()>::Waiting(
            RequestView::Outside(AskView::Connect),
        ),
        replies.len() > 0 && replies[0] == (Reply::Connected { available: true }) ==> dialogue::run(
            rift::connect(),
            replies,
        ) == Outcome::Finished((), replies.skip(1)),
        replies.len() > 0 && replies[0] == (Reply::Connected { available: false })
            ==> dialogue::run(rift::connect(), replies) == Outcome::<()>::Failed(
            ErrorView {
                kind: ErrorKind::NotConnected,
                message: "Rift's Mach service is unavailable"@,
            },
            replies.skip(1),
        ),
        dialogue::run(rift::connect(), replies) is Finished ==> replies[0] == (Reply::Connected {
            available: true,
        }),
{
    broadcast use dialogue::group_run;

}

/// Every command but the one for help connects first, and does nothing where Rift's service does
/// not answer.
pub proof fn every_command_connects_first(invocation: InvocationView, replies: Seq<Reply>)
    requires
        !(invocation is Help),
    ensures
        replies.len() == 0 ==> dialogue::run(cli::program_of(invocation), replies)
            == Outcome::<()>::Waiting(RequestView::Outside(AskView::Connect)),
        replies.len() > 0 && replies[0] == (Reply::Connected { available: false })
            ==> dialogue::run(cli::program_of(invocation), replies) == Outcome::<()>::Failed(
            ErrorView {
                kind: ErrorKind::NotConnected,
                message: "Rift's Mach service is unavailable"@,
            },
            replies.skip(1),
        ),
        dialogue::run(cli::program_of(invocation), replies) is Finished ==> replies.len() > 0
            && replies[0] == (Reply::Connected { available: true }),
{
    broadcast use dialogue::group_run;

    connecting_needs_the_service(replies);
    reveal(rehome::errand);
}

// ---------------------------------------------------------------------------
// Verifying.
// ---------------------------------------------------------------------------

/// A window that was moved is verified exactly where it is found in the workspace, on the display,
/// and focused. One that is not found has disappeared; one that is found elsewhere is reported with
/// both places.
pub proof fn a_moved_window_is_verified_by_its_place(
    target: TargetView,
    workspace_name: Seq<char>,
    window: WindowData,
    replies: Seq<Reply>,
)
    ensures
        ({
            let outcome = dialogue::run(
                placement::target_verification(target, workspace_name, window),
                replies,
            );
            match dialogue::run(rift::window_location(target, window.id), replies) {
                Outcome::Waiting(request) => outcome == Outcome::<()>::Waiting(request),
                Outcome::Failed(failure, rest) => outcome == Outcome::<()>::Failed(failure, rest),
                Outcome::Finished(None, rest) => outcome == Outcome::<()>::Failed(
                    told("window disappeared after move"@),
                    rest,
                ),
                Outcome::Finished(Some(location), rest) => if location.workspace_name
                    == workspace_name && location.display_uuid == target.display_uuid
                    && location.is_focused {
                    outcome == Outcome::Finished((), rest)
                } else {
                    outcome == Outcome::<()>::Failed(
                        told(
                            "final placement mismatch: expected "@ + workspace_name + " on "@
                                + target.display_uuid + ", got "@ + location.workspace_name
                                + " on "@ + location.display_uuid,
                        ),
                        rest,
                    )
                },
            }
        }),
{
    broadcast use dialogue::group_run;

}

/// A moved workspace is verified exactly where all its windows are found at the destination and the
/// window that was focused is found focused there; what is not so is reported.
pub proof fn a_moved_workspace_is_verified_by_its_windows(
    work: MoveWorkspaceView,
    replies: Seq<Reply>,
)
    ensures
        ({
            let outcome = dialogue::run(moves::requirement(work), replies);
            let ids = Seq::new(work.windows.len(), |i: int| work.windows[i].id);
            match dialogue::run(
                rift::windows_are_at(work.target, work.workspace_name, ids),
                replies,
            ) {
                Outcome::Waiting(request) => outcome == Outcome::<()>::Waiting(request),
                Outcome::Failed(failure, rest) => outcome == Outcome::<()>::Failed(failure, rest),
                Outcome::Finished(false, rest) => outcome == Outcome::<()>::Failed(
                    told(
                        "not every window reached workspace "@ + work.workspace_name + " on "@
                            + work.target.display_uuid,
                    ),
                    rest,
                ),
                Outcome::Finished(true, later) => match dialogue::run(
                    rift::window_is_focused_at(
                        work.target,
                        work.workspace_name,
                        work.focused_window.id,
                    ),
                    later,
                ) {
                    Outcome::Waiting(request) => outcome == Outcome::<()>::Waiting(request),
                    Outcome::Failed(failure, rest) => outcome == Outcome::<()>::Failed(
                        failure,
                        rest,
                    ),
                    Outcome::Finished(false, rest) => outcome == Outcome::<()>::Failed(
                        told("original workspace focus was not restored"@),
                        rest,
                    ),
                    Outcome::Finished(true, rest) => outcome == Outcome::Finished((), rest),
                },
            }
        }),
{
    broadcast use dialogue::group_run;

    let ids = Seq::new(work.windows.len(), |i: int| work.windows[i].id);
    assert(model::ids_of(work.windows) =~= ids);
}

/// A group that was sent home is verified exactly where all its windows are found at their home;
/// else the labels of all of them are reported, with the workspace and the display of the home.
pub proof fn a_group_is_verified_by_its_windows(
    group: GroupView,
    target: TargetView,
    replies: Seq<Reply>,
)
    ensures
        ({
            let outcome = dialogue::run(rehome::group_verification(group, target), replies);
            let ids = Seq::new(group.windows.len(), |i: int| group.windows[i].window.id);
            let labels = Seq::new(group.windows.len(), |i: int| group.windows[i].home.label@);
            match dialogue::run(
                rift::windows_are_at(target, group.workspace_name, ids),
                replies,
            ) {
                Outcome::Waiting(request) => outcome == Outcome::<()>::Waiting(request),
                Outcome::Failed(failure, rest) => outcome == Outcome::<()>::Failed(failure, rest),
                Outcome::Finished(true, rest) => outcome == Outcome::Finished((), rest),
                Outcome::Finished(false, rest) => outcome == Outcome::<()>::Failed(
                    told(
                        "rehome verification failed for "@ + text::listed(labels)
                            + ": expected workspace "@ + group.workspace_name + " on "@
                            + group.display_uuid,
                    ),
                    rest,
                ),
            }
        }),
{
    broadcast use dialogue::group_run;

    let ids = Seq::new(group.windows.len(), |i: int| group.windows[i].window.id);
    let labels = Seq::new(group.windows.len(), |i: int| group.windows[i].home.label@);
    assert(rehome::member_ids(group) =~= ids);
    assert(rehome::labels_of(group) =~= labels);
}

// ---------------------------------------------------------------------------
// Trying again.
// ---------------------------------------------------------------------------

/// Bringing windows into the workspace is done with where all windows are then found there. Running
/// out of time is a no; any other failure is a failure.
pub proof fn bringing_windows_in_may_only_run_out_of_time(
    work: MoveWorkspaceView,
    windows: Seq<WindowData>,
    attempt: nat,
    replies: Seq<Reply>,
)
    requires
        replies.len() > 0,
    ensures
        ({
            let outcome = dialogue::run(
                moves::membership_reassertion(work, windows, attempt),
                replies,
            );
            let ids = Seq::new(work.windows.len(), |i: int| work.windows[i].id);
            match replies[0] {
                Reply::Done => outcome == dialogue::run(
                    rift::windows_are_at(work.target, work.workspace_name, ids),
                    replies.skip(1),
                ),
                Reply::Failed(error) => outcome == (if error.kind is TimedOut {
                    Outcome::Finished(false, replies.skip(1))
                } else {
                    Outcome::<bool>::Failed(error@, replies.skip(1))
                }),
                _ => outcome is Failed,
            }
        }),
{
    broadcast use dialogue::group_run;

    let ids = Seq::new(work.windows.len(), |i: int| work.windows[i].id);
    assert(model::ids_of(work.windows) =~= ids);
}

/// Focusing the window that was focused is tried again only where it ran out of time; any other
/// failure is a failure, and a window that is focused needs no more.
pub proof fn focusing_again_may_only_run_out_of_time(
    work: MoveWorkspaceView,
    attempt: nat,
    replies: Seq<Reply>,
)
    requires
        1 <= attempt <= 3,
    ensures
        ({
            let outcome = dialogue::run(moves::focus_restoration_from(work, attempt), replies);
            let focused = dialogue::run(
                rift::window_is_focused_at(
                    work.target,
                    work.workspace_name,
                    work.focused_window.id,
                ),
                replies,
            );
            let later = laws::left_over(focused);
            let found = dialogue::run(
                rift::window_is_at(work.target, work.workspace_name, work.focused_window.id),
                later,
            );
            let last = laws::left_over(found);
            &&& focused is Finished && focused->Finished_0 ==> outcome == Outcome::Finished(
                (),
                later,
            )
            &&& focused is Finished && !focused->Finished_0 && found is Finished
                && found->Finished_0 && last.len() > 0 ==> match last[0] {
                Reply::Done => outcome == Outcome::Finished((), last.skip(1)),
                Reply::Failed(error) => outcome == (if error.kind is TimedOut {
                    dialogue::run(moves::focus_restoration_from(work, attempt + 1), last.skip(1))
                } else {
                    Outcome::<()>::Failed(error@, last.skip(1))
                }),
                _ => outcome is Failed,
            }
        }),
{
    broadcast use dialogue::group_run;

    reveal_with_fuel(moves::focus_restoration_from, 2);
}

/// A window that was focused and is no longer in the workspace is brought there before it is
/// focused again.
pub proof fn a_window_is_brought_in_before_it_is_focused(
    work: MoveWorkspaceView,
    attempt: nat,
    replies: Seq<Reply>,
)
    requires
        1 <= attempt <= 3,
    ensures
        ({
            let outcome = dialogue::run(moves::focus_restoration_from(work, attempt), replies);
            let focused = dialogue::run(
                rift::window_is_focused_at(
                    work.target,
                    work.workspace_name,
                    work.focused_window.id,
                ),
                replies,
            );
            let found = dialogue::run(
                rift::window_is_at(work.target, work.workspace_name, work.focused_window.id),
                laws::left_over(focused),
            );
            let brought = dialogue::run(moves::reassertion(work), laws::left_over(found));
            let last = laws::left_over(brought);
            focused is Finished && !focused->Finished_0 && found is Finished && !found->Finished_0
                ==> match brought {
                Outcome::Waiting(request) => outcome == Outcome::<()>::Waiting(request),
                Outcome::Failed(failure, rest) => outcome == Outcome::<()>::Failed(failure, rest),
                Outcome::Finished(_, _) => last.len() > 0 && last[0] is Done ==> outcome
                    == Outcome::Finished((), last.skip(1)),
            }
        }),
{
    broadcast use dialogue::group_run;

    reveal_with_fuel(moves::focus_restoration_from, 2);
}

/// What is amiss after a move is restored: windows that are not all there are brought in, and the
/// window that was focused is focused again, each exactly where it is needed.
pub proof fn what_is_amiss_is_restored(work: MoveWorkspaceView, replies: Seq<Reply>)
    ensures
        ({
            let outcome = dialogue::run(moves::repair(work), replies);
            let ids = Seq::new(work.windows.len(), |i: int| work.windows[i].id);
            let found = dialogue::run(
                rift::windows_are_at(work.target, work.workspace_name, ids),
                replies,
            );
            let later = laws::left_over(found);
            let brought = dialogue::run(moves::reassertion(work), later);
            &&& found is Finished && found->Finished_0 ==> outcome == after_bringing_in(work, later)
            &&& found is Finished && !found->Finished_0 ==> match brought {
                Outcome::Waiting(request) => outcome == Outcome::<()>::Waiting(request),
                Outcome::Failed(failure, rest) => outcome == Outcome::<()>::Failed(failure, rest),
                Outcome::Finished(_, rest) => outcome == after_bringing_in(work, rest),
            }
        }),
{
    broadcast use dialogue::group_run;

    let ids = Seq::new(work.windows.len(), |i: int| work.windows[i].id);
    assert(model::ids_of(work.windows) =~= ids);
}

/// What comes of the focus once the windows are there: nothing where the window that was focused is
/// found focused, else attempts to focus it, from the first on.
pub open spec fn after_bringing_in(work: MoveWorkspaceView, replies: Seq<Reply>) -> Outcome<()> {
    match dialogue::run(
        rift::window_is_focused_at(work.target, work.workspace_name, work.focused_window.id),
        replies,
    ) {
        Outcome::Waiting(request) => Outcome::Waiting(request),
        Outcome::Failed(failure, rest) => Outcome::Failed(failure, rest),
        Outcome::Finished(true, rest) => Outcome::Finished((), rest),
        Outcome::Finished(false, rest) => dialogue::run(
            moves::focus_restoration_from(work, 1),
            rest,
        ),
    }
}

/// Windows that an attempt did not bring in are looked for, and those that are still missing are
/// brought in by the next attempt; where none is missing any more, no further attempt is made.
pub proof fn windows_that_are_still_missing_are_brought_in_again(
    work: MoveWorkspaceView,
    windows: Seq<WindowData>,
    attempt: nat,
    replies: Seq<Reply>,
)
    requires
        1 <= attempt <= 3,
    ensures
        ({
            let outcome = dialogue::run(moves::reassertion_from(work, windows, attempt), replies);
            let ids = Seq::new(work.windows.len(), |i: int| work.windows[i].id);
            let transferred = dialogue::run(moves::retransfers_from(work, windows, 0), replies);
            let brought = dialogue::run(
                moves::membership_reassertion(work, windows, attempt),
                laws::left_over(transferred),
            );
            let later = laws::left_over(brought);
            let looked = dialogue::run(
                rift::windows_missing_from_workspace(work.target, work.workspace_name, ids),
                later,
            );
            let still = moves::pending(work, looked->Finished_0);
            &&& transferred is Finished && brought is Finished && brought->Finished_0 ==> outcome
                == Outcome::Finished((), later)
            &&& transferred is Finished && brought is Finished && !brought->Finished_0
                && looked is Finished ==> outcome == (if still.len() == 0 {
                Outcome::Finished((), laws::left_over(looked))
            } else {
                dialogue::run(
                    moves::reassertion_from(work, still, attempt + 1),
                    laws::left_over(looked),
                )
            })
        }),
{
    broadcast use dialogue::group_run;

    let ids = Seq::new(work.windows.len(), |i: int| work.windows[i].id);
    assert(model::ids_of(work.windows) =~= ids);
    reveal_with_fuel(moves::reassertion_from, 2);
}

// ---------------------------------------------------------------------------
// Only a part that fails makes a command fail.
// ---------------------------------------------------------------------------

/// Whether a part ended in this failure, with these replies left over.
pub open spec fn failed_so<A>(part: Outcome<A>, failure: ErrorView, rest: Seq<Reply>) -> bool {
    part == Outcome::<A>::Failed(failure, rest)
}

/// Showing a workspace fails only where connecting, reading the displays, finding the assigned
/// display or showing it there does.
pub proof fn switch_workspace_fails_only_with_a_part(workspace_name: Seq<char>, replies: Seq<Reply>)
    ensures
        dialogue::run(switch_workspace::switch_workspace_program(workspace_name), replies) matches
            Outcome::Failed(failure, rest) ==> ({
            let connected = dialogue::run(rift::connect(), replies);
            let read = dialogue::run(rift::displays(), laws::left_over(connected));
            let displays = read->Finished_0;
            let assigned = dialogue::run(
                policy::display_for(workspace_name, displays),
                laws::left_over(read),
            );
            let shown = dialogue::run(
                switch_workspace::activation(workspace_name, assigned->Finished_0, displays),
                laws::left_over(assigned),
            );
            ||| failed_so(connected, failure, rest)
            ||| failed_so(read, failure, rest)
            ||| failed_so(assigned, failure, rest)
            ||| failed_so(shown, failure, rest)
        }),
{
    broadcast use dialogue::group_run;

}

/// Showing a workspace on a display fails only where bringing the display to a managed space,
/// finding the destination, or moving the keyboard there and preparing it does.
pub proof fn an_activation_fails_only_with_a_part(
    workspace_name: Seq<char>,
    display_uuid: Seq<char>,
    displays: Seq<DisplayData>,
    replies: Seq<Reply>,
)
    ensures
        dialogue::run(
            switch_workspace::activation(workspace_name, display_uuid, displays),
            replies,
        ) matches Outcome::Failed(failure, rest) ==> ({
            let managed = dialogue::run(
                space_escape::managed_space(display_uuid, displays),
                replies,
            );
            let read = dialogue::run(
                rift::target_context(workspace_name, display_uuid, managed->Finished_0),
                laws::left_over(managed),
            );
            let target = read->Finished_0;
            let reached = dialogue::run(
                space_escape::display_focus(target.display_uuid, target.space),
                laws::left_over(read),
            );
            let begun = dialogue::run(transaction::begin_single(), laws::left_over(reached));
            let prepared = dialogue::run(
                placement::target_preparation(begun->Finished_0, target, workspace_name),
                laws::left_over(begun),
            );
            let again = dialogue::run(rift::displays(), laws::left_over(prepared));
            ||| failed_so(managed, failure, rest)
            ||| failed_so(read, failure, rest)
            ||| failed_so(reached, failure, rest)
            ||| failed_so(begun, failure, rest)
            ||| failed_so(prepared, failure, rest)
            ||| failed_so(again, failure, rest)
        }),
{
    broadcast use dialogue::group_run;

    reveal(switch_workspace::activation);
}

/// Moving the focused window to a neighbouring display fails only where connecting, reading the
/// displays, finding the window, finding the neighbour or moving the window there does.
pub proof fn moving_a_window_fails_only_with_a_part(
    direction: DisplayDirection,
    replies: Seq<Reply>,
)
    ensures
        dialogue::run(move_window_to_display::move_window_program(direction), replies) matches
            Outcome::Failed(failure, rest) ==> ({
            let connected = dialogue::run(rift::connect(), replies);
            let read = dialogue::run(rift::displays(), laws::left_over(connected));
            let displays = read->Finished_0;
            let found = dialogue::run(rift::focused_window(displays), laws::left_over(read));
            let focused = found->Finished_0;
            let neighbour = workflow::neighbour(
                displays,
                focused.location.display_uuid,
                direction,
            );
            let moved = dialogue::run(
                move_window_to_display::move_window_onto(neighbour->Ok_0->0, displays, focused),
                laws::left_over(found),
            );
            ||| failed_so(connected, failure, rest)
            ||| failed_so(read, failure, rest)
            ||| failed_so(found, failure, rest)
            ||| neighbour == Err::<Option<DisplayData>, ErrorView>(failure)
            ||| failed_so(moved, failure, rest)
        }),
{
    broadcast use dialogue::group_run;

}

/// Moving the focused workspace to a neighbouring display fails only where connecting, reading the
/// displays, finding the workspace, finding the neighbour, finding the workspace there or moving the
/// windows does.
pub proof fn moving_a_workspace_fails_only_with_a_part(
    direction: DisplayDirection,
    replies: Seq<Reply>,
)
    ensures
        dialogue::run(moves::move_workspace_program(direction), replies) matches Outcome::Failed(
            failure,
            rest,
        ) ==> ({
            let connected = dialogue::run(rift::connect(), replies);
            let read = dialogue::run(rift::displays(), laws::left_over(connected));
            let displays = read->Finished_0;
            let found = dialogue::run(rift::focused_workspace(displays), laws::left_over(read));
            let source = found->Finished_0;
            let neighbour = workflow::neighbour(displays, source.display_uuid, direction);
            let aimed = dialogue::run(
                rift::target_context(
                    source.workspace.name@,
                    neighbour->Ok_0->0.uuid@,
                    displays,
                ),
                laws::left_over(found),
            );
            let moved = dialogue::run(
                moves::move_of(Departure { target: aimed->Finished_0, source }),
                laws::left_over(aimed),
            );
            ||| failed_so(connected, failure, rest)
            ||| failed_so(read, failure, rest)
            ||| failed_so(found, failure, rest)
            ||| neighbour == Err::<Option<DisplayData>, ErrorView>(failure)
            ||| failed_so(aimed, failure, rest)
            ||| failed_so(moved, failure, rest)
        }),
{
    broadcast use dialogue::group_run;

}

/// Moving the focused window to a workspace fails only where connecting, reading the displays,
/// finding the assigned display, finding the window, bringing the display to a managed space,
/// finding the destination or moving the window there does. A window that was not found is reported
/// once the destination is.
pub proof fn move_follow_fails_only_with_a_part(workspace_name: Seq<char>, replies: Seq<Reply>)
    ensures
        dialogue::run(move_follow::move_follow_program(workspace_name), replies) matches
            Outcome::Failed(failure, rest) ==> ({
            let connected = dialogue::run(rift::connect(), replies);
            let read = dialogue::run(rift::displays(), laws::left_over(connected));
            let displays = read->Finished_0;
            let assigned = dialogue::run(
                policy::display_for(workspace_name, displays),
                laws::left_over(read),
            );
            let display_uuid = assigned->Finished_0;
            let found = dialogue::run(rift::focused_window(displays), laws::left_over(assigned));
            let managed = dialogue::run(
                space_escape::managed_space(display_uuid, displays),
                laws::left_over(found),
            );
            let aimed = dialogue::run(
                rift::target_context(workspace_name, display_uuid, managed->Finished_0),
                laws::left_over(managed),
            );
            let begun = dialogue::run(transaction::begin_single(), laws::left_over(aimed));
            let moved = dialogue::run(
                placement::window_follow(
                    begun->Finished_0,
                    aimed->Finished_0,
                    workspace_name,
                    found->Finished_0,
                ),
                laws::left_over(begun),
            );
            ||| failed_so(connected, failure, rest)
            ||| failed_so(read, failure, rest)
            ||| failed_so(assigned, failure, rest)
            ||| failed_so(managed, failure, rest)
            ||| failed_so(aimed, failure, rest)
            ||| aimed is Finished && found is Failed && found->Failed_0 == failure
            ||| failed_so(begun, failure, rest)
            ||| failed_so(moved, failure, rest)
        }),
{
    broadcast use dialogue::group_run;

}

/// Sending windows home fails only where finding the errand, looking whether they are at home, or
/// the journey does.
pub proof fn rehome_fails_only_with_a_part(
    workspace_name: Option<Seq<char>>,
    replies: Seq<Reply>,
)
    ensures
        dialogue::run(rehome::rehome_program(workspace_name), replies) matches Outcome::Failed(
            failure,
            rest,
        ) ==> ({
            let found = dialogue::run(rehome::errand(workspace_name), replies);
            let errand = found->Finished_0;
            let groups = rehome::grouped(errand.routed);
            let looked = dialogue::run(
                rehome::are_at_home_from(groups, 0),
                laws::left_over(found),
            );
            let sent = dialogue::run(
                rehome::journey(errand.source, groups),
                laws::left_over(looked),
            );
            ||| failed_so(found, failure, rest)
            ||| failed_so(looked, failure, rest)
            ||| failed_so(sent, failure, rest)
        }),
{
    broadcast use dialogue::group_run;

    reveal(rehome::journey_if_needed);
}

/// Finding the errand fails only where connecting, reading the displays, loading the policy, finding
/// the source or routing its windows does.
pub proof fn an_errand_fails_only_with_a_part(
    workspace_name: Option<Seq<char>>,
    replies: Seq<Reply>,
)
    ensures
        dialogue::run(rehome::errand(workspace_name), replies) matches Outcome::Failed(
            failure,
            rest,
        ) ==> ({
            let connected = dialogue::run(rift::connect(), replies);
            let read = dialogue::run(rift::displays(), laws::left_over(connected));
            let displays = read->Finished_0;
            let loaded = dialogue::run(policy::load_resolved(displays), laws::left_over(read));
            let found = dialogue::run(
                rehome::source_of(displays, loaded->Finished_0, workspace_name),
                laws::left_over(loaded),
            );
            let routed = dialogue::run(
                policy::route(found->Finished_0.windows),
                laws::left_over(found),
            );
            ||| failed_so(connected, failure, rest)
            ||| failed_so(read, failure, rest)
            ||| failed_so(loaded, failure, rest)
            ||| failed_so(found, failure, rest)
            ||| failed_so(routed, failure, rest)
        }),
{
    broadcast use dialogue::group_run;

    reveal(rehome::errand);
}

/// A journey fails only where beginning it, sending a group home, showing the source again or
/// verifying a group does.
pub proof fn a_journey_fails_only_with_a_part(
    source: SourceView,
    groups: Seq<GroupView>,
    replies: Seq<Reply>,
)
    ensures
        dialogue::run(rehome::journey(source, groups), replies) matches Outcome::Failed(
            failure,
            rest,
        ) ==> ({
            let begun = dialogue::run(
                transaction::begin_batch(source.windows.len()),
                replies,
            );
            let sent = dialogue::run(
                rehome::placements_from(begun->Finished_0, groups, 0),
                laws::left_over(begun),
            );
            let restored = dialogue::run(
                rehome::source_restoration(begun->Finished_0, source),
                laws::left_over(sent),
            );
            let verified = dialogue::run(
                rehome::verification_from(groups, 0),
                laws::left_over(restored),
            );
            ||| failed_so(begun, failure, rest)
            ||| failed_so(sent, failure, rest)
            ||| failed_so(restored, failure, rest)
            ||| failed_so(verified, failure, rest)
        }),
{
    broadcast use dialogue::group_run;

    reveal(rehome::journey);
}

/// Showing a workspace on every display fails only where connecting, reading the displays, showing
/// it on one of them or giving the keyboard back does.
pub proof fn switch_workspace_both_fails_only_with_a_part(
    workspace_name: Seq<char>,
    replies: Seq<Reply>,
)
    ensures
        dialogue::run(
            switch_workspace_both::switch_workspace_both_program(workspace_name),
            replies,
        ) matches Outcome::Failed(failure, rest) ==> ({
            let connected = dialogue::run(rift::connect(), replies);
            let read = dialogue::run(rift::displays(), laws::left_over(connected));
            let displays = read->Finished_0;
            let uuids = Seq::new(displays.len(), |i: int| displays[i].uuid@);
            let shown = dialogue::run(
                switch_workspace_both::activation_from(workspace_name, uuids, displays, 0),
                laws::left_over(read),
            );
            let returned = dialogue::run(
                switch_workspace_both::return_of_keyboard(
                    model::first(displays, model::has_context()),
                    shown->Finished_0,
                ),
                laws::left_over(shown),
            );
            ||| failed_so(connected, failure, rest)
            ||| failed_so(read, failure, rest)
            ||| failed_so(shown, failure, rest)
            ||| failed_so(returned, failure, rest)
        }),
{
    broadcast use dialogue::group_run;

    let connected = dialogue::run(rift::connect(), replies);
    let read = dialogue::run(rift::displays(), laws::left_over(connected));
    let displays = read->Finished_0;
    assert(switch_workspace_both::uuids_of(displays) =~= Seq::new(
        displays.len(),
        |i: int| displays[i].uuid@,
    ));
}

/// Showing a workspace on the displays from one on fails only where showing it on that one does, or
/// on those after it.
pub proof fn showing_everywhere_fails_only_with_a_display(
    workspace_name: Seq<char>,
    uuids: Seq<Seq<char>>,
    displays: Seq<DisplayData>,
    at: int,
    replies: Seq<Reply>,
)
    requires
        0 <= at <= uuids.len(),
    ensures
        dialogue::run(
            switch_workspace_both::activation_from(workspace_name, uuids, displays, at),
            replies,
        ) matches Outcome::Failed(failure, rest) ==> at < uuids.len() && ({
            let shown = dialogue::run(
                switch_workspace::activation(workspace_name, uuids[at], displays),
                replies,
            );
            let later = dialogue::run(
                switch_workspace_both::activation_from(
                    workspace_name,
                    uuids,
                    shown->Finished_0,
                    at + 1,
                ),
                laws::left_over(shown),
            );
            ||| failed_so(shown, failure, rest)
            ||| failed_so(later, failure, rest)
        }),
{
    broadcast use dialogue::group_run;

    reveal_with_fuel(switch_workspace_both::activation_from, 2);
}

} // verus!
