//! What holds of moving the windows of a workspace.
use crate::dialogue;
use crate::dialogue::{AskView, Outcome, Program, Reply, RequestView};
use crate::error::ErrorView;
use crate::laws;
use crate::laws::{looking, placing};
use crate::model;
use crate::model::{CommandView, WindowData};
use crate::rift;
use crate::rift::{FocusedWorkspaceView, TargetView};
use crate::transaction;
use crate::transaction::{ConditionView, RiftTransaction};
use crate::workflow;
use crate::workflow::move_workspace_to_display;
use crate::workflow::move_workspace_to_display::{
    Departure, MoveWorkspaceState, MoveWorkspaceView, SingletonView,
};
use crate::workflow::{placement, DisplayDirection};
use vstd::prelude::*;

verus! {

broadcast use {dialogue::group_run, laws::group_commands, dialogue::group_asks_only};

// ---------------------------------------------------------------------------
// One window.
// ---------------------------------------------------------------------------

proof fn lemma_singleton_transfers(work: SingletonView, replies: Seq<Reply>)
    requires
        dialogue::run(
            move_workspace_to_display::singleton_transfer_from(work, 1),
            replies,
        ) is Finished,
    ensures
        ({
            let submitted = laws::commands(
                move_workspace_to_display::singleton_transfer_from(work, 1),
                replies,
            );
            let once = seq![rift::transfer_of(work.target, work.window)];
            submitted == once || submitted == once + once
        }),
{
    reveal_with_fuel(move_workspace_to_display::singleton_transfer_from, 3);
    let once = seq![rift::transfer_of(work.target, work.window)];
    assert(once + Seq::<CommandView>::empty() =~= once);
}

proof fn lemma_singleton_focus(work: SingletonView, replies: Seq<Reply>)
    requires
        dialogue::run(move_workspace_to_display::singleton_focus(work), replies) is Finished,
    ensures
        ({
            let submitted = laws::commands(
                move_workspace_to_display::singleton_focus(work),
                replies,
            );
            let once = seq![rift::focus_of(work.window)];
            submitted == once || submitted == once + seq![
                rift::transfer_of(work.target, work.window),
            ]
        }),
{
    let once = seq![rift::focus_of(work.window)];
    assert(once + Seq::<CommandView>::empty() =~= once);
}

/// Whether the commands are those of the fast path: the destination is prepared, the window is
/// transferred and if need be transferred once more, then focused; and if need be transferred
/// again.
pub open spec fn is_fast_path(work: SingletonView, submitted: Seq<CommandView>) -> bool {
    let transfer = seq![rift::transfer_of(work.target, work.window)];
    let focus = seq![rift::focus_of(work.window)];
    let prepared = placing::preparing(work.target);
    ||| submitted == prepared + (transfer + focus)
    ||| submitted == prepared + ((transfer + transfer) + focus)
    ||| submitted == prepared + (transfer + (focus + transfer))
    ||| submitted == prepared + ((transfer + transfer) + (focus + transfer))
}

/// On the fast path the destination's display is focused before the window is transferred,
/// unless it has the keyboard; only the activation of a workspace that is active is left out.
/// The window is transferred before it is focused.
pub proof fn the_fast_path_focuses_before_it_transfers(work: SingletonView, replies: Seq<Reply>)
    requires
        dialogue::run(move_workspace_to_display::singleton_move(work), replies) is Finished,
    ensures
        is_fast_path(
            work,
            laws::commands(move_workspace_to_display::singleton_move(work), replies),
        ),
{
    let prepared = placement::target_preparation(
        work.transaction,
        work.target,
        work.workspace_name,
    );
    let transfers = move_workspace_to_display::singleton_transfer_from(work, 1);
    let focus = move_workspace_to_display::singleton_focus(work);
    let verified = placement::target_verification(work.target, work.workspace_name, work.window);
    let first = laws::left_over(dialogue::run(prepared, replies));
    let second = laws::left_over(dialogue::run(transfers, first));
    let third = laws::left_over(dialogue::run(focus, second));
    placing::a_destination_is_focused_then_activated(
        work.transaction,
        work.target,
        work.workspace_name,
        replies,
    );
    lemma_singleton_transfers(work, first);
    lemma_singleton_focus(work, second);
    placing::verification_submits_nothing(work.target, work.workspace_name, work.window, third);
    let focused = laws::commands(focus, second);
    assert(focused + Seq::<CommandView>::empty() =~= focused);
    assert(laws::commands(move_workspace_to_display::singleton_move(work), replies)
        == laws::commands(prepared, replies) + (laws::commands(transfers, first) + (
    laws::commands(focus, second) + laws::commands(verified, third))));
}

/// A window that the fast path has moved is in the named workspace of the destination, and
/// focused: that is what was asked last, and shown.
pub proof fn the_fast_path_ends_in_place(work: SingletonView, replies: Seq<Reply>)
    requires
        dialogue::run(move_workspace_to_display::singleton_move(work), replies) is Finished,
    ensures
        placing::ended_in_place(
            laws::requests(move_workspace_to_display::singleton_move(work), replies),
            replies,
            work.target,
            work.workspace_name,
            work.window.id,
        ),
{
    broadcast use laws::group_requests;

    let moved = move_workspace_to_display::singleton_move(work);
    let preparing = placement::target_preparation(
        work.transaction,
        work.target,
        work.workspace_name,
    );
    let transferring = move_workspace_to_display::singleton_transfer_from(work, 1);
    let focusing = move_workspace_to_display::singleton_focus(work);
    let verifying = placement::target_verification(work.target, work.workspace_name, work.window);
    let one = laws::left_over(dialogue::run(preparing, replies));
    let two = laws::left_over(dialogue::run(transferring, one));
    let three = laws::left_over(dialogue::run(focusing, two));
    laws::each_request_has_its_reply(preparing, replies);
    laws::each_request_has_its_reply(transferring, one);
    laws::each_request_has_its_reply(focusing, two);
    let prepared = laws::requests(preparing, replies);
    let transferred = laws::requests(transferring, one);
    let focused = laws::requests(focusing, two);
    let verified = laws::requests(verifying, three);
    assert(laws::requests(moved, replies) == prepared + (transferred + (focused + verified)));
    placing::verification_shows_the_window_in_place(
        work.target,
        work.workspace_name,
        work.window,
        three,
    );
    placing::lemma_ended_in_place_later(
        focused,
        verified,
        two,
        work.target,
        work.workspace_name,
        work.window.id,
    );
    placing::lemma_ended_in_place_later(
        transferred,
        focused + verified,
        one,
        work.target,
        work.workspace_name,
        work.window.id,
    );
    placing::lemma_ended_in_place_later(
        prepared,
        transferred + (focused + verified),
        replies,
        work.target,
        work.workspace_name,
        work.window.id,
    );
}

/// Where the fast path has run out of time, the displays are read anew before anything else is
/// done; any other failure is reported as it is.
pub proof fn a_timeout_on_the_fast_path_refreshes_the_displays(
    target: TargetView,
    workspace_name: Seq<char>,
    source: FocusedWorkspaceView,
    transaction: RiftTransaction,
    begun: Seq<Reply>,
    replies: Seq<Reply>,
    failure: ErrorView,
)
    requires
        dialogue::run(transaction::begin_single(), replies) == Outcome::Finished(
            transaction,
            begun,
        ),
        ({
            let work = SingletonView {
                transaction,
                target,
                workspace_name,
                window: source.focused_window,
            };
            dialogue::run(move_workspace_to_display::singleton_move(work), begun)
                == Outcome::<()>::Failed(failure, Seq::empty())
        }),
    ensures
        ({
            let outcome = dialogue::run(
                move_workspace_to_display::singleton_or_batch_move(target, workspace_name, source),
                replies,
            );
            if failure.kind is TimedOut {
                outcome == Outcome::<()>::Waiting(RequestView::Outside(AskView::Displays))
            } else {
                outcome == Outcome::<()>::Failed(failure, Seq::empty())
            }
        }),
{
}

// ---------------------------------------------------------------------------
// The windows of a workspace.
// ---------------------------------------------------------------------------

/// Whether the last that was asked is whether the windows are where they were to go, each of
/// them in the workspace and on the display, and the window that was focused focused; and it
/// was shown to be so.
pub open spec fn ended_complete(
    asked: Seq<RequestView>,
    replies: Seq<Reply>,
    work: MoveWorkspaceView,
) -> bool {
    laws::ended_with(asked, replies, move_workspace_to_display::requirement(work), ())
}

proof fn lemma_focus_is_shown(work: MoveWorkspaceView, replies: Seq<Reply>)
    requires
        dialogue::run(move_workspace_to_display::focus_restored(work), replies) matches
            Outcome::Finished(restored, _) && restored,
    ensures
        replies.len() >= 3,
        laws::requests(move_workspace_to_display::focus_restored(work), replies) == seq![
            RequestView::Outside(AskView::Workspaces { space: work.target.space }),
            RequestView::Outside(AskView::WindowInfo { window_id: work.focused_window.id }),
            RequestView::Outside(AskView::WindowInfo { window_id: work.focused_window.id }),
        ],
        replies[0] matches Reply::Workspaces(found) && model::first(
            found@,
            model::holds(work.focused_window.id),
        ) matches Some(workspace) && workspace.name@ == work.workspace_name,
        replies[2] matches Reply::WindowInfo(window) && window.is_focused,
{
    broadcast use laws::group_requests;

    assert(replies.len() > 0);
    assert(replies.skip(1).len() > 0);
    assert(replies.skip(1)[0] == replies[1]);
    assert(replies.skip(1).skip(1).len() > 0);
    assert(replies.skip(1).skip(1)[0] == replies[2]);
    assert(laws::requests(move_workspace_to_display::focus_restored(work), replies) =~= seq![
        RequestView::Outside(AskView::Workspaces { space: work.target.space }),
        RequestView::Outside(AskView::WindowInfo { window_id: work.focused_window.id }),
        RequestView::Outside(AskView::WindowInfo { window_id: work.focused_window.id }),
    ]);
}

/// Where the requirement of a move is met, the workspaces of the destination's space and each of
/// the windows were asked for, and the replies show each window as a member of the named
/// workspace, with its frame on the destination's display; then the window that was focused was
/// asked for, and the replies show it in the named workspace, and focused.
#[verifier::rlimit(40)]
pub proof fn the_requirement_shows_the_workspace_complete(
    work: MoveWorkspaceView,
    replies: Seq<Reply>,
)
    requires
        dialogue::run(move_workspace_to_display::requirement(work), replies) is Finished,
    ensures
        ({
            let ids = model::ids_of(work.windows);
            let count = ids.len() as int;
            let workspaces = RequestView::Outside(
                AskView::Workspaces { space: work.target.space },
            );
            let window = RequestView::Outside(
                AskView::WindowInfo { window_id: work.focused_window.id },
            );
            &&& laws::requests(move_workspace_to_display::requirement(work), replies) == seq![
                workspaces,
            ] + looking::asking_for(ids) + seq![workspaces, window, window]
            &&& replies.len() >= count + 4
            &&& replies[0] matches Reply::Workspaces(found) && model::first(
                found@,
                model::has_name(work.workspace_name),
            ) matches Some(workspace) && forall|i: int|
                0 <= i < count ==> model::has_window(workspace.windows@, #[trigger] ids[i])
                    && looking::shows_on_display(work.target, replies[i + 1])
            &&& replies[count + 1] matches Reply::Workspaces(found) && model::first(
                found@,
                model::holds(work.focused_window.id),
            ) matches Some(workspace) && workspace.name@ == work.workspace_name
            &&& replies[count + 3] matches Reply::WindowInfo(window) && window.is_focused
        }),
{
    broadcast use laws::group_requests;

    let ids = model::ids_of(work.windows);
    let count = ids.len() as int;
    let there = move_workspace_to_display::all_there(work);
    looking::windows_at_a_destination_are_members_on_its_display(
        work.target,
        work.workspace_name,
        ids,
        replies,
    );
    let rest = replies.skip(count + 1);
    assert(laws::left_over(dialogue::run(there, replies)) == rest);
    looking::windows_at_a_destination_are_asked_for(
        work.target,
        work.workspace_name,
        ids,
        replies,
    );
    lemma_focus_is_shown(work, rest);
    assert(rest[0] == replies[count + 1]);
    assert(rest[2] == replies[count + 3]);
    let workspaces = RequestView::Outside(AskView::Workspaces { space: work.target.space });
    let window = RequestView::Outside(AskView::WindowInfo { window_id: work.focused_window.id });
    assert(laws::requests(move_workspace_to_display::requirement(work), replies) =~= seq![
        workspaces,
    ] + looking::asking_for(ids) + seq![workspaces, window, window]);
}

proof fn lemma_verification(work: MoveWorkspaceView, replies: Seq<Reply>)
    requires
        dialogue::run(move_workspace_to_display::verification(work), replies) is Finished,
    ensures
        ended_complete(
            laws::requests(move_workspace_to_display::verification(work), replies),
            replies,
            work,
        ),
{
    broadcast use laws::group_requests;

    let repairing = move_workspace_to_display::repair(work);
    let required = move_workspace_to_display::requirement(work);
    let look = laws::left_over(dialogue::run(repairing, replies));
    laws::each_request_has_its_reply(repairing, replies);
    laws::lemma_did_itself(required, look);
    laws::lemma_did_later(
        laws::requests(repairing, replies),
        laws::requests(required, look),
        replies,
        required,
        (),
    );
}

/// A workspace that has been moved is complete: the last that was asked is whether every window
/// is in the workspace and on the display, and the window that was focused focused, and it was
/// shown to be so.
pub proof fn a_moved_workspace_ends_complete(work: MoveWorkspaceView, replies: Seq<Reply>)
    requires
        dialogue::run(
            move_workspace_to_display::move_from(work, MoveWorkspaceState::PrepareDestination),
            replies,
        ) is Finished,
    ensures
        ended_complete(
            laws::requests(
                move_workspace_to_display::move_from(work, MoveWorkspaceState::PrepareDestination),
                replies,
            ),
            replies,
            work,
        ),
{
    lemma_move_from(work, MoveWorkspaceState::PrepareDestination, replies);
}

/// What a state does before the next one.
spec fn own_part(work: MoveWorkspaceView, state: MoveWorkspaceState) -> Program<()> {
    match state {
        MoveWorkspaceState::PrepareDestination => placement::target_preparation(
            work.transaction,
            work.target,
            work.workspace_name,
        ),
        MoveWorkspaceState::SubmitTransfers => move_workspace_to_display::transfers_from(
            work,
            move_workspace_to_display::ordered(work),
            0,
        ),
        MoveWorkspaceState::ReassertWorkspace => move_workspace_to_display::reassertion(work),
        MoveWorkspaceState::FocusOriginalWindow =>
            move_workspace_to_display::focus_restoration_from(work, 1),
        MoveWorkspaceState::Verify => move_workspace_to_display::verification(work),
        _ => move_workspace_to_display::settling(work),
    }
}

spec fn following(state: MoveWorkspaceState) -> MoveWorkspaceState {
    match state {
        MoveWorkspaceState::PrepareDestination => MoveWorkspaceState::SubmitTransfers,
        MoveWorkspaceState::SubmitTransfers => MoveWorkspaceState::ReassertWorkspace,
        MoveWorkspaceState::ReassertWorkspace => MoveWorkspaceState::FocusOriginalWindow,
        MoveWorkspaceState::FocusOriginalWindow => MoveWorkspaceState::Verify,
        MoveWorkspaceState::Verify => MoveWorkspaceState::Settle,
        _ => MoveWorkspaceState::Complete,
    }
}

proof fn lemma_move_from(work: MoveWorkspaceView, state: MoveWorkspaceState, replies: Seq<Reply>)
    requires
        state != MoveWorkspaceState::Complete,
        dialogue::run(move_workspace_to_display::move_from(work, state), replies) is Finished,
    ensures
        ended_complete(
            laws::requests(move_workspace_to_display::move_from(work, state), replies),
            replies,
            work,
        ),
    decreases move_workspace_to_display::states_left(state),
{
    broadcast use laws::group_requests;

    let part = own_part(work, state);
    let required = move_workspace_to_display::requirement(work);
    let next = move_workspace_to_display::move_from(work, following(state));
    let earlier = laws::requests(part, replies);
    let mid = laws::left_over(dialogue::run(part, replies));
    laws::each_request_has_its_reply(part, replies);
    let later = laws::requests(next, mid);
    assert(laws::requests(move_workspace_to_display::move_from(work, state), replies) == earlier
        + later);
    if state != MoveWorkspaceState::Settle {
        lemma_move_from(work, following(state), mid);
        laws::lemma_did_later(earlier, later, replies, required, ());
    } else {
        let settling = transaction::settle(
            work.transaction,
            "workspace placement"@,
            placement::of_workspace(work.target, work.workspace_name),
            placement::checks_both(
                work.target,
                work.workspace_name,
                ConditionView::WindowsAreAt(model::ids_of(work.windows)),
                ConditionView::WindowIsFocusedAt(work.focused_window.id),
            ),
        );
        let settled = laws::requests(settling, replies);
        let still = laws::left_over(dialogue::run(settling, replies));
        laws::each_request_has_its_reply(settling, replies);
        lemma_verification(work, still);
        let verified = laws::requests(move_workspace_to_display::verification(work), still);
        assert(earlier == settled + verified);
        laws::lemma_did_later(settled, verified, replies, required, ());
        assert(earlier + later =~= earlier);
    }
}

/// The windows are moved in their order, the focused one last.
pub proof fn the_focused_window_moves_last(work: MoveWorkspaceView)
    ensures
        move_workspace_to_display::ordered(work).len() > 0,
        move_workspace_to_display::ordered(work).last() == work.focused_window,
        move_workspace_to_display::ordered(work).drop_last() == work.windows.filter(
            move_workspace_to_display::other_than(work.focused_window.id),
        ),
{
    let others = work.windows.filter(
        move_workspace_to_display::other_than(work.focused_window.id),
    );
    assert(others.push(work.focused_window).drop_last() =~= others);
}

/// Every window is moved: whatever stands in the workspace stands in the order too.
pub proof fn every_window_is_moved(work: MoveWorkspaceView, window: WindowData)
    requires
        work.windows.contains(window),
    ensures
        model::has_window(move_workspace_to_display::ordered(work), window.id),
{
    broadcast use vstd::seq_lib::group_filter_ensures;

    let kept = move_workspace_to_display::other_than(work.focused_window.id);
    let others = work.windows.filter(kept);
    let all = move_workspace_to_display::ordered(work);
    if window.id == work.focused_window.id {
        assert(all[all.len() - 1].id == window.id);
    } else {
        assert(kept(window));
        assert(others.contains(window));
        let i = others.index_of(window);
        assert(all[i].id == window.id);
    }
}

/// Allows looks, and operations that are not held up until the state has settled.
pub open spec fn without_settling() -> spec_fn(RequestView) -> bool {
    |request: RequestView|
        dialogue::looks()(request) || match request {
            RequestView::Transact(operation) => !(operation.pace is Settle),
            _ => false,
        }
}

/// The fast path does not wait for the state to settle.
pub proof fn the_fast_path_skips_the_settling(work: SingletonView)
    ensures
        dialogue::asks_only(move_workspace_to_display::singleton_move(work), without_settling()),
{
    reveal_with_fuel(move_workspace_to_display::singleton_transfer_from, 3);
    assert(dialogue::asks_only(
        move_workspace_to_display::singleton_transfer_from(work, 3),
        without_settling(),
    ));
    assert(dialogue::asks_only(
        move_workspace_to_display::singleton_transfer_from(work, 2),
        without_settling(),
    ));
    assert(dialogue::asks_only(
        move_workspace_to_display::singleton_transfer_from(work, 1),
        without_settling(),
    ));
    assert(dialogue::asks_only(
        move_workspace_to_display::singleton_focus(work),
        without_settling(),
    ));
}

/// Whether a command is one of the fast path: it brings the destination forward, or transfers or
/// focuses the one window.
pub open spec fn is_fast_command(work: SingletonView, command: CommandView) -> bool {
    ||| command == rift::focus_destination(work.target)
    ||| command == rift::activation_of(work.target)
    ||| command == rift::transfer_of(work.target, work.window)
    ||| command == rift::focus_of(work.window)
}

/// Allows looks, and operations with one command of the fast path.
pub open spec fn without_reconciling(work: SingletonView) -> spec_fn(RequestView) -> bool {
    |request: RequestView|
        dialogue::looks()(request) || match request {
            RequestView::Transact(operation) => operation.commands.len() == 1 && is_fast_command(
                work,
                operation.commands[0],
            ),
            _ => false,
        }
}

/// The fast path neither reconciles the workspace nor orders its windows: none of its commands
/// moves a window into a workspace, and none is about another window, but for the one by which
/// the destination's display is focused.
pub proof fn the_fast_path_skips_reconciling_and_ordering(work: SingletonView)
    ensures
        dialogue::asks_only(
            move_workspace_to_display::singleton_move(work),
            without_reconciling(work),
        ),
        forall|command: CommandView| #[trigger]
            is_fast_command(work, command) ==> !(command is MoveWindowToWorkspace),
{
    let allowed = without_reconciling(work);
    reveal_with_fuel(move_workspace_to_display::singleton_transfer_from, 3);
    assert(dialogue::asks_only(
        move_workspace_to_display::singleton_transfer_from(work, 3),
        allowed,
    ));
    assert(dialogue::asks_only(
        move_workspace_to_display::singleton_transfer_from(work, 2),
        allowed,
    ));
    assert(dialogue::asks_only(
        move_workspace_to_display::singleton_transfer_from(work, 1),
        allowed,
    ));
    assert(dialogue::asks_only(move_workspace_to_display::singleton_focus(work), allowed));
}

/// Allows looks, and operations that wait for a second at most.
pub open spec fn within_a_second() -> spec_fn(RequestView) -> bool {
    |request: RequestView|
        dialogue::looks()(request) || match request {
            RequestView::Transact(operation) => operation.timeout <= 1_000,
            _ => false,
        }
}

/// Each transfer of a window is waited for a second at most, on the fast path as well as in the
/// full move.
pub proof fn each_transfer_is_waited_for_a_second_at_most(
    single: SingletonView,
    work: MoveWorkspaceView,
    windows: Seq<WindowData>,
)
    ensures
        dialogue::asks_only(
            move_workspace_to_display::singleton_transfer_from(single, 1),
            within_a_second(),
        ),
        dialogue::asks_only(
            move_workspace_to_display::transfers_from(work, windows, 0),
            within_a_second(),
        ),
        dialogue::asks_only(
            move_workspace_to_display::retransfers_from(work, windows, 0),
            within_a_second(),
        ),
{
    reveal_with_fuel(move_workspace_to_display::singleton_transfer_from, 3);
    assert(dialogue::asks_only(
        move_workspace_to_display::singleton_transfer_from(single, 3),
        within_a_second(),
    ));
    assert(dialogue::asks_only(
        move_workspace_to_display::singleton_transfer_from(single, 2),
        within_a_second(),
    ));
    lemma_transfers_within_a_second(work, windows, 0);
}

proof fn lemma_transfers_within_a_second(
    work: MoveWorkspaceView,
    windows: Seq<WindowData>,
    at: int,
)
    ensures
        dialogue::asks_only(
            move_workspace_to_display::transfers_from(work, windows, at),
            within_a_second(),
        ),
        dialogue::asks_only(
            move_workspace_to_display::retransfers_from(work, windows, at),
            within_a_second(),
        ),
    decreases windows.len() - at,
{
    if 0 <= at < windows.len() {
        lemma_transfers_within_a_second(work, windows, at + 1);
    }
}

/// The workspace goes to the neighbour of the display that showed it: the destination is the
/// workspace of the same name on that display, as it was read.
pub proof fn a_workspace_departs_for_the_neighbouring_display(
    direction: DisplayDirection,
    replies: Seq<Reply>,
)
    requires
        dialogue::run(move_workspace_to_display::departure(direction), replies) matches
            Outcome::Finished(found, _) && found is Some,
    ensures
        ({
            let departing = move_workspace_to_display::departure(direction);
            let departure = dialogue::run(departing, replies)->Finished_0->0;
            &&& replies.len() > 1
            &&& replies[1] matches Reply::Displays(displays) && workflow::neighbour(
                displays@,
                departure.source.display_uuid,
                direction,
            ) matches Ok(Some(display)) && departure.target.display_uuid == display.uuid@
            &&& laws::was_read(
                laws::requests(departing, replies),
                replies,
                departure.target,
                departure.source.workspace.name@,
                departure.target.display_uuid,
            )
        }),
{
    broadcast use laws::group_requests;

    let departing = move_workspace_to_display::departure(direction);
    let asked = laws::requests(departing, replies);
    let departure = dialogue::run(departing, replies)->Finished_0->0;
    assert(replies.len() > 1);
    assert(replies.skip(1)[0] == replies[1]);
    let connected = laws::requests(rift::connect(), replies);
    let one = laws::left_over(dialogue::run(rift::connect(), replies));
    laws::each_request_has_its_reply(rift::connect(), replies);
    let reported = laws::requests(rift::displays(), one);
    let two = laws::left_over(dialogue::run(rift::displays(), one));
    let displays = dialogue::run(rift::displays(), one)->Finished_0;
    laws::each_request_has_its_reply(rift::displays(), one);
    laws::lemma_did_itself(rift::displays(), one);
    let looking = rift::focused_workspace(displays);
    let looked = laws::requests(looking, two);
    let source = dialogue::run(looking, two)->Finished_0;
    let three = laws::left_over(dialogue::run(looking, two));
    laws::each_request_has_its_reply(looking, two);
    let neighbour = workflow::neighbour(displays, source.display_uuid, direction)->Ok_0;
    assert(neighbour is Some);
    let context = rift::target_context(source.workspace.name@, neighbour->0.uuid@, displays);
    let found = laws::requests(context, three);
    laws::lemma_did_itself(context, three);
    looking::a_destination_is_on_its_display(
        source.workspace.name@,
        neighbour->0.uuid@,
        displays,
        three,
    );
    assert(found + Seq::<RequestView>::empty() =~= found);
    assert(Seq::<RequestView>::empty() + found =~= found);
    assert(asked =~= connected + (reported + (looked + found)));
    let target = departure.target;
    laws::lemma_did_later(looked, found, two, context, target);
    laws::lemma_did_later(reported, looked + found, one, context, target);
    laws::lemma_did_later(connected, reported + (looked + found), replies, context, target);
    laws::lemma_were_reported_earlier(reported, looked + found, one, displays);
    laws::lemma_were_reported_later(connected, reported + (looked + found), replies, displays);
}

/// Whether the work is to move the windows of the workspace that departs.
pub open spec fn is_move_of(work: MoveWorkspaceView, departure: Departure) -> bool {
    &&& work.workspace_name == departure.source.workspace.name@
    &&& work.windows == departure.source.workspace.windows@
    &&& work.focused_window == departure.source.focused_window
}

proof fn lemma_batch(departure: Departure, target: TargetView, replies: Seq<Reply>)
    requires
        dialogue::run(
            move_workspace_to_display::batch_move(
                target,
                departure.source.workspace.name@,
                departure.source,
            ),
            replies,
        ) is Finished,
    ensures
        exists|work: MoveWorkspaceView|
            is_move_of(work, departure) && work.target == target && #[trigger] ended_complete(
                laws::requests(
                    move_workspace_to_display::batch_move(
                        target,
                        departure.source.workspace.name@,
                        departure.source,
                    ),
                    replies,
                ),
                replies,
                work,
            ),
{
    broadcast use laws::group_requests;

    let beginning = transaction::begin_batch(departure.source.workspace.windows@.len());
    let begun = laws::requests(beginning, replies);
    let mid = laws::left_over(dialogue::run(beginning, replies));
    laws::each_request_has_its_reply(beginning, replies);
    let work = MoveWorkspaceView {
        transaction: dialogue::run(beginning, replies)->Finished_0,
        target,
        workspace_name: departure.source.workspace.name@,
        windows: departure.source.workspace.windows@,
        focused_window: departure.source.focused_window,
    };
    lemma_move_from(work, MoveWorkspaceState::PrepareDestination, mid);
    let moved = laws::requests(
        move_workspace_to_display::move_from(work, MoveWorkspaceState::PrepareDestination),
        mid,
    );
    laws::lemma_did_later(
        begun,
        moved,
        replies,
        move_workspace_to_display::requirement(work),
        (),
    );
    let asked = laws::requests(
        move_workspace_to_display::batch_move(
            target,
            departure.source.workspace.name@,
            departure.source,
        ),
        replies,
    );
    assert(asked == begun + moved);
    assert(ended_complete(asked, replies, work));
}

/// Whether a departed workspace ended complete: with its one window in place at the destination;
/// or with all of its windows there. The destination of all windows is the one that was departed
/// for; where a single window was to take the fast path first, it may be that workspace as it
/// was read anew.
pub open spec fn arrived(
    asked: Seq<RequestView>,
    replies: Seq<Reply>,
    departure: Departure,
) -> bool {
    ||| departure.source.workspace.windows@.len() == 1 && placing::ended_in_place(
        asked,
        replies,
        departure.target,
        departure.source.workspace.name@,
        departure.source.focused_window.id,
    )
    ||| exists|work: MoveWorkspaceView|
        is_move_of(work, departure) && #[trigger] ended_complete(asked, replies, work) && (
        work.target == departure.target || departure.source.workspace.windows@.len() == 1
            && laws::was_read(
            asked,
            replies,
            work.target,
            departure.source.workspace.name@,
            departure.target.display_uuid,
        ))
}

/// `move-workspace-to-display` that has succeeded found no second display, and then did nothing
/// more; or the workspace is complete on the neighbouring display, as the last that was asked
/// shows: its one window there and focused, or all of its windows there and on the display, and
/// the window that was focused focused.
pub proof fn move_workspace_ends_complete(direction: DisplayDirection, replies: Seq<Reply>)
    requires
        dialogue::run(
            move_workspace_to_display::move_workspace_program(direction),
            replies,
        ) is Finished,
    ensures
        dialogue::run(move_workspace_to_display::departure(direction), replies) is Finished,
        ({
            let departing = move_workspace_to_display::departure(direction);
            let asked = laws::requests(
                move_workspace_to_display::move_workspace_program(direction),
                replies,
            );
            match dialogue::run(departing, replies)->Finished_0 {
                None => asked == laws::requests(departing, replies),
                Some(departure) => arrived(asked, replies, departure) && laws::was_read(
                    asked,
                    replies,
                    departure.target,
                    departure.source.workspace.name@,
                    departure.target.display_uuid,
                ),
            }
        }),
{
    broadcast use laws::group_requests;

    let departing = move_workspace_to_display::departure(direction);
    let departed = laws::requests(departing, replies);
    let from = laws::left_over(dialogue::run(departing, replies));
    laws::each_request_has_its_reply(departing, replies);
    match dialogue::run(departing, replies)->Finished_0 {
        None => {
            assert(departed + Seq::<RequestView>::empty() =~= departed);
        },
        Some(departure) => {
            let moving = move_workspace_to_display::move_of(departure);
            let moved = laws::requests(moving, from);
            a_workspace_departs_for_the_neighbouring_display(direction, replies);
            laws::lemma_was_read_earlier(
                departed,
                moved,
                replies,
                departure.target,
                departure.source.workspace.name@,
                departure.target.display_uuid,
            );
            if departure.source.workspace.windows@.len() == 1 {
                lemma_singleton_or_batch(departure, from);
            } else {
                lemma_batch(departure, departure.target, from);
            }
            lemma_arrived_later(departed, moved, replies, departure);
        },
    }
}

proof fn lemma_arrived_later(
    earlier: Seq<RequestView>,
    later: Seq<RequestView>,
    replies: Seq<Reply>,
    departure: Departure,
)
    requires
        earlier.len() <= replies.len(),
        arrived(later, replies.skip(earlier.len() as int), departure),
    ensures
        arrived(earlier + later, replies, departure),
{
    let mid = replies.skip(earlier.len() as int);
    let name = departure.source.workspace.name@;
    let uuid = departure.target.display_uuid;
    if departure.source.workspace.windows@.len() == 1 && placing::ended_in_place(
        later,
        mid,
        departure.target,
        name,
        departure.source.focused_window.id,
    ) {
        placing::lemma_ended_in_place_later(
            earlier,
            later,
            replies,
            departure.target,
            name,
            departure.source.focused_window.id,
        );
    } else {
        let work = choose|work: MoveWorkspaceView|
            is_move_of(work, departure) && #[trigger] ended_complete(later, mid, work) && (
            work.target == departure.target || departure.source.workspace.windows@.len() == 1
                && laws::was_read(later, mid, work.target, name, uuid));
        laws::lemma_did_later(
            earlier,
            later,
            replies,
            move_workspace_to_display::requirement(work),
            (),
        );
        if work.target != departure.target {
            laws::lemma_was_read_later(earlier, later, replies, work.target, name, uuid);
        }
        assert(ended_complete(earlier + later, replies, work));
    }
}

proof fn lemma_singleton_or_batch(departure: Departure, replies: Seq<Reply>)
    requires
        departure.source.workspace.windows@.len() == 1,
        dialogue::run(
            move_workspace_to_display::singleton_or_batch_move(
                departure.target,
                departure.source.workspace.name@,
                departure.source,
            ),
            replies,
        ) is Finished,
    ensures
        arrived(
            laws::requests(
                move_workspace_to_display::singleton_or_batch_move(
                    departure.target,
                    departure.source.workspace.name@,
                    departure.source,
                ),
                replies,
            ),
            replies,
            departure,
        ),
{
    broadcast use laws::group_requests;

    let name = departure.source.workspace.name@;
    let uuid = departure.target.display_uuid;
    let whole = move_workspace_to_display::singleton_or_batch_move(
        departure.target,
        name,
        departure.source,
    );
    let asked = laws::requests(whole, replies);
    let beginning = transaction::begin_single();
    let begun = laws::requests(beginning, replies);
    let one = laws::left_over(dialogue::run(beginning, replies));
    laws::each_request_has_its_reply(beginning, replies);
    let work = SingletonView {
        transaction: dialogue::run(beginning, replies)->Finished_0,
        target: departure.target,
        workspace_name: name,
        window: departure.source.focused_window,
    };
    let fast = move_workspace_to_display::singleton_move(work);
    let tried = laws::requests(fast, one);
    let two = laws::left_over(dialogue::run(fast, one));
    laws::each_request_has_its_reply(fast, one);
    if dialogue::run(fast, one) is Finished {
        the_fast_path_ends_in_place(work, one);
        assert(tried + Seq::<RequestView>::empty() =~= tried);
        assert(asked =~= begun + tried);
        placing::lemma_ended_in_place_later(
            begun,
            tried,
            replies,
            departure.target,
            name,
            departure.source.focused_window.id,
        );
    } else {
        let reported = laws::requests(rift::displays(), two);
        let three = laws::left_over(dialogue::run(rift::displays(), two));
        let displays = dialogue::run(rift::displays(), two)->Finished_0;
        laws::each_request_has_its_reply(rift::displays(), two);
        laws::lemma_did_itself(rift::displays(), two);
        let context = rift::target_context(name, uuid, displays);
        let aimed = laws::requests(context, three);
        let four = laws::left_over(dialogue::run(context, three));
        let target = dialogue::run(context, three)->Finished_0;
        laws::each_request_has_its_reply(context, three);
        laws::lemma_did_itself(context, three);
        lemma_batch(departure, target, four);
        let moving = move_workspace_to_display::batch_move(target, name, departure.source);
        let moved = laws::requests(moving, four);
        assert(asked == begun + (tried + (reported + (aimed + moved))));
        let all = choose|work: MoveWorkspaceView|
            is_move_of(work, departure) && work.target == target && #[trigger] ended_complete(
                moved,
                four,
                work,
            );
        let required = move_workspace_to_display::requirement(all);
        laws::lemma_did_later(aimed, moved, three, required, ());
        laws::lemma_did_later(reported, aimed + moved, two, required, ());
        laws::lemma_did_later(tried, reported + (aimed + moved), one, required, ());
        laws::lemma_did_later(
            begun,
            tried + (reported + (aimed + moved)),
            replies,
            required,
            (),
        );
        assert(ended_complete(asked, replies, all));

        laws::lemma_did_earlier(aimed, moved, three, context, target);
        laws::lemma_did_later(reported, aimed + moved, two, context, target);
        laws::lemma_were_reported_earlier(reported, aimed + moved, two, displays);
        assert(laws::was_read(reported + (aimed + moved), two, target, name, uuid));
        laws::lemma_was_read_later(
            tried,
            reported + (aimed + moved),
            one,
            target,
            name,
            uuid,
        );
        laws::lemma_was_read_later(
            begun,
            tried + (reported + (aimed + moved)),
            replies,
            target,
            name,
            uuid,
        );
    }
}

} // verus!
