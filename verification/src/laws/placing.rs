//! What holds of placing one window.
use crate::dialogue;
use crate::dialogue::{AskView, Program, Reply, RequestView};
use crate::laws;
use crate::laws::{looking, spaces};
use crate::model;
use crate::model::{CommandView, DisplayData, WindowData, WindowId};
use crate::policy;
use crate::rift;
use crate::rift::{FocusedWindowView, TargetView};
use crate::space_escape;
use crate::transaction;
use crate::transaction::{ConditionView, RiftTransaction};
use crate::workflow;
use crate::workflow::{move_follow, move_window_to_display, placement, DisplayDirection};
use crate::workflow::placement::{CrossDisplayState, CrossDisplayView};
use vstd::prelude::*;

verus! {

broadcast use {dialogue::group_run, laws::group_commands, dialogue::group_asks_only};

/// The commands that prepare a destination: the display is focused unless it has the keyboard,
/// and the workspace activated unless it is active.
pub open spec fn preparing(target: TargetView) -> Seq<CommandView> {
    (if target.display_is_active {
        Seq::empty()
    } else {
        seq![rift::focus_destination(target)]
    }) + (if target.workspace_is_active {
        Seq::empty()
    } else {
        seq![rift::activation_of(target)]
    })
}

/// Preparing a destination focuses its display before it activates its workspace, and leaves
/// out what is so already.
pub proof fn a_destination_is_focused_then_activated(
    transaction: RiftTransaction,
    target: TargetView,
    workspace_name: Seq<char>,
    replies: Seq<Reply>,
)
    requires
        dialogue::run(
            placement::target_preparation(transaction, target, workspace_name),
            replies,
        ) is Finished,
    ensures
        laws::commands(
            placement::target_preparation(transaction, target, workspace_name),
            replies,
        ) == preparing(target),
{
}

/// Verifying where a window is submits nothing.
pub proof fn verification_submits_nothing(
    target: TargetView,
    workspace_name: Seq<char>,
    window: WindowData,
    replies: Seq<Reply>,
)
    ensures
        laws::commands(
            placement::target_verification(target, workspace_name, window),
            replies,
        ) == Seq::<CommandView>::empty(),
{
}

/// The commands by which a window gets to another display: the destination is prepared and the
/// window transferred; without an anchor the window goes first and the display is focused by it.
pub open spec fn transferring(work: CrossDisplayView) -> Seq<CommandView> {
    if placement::has_no_focus_anchor(work.target) {
        seq![rift::transfer_of(work.target, work.window), rift::focus_of(work.window)]
    } else {
        preparing(work.target).push(rift::transfer_of(work.target, work.window))
    }
}

proof fn lemma_following(work: CrossDisplayView, replies: Seq<Reply>)
    requires
        dialogue::run(
            placement::cross_display_from(work, CrossDisplayState::FollowTransferredWindow),
            replies,
        ) is Finished,
    ensures
        ({
            let submitted = laws::commands(
                placement::cross_display_from(work, CrossDisplayState::FollowTransferredWindow),
                replies,
            );
            let followed = seq![rift::placement_of(work.target, work.window, true)];
            submitted == followed || submitted == followed.push(rift::focus_of(work.window))
        }),
{
    reveal_with_fuel(placement::cross_display_from, 4);
}

/// A window that has moved across displays was moved so: the destination was focused, its
/// workspace activated, the exact window transferred, Rift's own move to the workspace applied
/// with its follow, and then the exact window focused where it was not.
pub proof fn a_cross_display_move_proceeds_in_order(work: CrossDisplayView, replies: Seq<Reply>)
    requires
        dialogue::run(
            placement::cross_display_from(work, CrossDisplayState::PrepareDestination),
            replies,
        ) is Finished,
    ensures
        ({
            let submitted = laws::commands(
                placement::cross_display_from(work, CrossDisplayState::PrepareDestination),
                replies,
            );
            let followed = transferring(work).push(
                rift::placement_of(work.target, work.window, true),
            );
            submitted == followed || submitted == followed.push(rift::focus_of(work.window))
        }),
{
    let start = placement::cross_display_from(work, CrossDisplayState::PrepareDestination);
    let once = seq![rift::placement_of(work.target, work.window, true)];
    let twice = once.push(rift::focus_of(work.window));
    let followed = transferring(work).push(rift::placement_of(work.target, work.window, true));
    if placement::has_no_focus_anchor(work.target) {
        let seeded = placement::cross_display_from(work, CrossDisplayState::SeedDestination);
        assert(start == seeded);
        let rest = laws::left_over(dialogue::run(placement::destination_seeding(work), replies));
        lemma_following(work, rest);
        assert(laws::commands(placement::destination_seeding(work), replies) =~= transferring(
            work,
        ));
        assert(transferring(work) + once =~= followed);
        assert(transferring(work) + twice =~= followed.push(rift::focus_of(work.window)));
    } else {
        let prepared = placement::target_preparation(
            work.transaction,
            work.target,
            work.workspace_name,
        );
        let moved = placement::cross_display_from(work, CrossDisplayState::TransferWindow);
        let mid = laws::left_over(dialogue::run(prepared, replies));
        let rest = laws::left_over(dialogue::run(placement::window_transfer(work), mid));
        a_destination_is_focused_then_activated(
            work.transaction,
            work.target,
            work.workspace_name,
            replies,
        );
        lemma_following(work, rest);
        let transfer = seq![rift::transfer_of(work.target, work.window)];
        assert(laws::commands(placement::window_transfer(work), mid) =~= transfer);
        assert(preparing(work.target) + (transfer + once) =~= followed);
        assert(preparing(work.target) + (transfer + twice) =~= followed.push(
            rift::focus_of(work.window),
        ));
        assert(laws::commands(moved, mid) == transfer + once || laws::commands(moved, mid)
            == transfer + twice);
    }
}

/// Moving a window within its display takes Rift's own move to the workspace, with its follow,
/// and nothing else.
pub proof fn a_move_within_a_display_is_one_native_command(
    transaction: RiftTransaction,
    target: TargetView,
    workspace_name: Seq<char>,
    focused: FocusedWindowView,
    replies: Seq<Reply>,
)
    requires
        focused.location.display_uuid == target.display_uuid,
    ensures
        laws::commands(
            placement::window_follow(transaction, target, workspace_name, focused),
            replies,
        ) == seq![rift::placement_of(target, focused.window, true)],
{
}

/// Whether two replies show a window in the named workspace, and focused.
pub open spec fn shows_in_place(
    workspaces: Reply,
    window: Reply,
    workspace_name: Seq<char>,
    id: WindowId,
) -> bool {
    &&& workspaces matches Reply::Workspaces(workspaces) && model::first(
        workspaces@,
        model::holds(id),
    ) matches Some(workspace) && workspace.name@ == workspace_name
    &&& window matches Reply::WindowInfo(window) && window.is_focused
}

/// Whether the last two requests were for the workspaces of a destination's space and for a
/// window, and their replies show the window in the named workspace, and focused.
pub open spec fn ended_in_place(
    asked: Seq<RequestView>,
    replies: Seq<Reply>,
    target: TargetView,
    workspace_name: Seq<char>,
    id: WindowId,
) -> bool {
    let last = asked.len() - 1;
    &&& 2 <= asked.len() <= replies.len()
    &&& asked[last - 1] == RequestView::Outside(AskView::Workspaces { space: target.space })
    &&& asked[last] == RequestView::Outside(AskView::WindowInfo { window_id: id })
    &&& shows_in_place(replies[last - 1], replies[last], workspace_name, id)
}

/// A verified window is in the named workspace of the destination, and focused.
pub proof fn verification_shows_the_window_in_place(
    target: TargetView,
    workspace_name: Seq<char>,
    window: WindowData,
    replies: Seq<Reply>,
)
    requires
        dialogue::run(
            placement::target_verification(target, workspace_name, window),
            replies,
        ) is Finished,
    ensures
        ended_in_place(
            laws::requests(
                placement::target_verification(target, workspace_name, window),
                replies,
            ),
            replies,
            target,
            workspace_name,
            window.id,
        ),
{
    broadcast use laws::group_requests;

    let verified = placement::target_verification(target, workspace_name, window);
    assert(replies.len() >= 2);
    assert(replies.skip(1)[0] == replies[1]);
    assert(laws::requests(verified, replies) =~= seq![
        RequestView::Outside(AskView::Workspaces { space: target.space }),
        RequestView::Outside(AskView::WindowInfo { window_id: window.id }),
    ]);
}

/// What ended in place later on ended in place.
pub proof fn lemma_ended_in_place_later(
    earlier: Seq<RequestView>,
    later: Seq<RequestView>,
    replies: Seq<Reply>,
    target: TargetView,
    workspace_name: Seq<char>,
    id: WindowId,
)
    requires
        earlier.len() <= replies.len(),
        ended_in_place(
            later,
            replies.skip(earlier.len() as int),
            target,
            workspace_name,
            id,
        ),
    ensures
        ended_in_place(earlier + later, replies, target, workspace_name, id),
{
    let mid = replies.skip(earlier.len() as int);
    let last = later.len() - 1;
    assert(mid[last - 1] == replies[earlier.len() + last - 1]);
    assert(mid[last] == replies[earlier.len() + last]);
}

/// What a state does before the next one.
spec fn own_part(work: CrossDisplayView, state: CrossDisplayState) -> Program<()> {
    match state {
        CrossDisplayState::PrepareDestination => placement::target_preparation(
            work.transaction,
            work.target,
            work.workspace_name,
        ),
        CrossDisplayState::SeedDestination => placement::destination_seeding(work),
        CrossDisplayState::TransferWindow => placement::window_transfer(work),
        CrossDisplayState::FollowTransferredWindow => placement::transferred_window_follow(work),
        CrossDisplayState::FocusTransferredWindow => placement::transferred_window_focus(work),
        _ => placement::target_verification(work.target, work.workspace_name, work.window),
    }
}

proof fn lemma_cross_display_ends_in_place(
    work: CrossDisplayView,
    state: CrossDisplayState,
    replies: Seq<Reply>,
)
    requires
        state != CrossDisplayState::Complete,
        dialogue::run(placement::cross_display_from(work, state), replies) is Finished,
    ensures
        ended_in_place(
            laws::requests(placement::cross_display_from(work, state), replies),
            replies,
            work.target,
            work.workspace_name,
            work.window.id,
        ),
    decreases placement::states_left(state),
{
    broadcast use laws::group_requests;

    let asked = laws::requests(placement::cross_display_from(work, state), replies);
    if state == CrossDisplayState::PrepareDestination && placement::has_no_focus_anchor(
        work.target,
    ) {
        lemma_cross_display_ends_in_place(work, CrossDisplayState::SeedDestination, replies);
    } else {
        let part = own_part(work, state);
        let earlier = laws::requests(part, replies);
        let mid = laws::left_over(dialogue::run(part, replies));
        laws::each_request_has_its_reply(part, replies);
        if state == CrossDisplayState::Verify {
            verification_shows_the_window_in_place(
                work.target,
                work.workspace_name,
                work.window,
                replies,
            );
            reveal_with_fuel(placement::cross_display_from, 2);
            assert(earlier + Seq::<RequestView>::empty() =~= earlier);
        } else {
            let next = match state {
                CrossDisplayState::PrepareDestination => CrossDisplayState::TransferWindow,
                CrossDisplayState::SeedDestination => CrossDisplayState::FollowTransferredWindow,
                CrossDisplayState::TransferWindow => CrossDisplayState::FollowTransferredWindow,
                CrossDisplayState::FollowTransferredWindow =>
                    CrossDisplayState::FocusTransferredWindow,
                _ => CrossDisplayState::Verify,
            };
            lemma_cross_display_ends_in_place(work, next, mid);
            let later = laws::requests(placement::cross_display_from(work, next), mid);
            assert(asked == earlier + later);
            lemma_ended_in_place_later(
                earlier,
                later,
                replies,
                work.target,
                work.workspace_name,
                work.window.id,
            );
        }
    }
}

/// A window that has been moved and followed is where it was to go: what was asked last is where
/// the window is in the destination's space, and the replies show it in the named workspace
/// there, and focused.
pub proof fn a_followed_window_ends_in_place(
    transaction: RiftTransaction,
    target: TargetView,
    workspace_name: Seq<char>,
    focused: FocusedWindowView,
    replies: Seq<Reply>,
)
    requires
        dialogue::run(
            placement::window_follow(transaction, target, workspace_name, focused),
            replies,
        ) is Finished,
    ensures
        ended_in_place(
            laws::requests(
                placement::window_follow(transaction, target, workspace_name, focused),
                replies,
            ),
            replies,
            target,
            workspace_name,
            focused.window.id,
        ),
{
    broadcast use laws::group_requests;

    let followed = placement::window_follow(transaction, target, workspace_name, focused);
    if focused.location.display_uuid == target.display_uuid {
        let step = transaction::step(
            transaction,
            "window focus in target workspace"@,
            rift::placement_of(target, focused.window, true),
            placement::of_workspace(target, workspace_name),
            placement::checks(
                target,
                workspace_name,
                ConditionView::WindowIsFocusedAt(focused.window.id),
            ),
        );
        let earlier = laws::requests(step, replies);
        let mid = laws::left_over(dialogue::run(step, replies));
        laws::each_request_has_its_reply(step, replies);
        verification_shows_the_window_in_place(target, workspace_name, focused.window, mid);
        let later = laws::requests(
            placement::target_verification(target, workspace_name, focused.window),
            mid,
        );
        assert(laws::requests(followed, replies) == earlier + later);
        lemma_ended_in_place_later(
            earlier,
            later,
            replies,
            target,
            workspace_name,
            focused.window.id,
        );
    } else {
        lemma_cross_display_ends_in_place(
            CrossDisplayView { transaction, target, workspace_name, window: focused.window },
            CrossDisplayState::PrepareDestination,
            replies,
        );
    }
}

/// Whether the policy that was read puts the workspace on this display.
pub open spec fn is_assigned(
    asked: Seq<RequestView>,
    replies: Seq<Reply>,
    workspace_name: Seq<char>,
    display_uuid: Seq<char>,
) -> bool {
    exists|displays: Seq<DisplayData>|
        laws::were_reported(asked, replies, displays) && laws::did(
            asked,
            replies,
            #[trigger] policy::display_for(workspace_name, displays),
            display_uuid,
        )
}

/// `move-follow` aims at the display that the policy assigns the workspace, as the policy, the
/// displays and the workspaces were read.
pub proof fn move_follow_aims_where_the_policy_puts_the_workspace(
    workspace_name: Seq<char>,
    replies: Seq<Reply>,
)
    requires
        dialogue::run(move_follow::aim_for(workspace_name), replies) is Finished,
    ensures
        ({
            let asked = laws::requests(move_follow::aim_for(workspace_name), replies);
            let target = dialogue::run(
                move_follow::aim_for(workspace_name),
                replies,
            )->Finished_0.target;
            &&& is_assigned(asked, replies, workspace_name, target.display_uuid)
            &&& laws::was_read(asked, replies, target, workspace_name, target.display_uuid)
        }),
{
    broadcast use laws::group_requests;

    let aiming = move_follow::aim_for(workspace_name);
    let asked = laws::requests(aiming, replies);
    let aim = dialogue::run(aiming, replies)->Finished_0;
    let connected = laws::requests(rift::connect(), replies);
    let one = laws::left_over(dialogue::run(rift::connect(), replies));
    laws::each_request_has_its_reply(rift::connect(), replies);
    let reported = laws::requests(rift::displays(), one);
    let two = laws::left_over(dialogue::run(rift::displays(), one));
    let displays = dialogue::run(rift::displays(), one)->Finished_0;
    laws::each_request_has_its_reply(rift::displays(), one);
    laws::lemma_did_itself(rift::displays(), one);
    let assigning = policy::display_for(workspace_name, displays);
    let assigned = laws::requests(assigning, two);
    let three = laws::left_over(dialogue::run(assigning, two));
    let display_uuid = dialogue::run(assigning, two)->Finished_0;
    laws::each_request_has_its_reply(assigning, two);
    laws::lemma_did_itself(assigning, two);
    let aimed = laws::requests(
        move_follow::aim_at(workspace_name, display_uuid, displays),
        three,
    );
    assert(asked == connected + (reported + (assigned + aimed)));

    laws::lemma_did_earlier(assigned, aimed, two, assigning, display_uuid);
    laws::lemma_did_later(reported, assigned + aimed, one, assigning, display_uuid);
    laws::lemma_did_later(
        connected,
        reported + (assigned + aimed),
        replies,
        assigning,
        display_uuid,
    );
    laws::lemma_were_reported_earlier(reported, assigned + aimed, one, displays);
    laws::lemma_were_reported_later(
        connected,
        reported + (assigned + aimed),
        replies,
        displays,
    );

    lemma_aim_at(workspace_name, display_uuid, displays, three);
    let refreshed = choose|refreshed: Seq<DisplayData>|
        (refreshed == displays || laws::were_reported(aimed, three, refreshed)) && laws::did(
            aimed,
            three,
            #[trigger] rift::target_context(workspace_name, display_uuid, refreshed),
            aim.target,
        );
    let context = rift::target_context(workspace_name, display_uuid, refreshed);
    laws::lemma_did_later(assigned, aimed, two, context, aim.target);
    laws::lemma_did_later(reported, assigned + aimed, one, context, aim.target);
    laws::lemma_did_later(
        connected,
        reported + (assigned + aimed),
        replies,
        context,
        aim.target,
    );
    if refreshed != displays {
        laws::lemma_were_reported_later(assigned, aimed, two, refreshed);
        laws::lemma_were_reported_later(reported, assigned + aimed, one, refreshed);
        laws::lemma_were_reported_later(
            connected,
            reported + (assigned + aimed),
            replies,
            refreshed,
        );
    }
}

proof fn lemma_aim_at(
    workspace_name: Seq<char>,
    display_uuid: Seq<char>,
    displays: Seq<DisplayData>,
    replies: Seq<Reply>,
)
    requires
        dialogue::run(
            move_follow::aim_at(workspace_name, display_uuid, displays),
            replies,
        ) is Finished,
    ensures
        ({
            let aiming = move_follow::aim_at(workspace_name, display_uuid, displays);
            let asked = laws::requests(aiming, replies);
            let target = dialogue::run(aiming, replies)->Finished_0.target;
            &&& target.display_uuid == display_uuid
            &&& exists|refreshed: Seq<DisplayData>|
                (refreshed == displays || laws::were_reported(asked, replies, refreshed))
                    && laws::did(
                    asked,
                    replies,
                    #[trigger] rift::target_context(workspace_name, display_uuid, refreshed),
                    target,
                )
        }),
{
    broadcast use laws::group_requests;

    let aiming = move_follow::aim_at(workspace_name, display_uuid, displays);
    let asked = laws::requests(aiming, replies);
    let target = dialogue::run(aiming, replies)->Finished_0.target;
    let looking = dialogue::attempt(rift::focused_window(displays));
    let looked = laws::requests(looking, replies);
    let one = laws::left_over(dialogue::run(looking, replies));
    laws::each_request_has_its_reply(looking, replies);
    let managing = space_escape::managed_space(display_uuid, displays);
    let managed = laws::requests(managing, one);
    let two = laws::left_over(dialogue::run(managing, one));
    let refreshed = dialogue::run(managing, one)->Finished_0;
    laws::each_request_has_its_reply(managing, one);
    spaces::the_displays_are_the_same_or_were_reported(display_uuid, displays, one);
    let context = rift::target_context(workspace_name, display_uuid, refreshed);
    let found = laws::requests(context, two);
    laws::each_request_has_its_reply(context, two);
    laws::lemma_did_itself(context, two);
    looking::a_destination_is_on_its_display(workspace_name, display_uuid, refreshed, two);
    assert(found + Seq::<RequestView>::empty() =~= found);
    assert(asked =~= looked + (managed + found));
    laws::lemma_did_later(managed, found, one, context, target);
    laws::lemma_did_later(looked, managed + found, replies, context, target);
    if refreshed != displays {
        laws::lemma_were_reported_earlier(managed, found, one, refreshed);
        laws::lemma_were_reported_later(looked, managed + found, replies, refreshed);
    }
}

/// `move-follow` that has succeeded found the focused window where it belongs, and did nothing
/// more after it had found that out; or left it there: what was asked last is where the window
/// is in the space of the destination, which is the workspace on the display that the policy
/// assigns it, and the replies show the window in that workspace, and focused.
pub proof fn move_follow_ends_in_place(workspace_name: Seq<char>, replies: Seq<Reply>)
    requires
        dialogue::run(move_follow::move_follow_program(workspace_name), replies) is Finished,
    ensures
        dialogue::run(move_follow::aim_for(workspace_name), replies) is Finished,
        ({
            let asked = laws::requests(move_follow::move_follow_program(workspace_name), replies);
            let aim = dialogue::run(move_follow::aim_for(workspace_name), replies)->Finished_0;
            &&& is_assigned(asked, replies, workspace_name, aim.target.display_uuid)
            &&& laws::was_read(
                asked,
                replies,
                aim.target,
                workspace_name,
                aim.target.display_uuid,
            )
            &&& if placement::is_at_target(aim.focused, aim.target, workspace_name) {
                asked == laws::requests(move_follow::aim_for(workspace_name), replies)
            } else {
                ended_in_place(
                    asked,
                    replies,
                    aim.target,
                    workspace_name,
                    aim.focused.window.id,
                )
            }
        }),
{
    broadcast use laws::group_requests;

    let whole = move_follow::move_follow_program(workspace_name);
    let asked = laws::requests(whole, replies);
    let aiming = move_follow::aim_for(workspace_name);
    let aim = dialogue::run(aiming, replies)->Finished_0;
    let aimed = laws::requests(aiming, replies);
    let found = laws::left_over(dialogue::run(aiming, replies));
    laws::each_request_has_its_reply(aiming, replies);
    move_follow_aims_where_the_policy_puts_the_workspace(workspace_name, replies);
    let moving = move_follow::follow_unless_there(workspace_name, aim.target, aim.focused);
    let moved = laws::requests(moving, found);
    assert(asked == aimed + moved);
    laws::lemma_was_read_earlier(
        aimed,
        moved,
        replies,
        aim.target,
        workspace_name,
        aim.target.display_uuid,
    );
    lemma_is_assigned_earlier(
        aimed,
        moved,
        replies,
        workspace_name,
        aim.target.display_uuid,
    );
    if placement::is_at_target(aim.focused, aim.target, workspace_name) {
        assert(aimed + moved =~= aimed);
    } else {
        let begun = transaction::begin_single();
        let transaction = dialogue::run(begun, found)->Finished_0;
        let started = laws::requests(begun, found);
        let mid = laws::left_over(dialogue::run(begun, found));
        laws::each_request_has_its_reply(begun, found);
        a_followed_window_ends_in_place(
            transaction,
            aim.target,
            workspace_name,
            aim.focused,
            mid,
        );
        let followed = laws::requests(
            placement::window_follow(transaction, aim.target, workspace_name, aim.focused),
            mid,
        );
        assert(moved == started + followed);
        lemma_ended_in_place_later(
            started,
            followed,
            found,
            aim.target,
            workspace_name,
            aim.focused.window.id,
        );
        lemma_ended_in_place_later(
            aimed,
            moved,
            replies,
            aim.target,
            workspace_name,
            aim.focused.window.id,
        );
    }
}

proof fn lemma_is_assigned_earlier(
    earlier: Seq<RequestView>,
    later: Seq<RequestView>,
    replies: Seq<Reply>,
    workspace_name: Seq<char>,
    display_uuid: Seq<char>,
)
    requires
        is_assigned(earlier, replies, workspace_name, display_uuid),
    ensures
        is_assigned(earlier + later, replies, workspace_name, display_uuid),
{
    let displays = choose|displays: Seq<DisplayData>|
        laws::were_reported(earlier, replies, displays) && laws::did(
            earlier,
            replies,
            #[trigger] policy::display_for(workspace_name, displays),
            display_uuid,
        );
    laws::lemma_were_reported_earlier(earlier, later, replies, displays);
    laws::lemma_did_earlier(
        earlier,
        later,
        replies,
        policy::display_for(workspace_name, displays),
        display_uuid,
    );
}

/// Whether a window ended in place in the active workspace of a display: the workspace was read
/// as a destination out of these displays, and the last that was asked shows the window there,
/// and focused.
pub open spec fn ended_on_display(
    asked: Seq<RequestView>,
    replies: Seq<Reply>,
    display_uuid: Seq<char>,
    displays: Seq<DisplayData>,
    id: WindowId,
) -> bool {
    exists|workspace_name: Seq<char>, target: TargetView|
        #[trigger] ended_in_place(asked, replies, target, workspace_name, id)
            && target.display_uuid == display_uuid && laws::did(
            asked,
            replies,
            rift::active_target_context(display_uuid, displays),
            (workspace_name, target),
        )
}

/// The active workspace of a display as a destination is on that display, and its name is the one
/// that the active workspace has in the reply for the display's space.
pub proof fn an_active_destination_is_on_its_display(
    display_uuid: Seq<char>,
    displays: Seq<DisplayData>,
    replies: Seq<Reply>,
)
    requires
        dialogue::run(rift::active_target_context(display_uuid, displays), replies) is Finished,
    ensures
        ({
            let named = dialogue::run(
                rift::active_target_context(display_uuid, displays),
                replies,
            )->Finished_0;
            &&& named.1.display_uuid == display_uuid
            &&& replies.len() > 0
            &&& replies[0] matches Reply::Workspaces(workspaces) && model::first(
                workspaces@,
                model::is_active(),
            ) matches Some(workspace) && workspace.name@ == named.0
        }),
{
    assert(replies.len() > 0);
    let workspace = model::first(replies[0]->Workspaces_0@, model::is_active())->0;
    looking::a_destination_is_on_its_display(
        workspace.name@,
        display_uuid,
        displays,
        replies.skip(1),
    );
}

proof fn lemma_moved_onto(
    display: DisplayData,
    displays: Seq<DisplayData>,
    focused: FocusedWindowView,
    replies: Seq<Reply>,
)
    requires
        dialogue::run(
            move_window_to_display::move_window_onto(display, displays, focused),
            replies,
        ) is Finished,
    ensures
        ended_on_display(
            laws::requests(
                move_window_to_display::move_window_onto(display, displays, focused),
                replies,
            ),
            replies,
            display.uuid@,
            displays,
            focused.window.id,
        ),
{
    broadcast use laws::group_requests;

    reveal(move_window_to_display::move_window_onto);
    let whole = move_window_to_display::move_window_onto(display, displays, focused);
    let asked = laws::requests(whole, replies);
    let context = rift::active_target_context(display.uuid@, displays);
    let aimed = laws::requests(context, replies);
    let named = dialogue::run(context, replies)->Finished_0;
    let one = laws::left_over(dialogue::run(context, replies));
    laws::each_request_has_its_reply(context, replies);
    laws::lemma_did_itself(context, replies);
    an_active_destination_is_on_its_display(display.uuid@, displays, replies);
    let beginning = transaction::begin_single();
    let begun = laws::requests(beginning, one);
    let transaction = dialogue::run(beginning, one)->Finished_0;
    let two = laws::left_over(dialogue::run(beginning, one));
    laws::each_request_has_its_reply(beginning, one);
    let following = placement::window_follow(transaction, named.1, named.0, focused);
    let followed = laws::requests(following, two);
    a_followed_window_ends_in_place(transaction, named.1, named.0, focused, two);
    let id = focused.window.id;
    lemma_ended_in_place_later(begun, followed, one, named.1, named.0, id);
    lemma_ended_in_place_later(aimed, begun + followed, replies, named.1, named.0, id);
    laws::lemma_did_earlier(aimed, begun + followed, replies, context, named);
    assert(asked == aimed + (begun + followed));
    assert((named.0, named.1) == named);
    assert(ended_in_place(asked, replies, named.1, named.0, id));
}

proof fn lemma_ended_on_display_later(
    earlier: Seq<RequestView>,
    later: Seq<RequestView>,
    replies: Seq<Reply>,
    display_uuid: Seq<char>,
    displays: Seq<DisplayData>,
    id: WindowId,
)
    requires
        earlier.len() <= replies.len(),
        ended_on_display(later, replies.skip(earlier.len() as int), display_uuid, displays, id),
    ensures
        ended_on_display(earlier + later, replies, display_uuid, displays, id),
{
    let mid = replies.skip(earlier.len() as int);
    let context = rift::active_target_context(display_uuid, displays);
    let (name, target) = choose|name: Seq<char>, target: TargetView|
        #[trigger] ended_in_place(later, mid, target, name, id) && target.display_uuid
            == display_uuid && laws::did(later, mid, context, (name, target));
    lemma_ended_in_place_later(earlier, later, replies, target, name, id);
    laws::lemma_did_later(earlier, later, replies, context, (name, target));
}

/// What `move-window-to-display` consists of.
pub proof fn lemma_move_window_parts(direction: DisplayDirection, replies: Seq<Reply>)
    requires
        dialogue::run(move_window_to_display::move_window_program(direction), replies) is Finished,
    ensures
        replies.len() > 1,
        replies[1] is Displays,
        ({
            let displays = replies[1]->Displays_0@;
            let asked = laws::requests(
                move_window_to_display::move_window_program(direction),
                replies,
            );
            let start = seq![
                RequestView::Outside(AskView::Connect),
                RequestView::Outside(AskView::Displays),
            ];
            let finding = rift::focused_window(displays);
            let outcome = dialogue::run(finding, replies.skip(2));
            let focused = outcome->Finished_0;
            let found = laws::requests(finding, replies.skip(2));
            let rest = laws::left_over(outcome);
            &&& outcome is Finished
            &&& match workflow::neighbour(displays, focused.location.display_uuid, direction) {
                Ok(Some(display)) => {
                    let moving = move_window_to_display::move_window_onto(
                        display,
                        displays,
                        focused,
                    );
                    dialogue::run(moving, rest) is Finished && asked == start + (found
                        + laws::requests(moving, rest))
                },
                Ok(None) => asked == start + found,
                Err(_) => false,
            }
        }),
{
    broadcast use laws::group_requests;

    assert(replies.len() > 1);
    assert(replies.skip(1)[0] == replies[1]);
    assert(replies.skip(1).skip(1) =~= replies.skip(2));
}

/// `move-window-to-display` that has succeeded found no second display, and then did nothing
/// more; or the window that was focused is in the active workspace of the neighbouring display,
/// and focused, as the last that was asked shows.
pub proof fn move_window_ends_in_place(direction: DisplayDirection, replies: Seq<Reply>)
    requires
        dialogue::run(move_window_to_display::move_window_program(direction), replies) is Finished,
    ensures
        replies.len() > 1,
        replies[1] is Displays,
        ({
            let displays = replies[1]->Displays_0@;
            let asked = laws::requests(
                move_window_to_display::move_window_program(direction),
                replies,
            );
            let finding = rift::focused_window(displays);
            let focused = dialogue::run(finding, replies.skip(2))->Finished_0;
            &&& dialogue::run(finding, replies.skip(2)) is Finished
            &&& match workflow::neighbour(displays, focused.location.display_uuid, direction) {
                Ok(Some(display)) => ended_on_display(
                    asked,
                    replies,
                    display.uuid@,
                    displays,
                    focused.window.id,
                ),
                Ok(None) => asked == seq![
                    RequestView::Outside(AskView::Connect),
                    RequestView::Outside(AskView::Displays),
                ] + laws::requests(finding, replies.skip(2)),
                Err(_) => false,
            }
        }),
{
    let asked = laws::requests(
        move_window_to_display::move_window_program(direction),
        replies,
    );
    lemma_move_window_parts(direction, replies);
    let displays = replies[1]->Displays_0@;
    let start = seq![
        RequestView::Outside(AskView::Connect),
        RequestView::Outside(AskView::Displays),
    ];
    let one = replies.skip(2);
    let finding = rift::focused_window(displays);
    let found = laws::requests(finding, one);
    let focused = dialogue::run(finding, one)->Finished_0;
    let two = laws::left_over(dialogue::run(finding, one));
    laws::each_request_has_its_reply(finding, one);
    match workflow::neighbour(displays, focused.location.display_uuid, direction) {
        Ok(Some(display)) => {
            let moving = move_window_to_display::move_window_onto(display, displays, focused);
            let moved = laws::requests(moving, two);
            let uuid = display.uuid@;
            let id = focused.window.id;
            lemma_moved_onto(display, displays, focused, two);
            lemma_ended_on_display_later(found, moved, one, uuid, displays, id);
            lemma_ended_on_display_later(start, found + moved, replies, uuid, displays, id);
            assert(asked == start + (found + moved));
        },
        _ => {},
    }
}

} // verus!
