//! The operations of which moves consist: what is submitted, what is waited for and how long.
use crate::dialogue;
use crate::dialogue::{AskView, Outcome, Reply, RequestView};
use crate::laws;
use crate::laws::looking;
use crate::model::{CommandView, WindowData};
use crate::rift;
use crate::rift::{FocusedWindowView, TargetView};
use crate::transaction;
use crate::transaction::{
    CheckView, ConditionView, ExpectationView, OperationView, Pace, RiftTransaction,
};
use crate::workflow::placement;
use crate::workflow::placement::{CrossDisplayState, CrossDisplayView};
use vstd::prelude::*;

verus! {

broadcast use {dialogue::group_run, laws::group_operations};

/// A single command has two and a half seconds for each step, and no other limit; events are
/// subscribed to first.
pub proof fn a_single_command_has_two_and_a_half_seconds(replies: Seq<Reply>)
    requires
        replies.len() > 0,
        replies[0] is Done,
    ensures
        laws::requests(transaction::begin_single(), replies) == seq![
            RequestView::Outside(AskView::Subscribe),
        ],
        dialogue::run(transaction::begin_single(), replies) == Outcome::Finished(
            RiftTransaction { step_timeout: 2_500, batch_deadline: None },
            replies.skip(1),
        ),
{
    broadcast use laws::group_requests;

    assert(laws::requests(transaction::begin_single(), replies) =~= seq![
        RequestView::Outside(AskView::Subscribe),
    ]);
}

/// A batch has, besides two and a half seconds for each step, thirty seconds in all, or two and a
/// half and two for each item where that is more; the clock is read, and events are subscribed to,
/// first.
pub proof fn a_batch_has_its_time_from_its_start(item_count: nat, replies: Seq<Reply>)
    requires
        item_count <= u32::MAX,
        replies.len() > 1,
        replies[0] is Now,
        replies[1] is Done,
    ensures
        laws::requests(transaction::begin_batch(item_count), replies) == seq![
            RequestView::Outside(AskView::Now),
            RequestView::Outside(AskView::Subscribe),
        ],
        dialogue::run(transaction::begin_batch(item_count), replies) matches Outcome::Finished(
            begun,
            rest,
        ) && begun.step_timeout == 2_500 && begun.batch_deadline is Some
            && begun.batch_deadline->0 == replies[0]->Now_0 + 1_000_000 * (if 2_500 + 2_000
            * item_count < 30_000 {
            30_000
        } else {
            2_500 + 2_000 * item_count
        }) && rest == replies.skip(2),
{
    broadcast use laws::group_requests;

    assert(replies.skip(1)[0] == replies[1]);
    assert(replies.skip(1).skip(1) =~= replies.skip(2));
    assert(laws::requests(transaction::begin_batch(item_count), replies) =~= seq![
        RequestView::Outside(AskView::Now),
        RequestView::Outside(AskView::Subscribe),
    ]);
}

/// One command, and what is waited for: an event of this kind, and these conditions at the
/// destination.
pub open spec fn stepping(
    transaction: RiftTransaction,
    description: Seq<char>,
    command: CommandView,
    expectation: ExpectationView,
    target: TargetView,
    workspace_name: Seq<char>,
    conditions: Seq<ConditionView>,
) -> OperationView {
    OperationView {
        transaction,
        pace: Pace::Step,
        description,
        commands: seq![command],
        expectation,
        check: CheckView { target, workspace_name, conditions },
        timeout: transaction.step_timeout,
    }
}

/// The command that focuses a display: by the anchor there, else with the mouse.
pub open spec fn display_focusing(target: TargetView) -> CommandView {
    match target.focus_anchor {
        Some(anchor) => CommandView::FocusWindow {
            window_id: anchor.id,
            window_server_id: anchor.window_server_id,
        },
        None => CommandView::MoveMouseToDisplay { display_uuid: target.display_uuid },
    }
}

/// The command that focuses a window.
pub open spec fn window_focusing(window: WindowData) -> CommandView {
    CommandView::FocusWindow { window_id: window.id, window_server_id: window.window_server_id }
}

/// The command that moves a window to a display.
pub open spec fn display_moving(target: TargetView, window: WindowData) -> CommandView {
    CommandView::MoveWindowToDisplay {
        display_uuid: target.display_uuid,
        window_index: window.id.idx,
    }
}

/// The command that moves a window to a workspace.
pub open spec fn workspace_moving(target: TargetView, window: WindowData, follow: bool) -> CommandView {
    CommandView::MoveWindowToWorkspace {
        workspace_index: target.workspace_index,
        follow,
        window_index: window.id.idx,
    }
}

/// The events of a workspace on a destination's display.
pub open spec fn workspace_events(target: TargetView, workspace_name: Seq<char>) -> ExpectationView {
    ExpectationView::Workspace { display_uuid: target.display_uuid, workspace_name }
}

/// The operations that prepare a destination: unless its display has the keyboard, that is focused
/// and waited for until it has; unless its workspace is active, that is switched to and waited for
/// until it is.
pub open spec fn preparations(
    transaction: RiftTransaction,
    target: TargetView,
    workspace_name: Seq<char>,
) -> Seq<OperationView> {
    (if target.display_is_active {
        Seq::empty()
    } else {
        seq![
            stepping(
                transaction,
                "target display focus"@,
                display_focusing(target),
                ExpectationView::Display(target.display_uuid),
                target,
                workspace_name,
                seq![ConditionView::DisplayIsActive],
            ),
        ]
    }) + (if target.workspace_is_active {
        Seq::empty()
    } else {
        seq![
            stepping(
                transaction,
                "target workspace activation"@,
                CommandView::SwitchToWorkspace { workspace_index: target.workspace_index },
                workspace_events(target, workspace_name),
                target,
                workspace_name,
                seq![ConditionView::WorkspaceIsActive],
            ),
        ]
    })
}

/// Preparing a destination takes these operations and no others.
pub proof fn a_destination_is_prepared_as_far_as_needed(
    transaction: RiftTransaction,
    target: TargetView,
    workspace_name: Seq<char>,
    replies: Seq<Reply>,
)
    requires
        dialogue::run(
            placement::target_preparation(transaction, target, workspace_name),
            replies,
        ) is Finished,
    ensures
        laws::operations(
            placement::target_preparation(transaction, target, workspace_name),
            replies,
        ) == preparations(transaction, target, workspace_name),
{
}

/// The operation by which a window moves within its display: to the workspace, with Rift's own
/// follow, until it is focused there.
pub open spec fn moving_within(
    transaction: RiftTransaction,
    target: TargetView,
    workspace_name: Seq<char>,
    window: WindowData,
) -> OperationView {
    stepping(
        transaction,
        "window focus in target workspace"@,
        workspace_moving(target, window, true),
        workspace_events(target, workspace_name),
        target,
        workspace_name,
        seq![ConditionView::WindowIsFocusedAt(window.id)],
    )
}

/// The operations by which a window gets to another display. Where the display has the keyboard or
/// an anchor, the destination is prepared and the window transferred, until it is in the workspace.
/// Else the window goes first, until it is on the display, and the display is focused by it.
pub open spec fn getting_across(
    transaction: RiftTransaction,
    target: TargetView,
    workspace_name: Seq<char>,
    window: WindowData,
) -> Seq<OperationView> {
    if target.display_is_active || target.focus_anchor is Some {
        preparations(transaction, target, workspace_name).push(
            stepping(
                transaction,
                "window transfer"@,
                display_moving(target, window),
                workspace_events(target, workspace_name),
                target,
                workspace_name,
                seq![ConditionView::WindowIsAt(window.id)],
            ),
        )
    } else {
        seq![
            stepping(
                transaction,
                "window transfer to unfocusable display"@,
                display_moving(target, window),
                ExpectationView::Display(target.display_uuid),
                target,
                workspace_name,
                seq![ConditionView::WindowIsOnDisplay(window.id)],
            ),
            stepping(
                transaction,
                "target display focus via transferred window"@,
                window_focusing(window),
                ExpectationView::Display(target.display_uuid),
                target,
                workspace_name,
                seq![ConditionView::DisplayIsActive],
            ),
        ]
    }
}

/// The operation by which a transferred window is followed into the workspace, until that is active
/// and has the window.
pub open spec fn following_across(
    transaction: RiftTransaction,
    target: TargetView,
    workspace_name: Seq<char>,
    window: WindowData,
) -> OperationView {
    stepping(
        transaction,
        "transferred window follow"@,
        workspace_moving(target, window, true),
        workspace_events(target, workspace_name),
        target,
        workspace_name,
        seq![ConditionView::WorkspaceIsActive, ConditionView::WindowIsAt(window.id)],
    )
}

/// The operation by which a transferred window is focused, until it is.
pub open spec fn focusing_across(
    transaction: RiftTransaction,
    target: TargetView,
    workspace_name: Seq<char>,
    window: WindowData,
) -> OperationView {
    stepping(
        transaction,
        "transferred window focus"@,
        window_focusing(window),
        workspace_events(target, workspace_name),
        target,
        workspace_name,
        seq![ConditionView::WindowIsFocusedAt(window.id)],
    )
}

/// Verifying where a window is takes no operation.
pub proof fn lemma_verification(
    target: TargetView,
    workspace_name: Seq<char>,
    window: WindowData,
    replies: Seq<Reply>,
)
    ensures
        laws::operations(
            placement::target_verification(target, workspace_name, window),
            replies,
        ) == Seq::<OperationView>::empty(),
{
    broadcast use dialogue::group_asks_only;

    laws::lemma_looking_takes_no_operation(
        placement::target_verification(target, workspace_name, window),
        replies,
    );
}

/// Whether the operations move a window to a destination and follow it. On the destination's own
/// display that takes one. To another display the window is brought across and followed, and
/// focused where it is not.
pub open spec fn are_those_of_following(
    submitted: Seq<OperationView>,
    transaction: RiftTransaction,
    target: TargetView,
    workspace_name: Seq<char>,
    window: WindowData,
    display_uuid: Seq<char>,
) -> bool {
    if display_uuid == target.display_uuid {
        submitted == seq![moving_within(transaction, target, workspace_name, window)]
    } else {
        let across = getting_across(transaction, target, workspace_name, window).push(
            following_across(transaction, target, workspace_name, window),
        );
        submitted == across || submitted == across.push(
            focusing_across(transaction, target, workspace_name, window),
        )
    }
}

proof fn lemma_focus_if_needed(work: CrossDisplayView, replies: Seq<Reply>)
    requires
        dialogue::run(
            placement::cross_display_from(work, CrossDisplayState::FollowTransferredWindow),
            replies,
        ) is Finished,
    ensures
        ({
            let submitted = laws::operations(
                placement::cross_display_from(work, CrossDisplayState::FollowTransferredWindow),
                replies,
            );
            let followed = seq![
                following_across(
                    work.transaction,
                    work.target,
                    work.workspace_name,
                    work.window,
                ),
            ];
            submitted == followed || submitted == followed.push(
                focusing_across(work.transaction, work.target, work.workspace_name, work.window),
            )
        }),
{
    reveal_with_fuel(placement::cross_display_from, 4);
    let followed = seq![
        following_across(work.transaction, work.target, work.workspace_name, work.window),
    ];
    let focused = focusing_across(
        work.transaction,
        work.target,
        work.workspace_name,
        work.window,
    );
    let following = placement::transferred_window_follow(work);
    let one = laws::left_over(dialogue::run(following, replies));
    let looking = rift::window_is_focused_at(work.target, work.workspace_name, work.window.id);
    looking::queries_only_look(
        work.target,
        work.workspace_name,
        work.workspace_name,
        Seq::empty(),
        work.window.id,
        Seq::empty(),
    );
    laws::lemma_looking_takes_no_operation(looking, one);
    let focusing = placement::transferred_window_focus(work);
    let two = laws::left_over(dialogue::run(focusing, one));
    lemma_verification(work.target, work.workspace_name, work.window, two);
    let none = Seq::<OperationView>::empty();
    assert(laws::operations(following, replies) =~= followed);
    assert(laws::operations(focusing, one) =~= none || laws::operations(focusing, one) =~= seq![
        focused,
    ]);
    assert(followed + (none + (none + none)) =~= followed);
    assert(followed + (seq![focused] + (none + none)) =~= followed.push(focused));
}

/// Moving a window to a destination and following it takes these operations and no others.
pub proof fn a_window_is_moved_and_followed_by_these_operations(
    transaction: RiftTransaction,
    target: TargetView,
    workspace_name: Seq<char>,
    focused: FocusedWindowView,
    replies: Seq<Reply>,
)
    requires
        dialogue::run(
            placement::window_follow(transaction, target, workspace_name, focused),
            replies,
        ) is Finished,
    ensures
        are_those_of_following(
            laws::operations(
                placement::window_follow(transaction, target, workspace_name, focused),
                replies,
            ),
            transaction,
            target,
            workspace_name,
            focused.window,
            focused.location.display_uuid,
        ),
{
    let none = Seq::<OperationView>::empty();
    let window = focused.window;
    if focused.location.display_uuid == target.display_uuid {
        let operation = moving_within(transaction, target, workspace_name, window);
        let stepped = transaction::transact(operation);
        let rest = laws::left_over(dialogue::run(stepped, replies));
        lemma_verification(target, workspace_name, window, rest);
        assert(seq![operation] + none =~= seq![operation]);
    } else {
        let work = CrossDisplayView { transaction, target, workspace_name, window };
        lemma_across(work, replies);
    }
}

proof fn lemma_across(work: CrossDisplayView, replies: Seq<Reply>)
    requires
        dialogue::run(
            placement::cross_display_from(work, CrossDisplayState::PrepareDestination),
            replies,
        ) is Finished,
    ensures
        ({
            let submitted = laws::operations(
                placement::cross_display_from(work, CrossDisplayState::PrepareDestination),
                replies,
            );
            let across = getting_across(
                work.transaction,
                work.target,
                work.workspace_name,
                work.window,
            ).push(
                following_across(
                    work.transaction,
                    work.target,
                    work.workspace_name,
                    work.window,
                ),
            );
            submitted == across || submitted == across.push(
                focusing_across(work.transaction, work.target, work.workspace_name, work.window),
            )
        }),
{
    let start = placement::cross_display_from(work, CrossDisplayState::PrepareDestination);
    let getting = getting_across(work.transaction, work.target, work.workspace_name, work.window);
    let follow = following_across(
        work.transaction,
        work.target,
        work.workspace_name,
        work.window,
    );
    let focus = focusing_across(work.transaction, work.target, work.workspace_name, work.window);
    let across = getting.push(follow);
    assert(getting + seq![follow] =~= across);
    assert(getting + seq![follow].push(focus) =~= across.push(focus));
    if work.target.display_is_active || work.target.focus_anchor is Some {
        let preparing = placement::target_preparation(
            work.transaction,
            work.target,
            work.workspace_name,
        );
        let moved = placement::cross_display_from(work, CrossDisplayState::TransferWindow);
        let one = laws::left_over(dialogue::run(preparing, replies));
        let transferring = placement::window_transfer(work);
        let two = laws::left_over(dialogue::run(transferring, one));
        a_destination_is_prepared_as_far_as_needed(
            work.transaction,
            work.target,
            work.workspace_name,
            replies,
        );
        lemma_focus_if_needed(work, two);
        let prepared = preparations(work.transaction, work.target, work.workspace_name);
        let transfer = seq![getting.last()];
        assert(laws::operations(transferring, one) =~= transfer);
        assert(laws::operations(moved, one) == transfer + laws::operations(
            placement::cross_display_from(work, CrossDisplayState::FollowTransferredWindow),
            two,
        ));
        assert(prepared + (transfer + seq![follow]) =~= across);
        assert(prepared + (transfer + seq![follow].push(focus)) =~= across.push(focus));
    } else {
        let seeded = placement::cross_display_from(work, CrossDisplayState::SeedDestination);
        assert(start == seeded);
        let seeding = placement::destination_seeding(work);
        let one = laws::left_over(dialogue::run(seeding, replies));
        lemma_focus_if_needed(work, one);
        assert(laws::operations(seeding, replies) =~= getting);
    }
}

} // verus!
