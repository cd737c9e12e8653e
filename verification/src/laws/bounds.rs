//! How much the commands do at most.
use crate::dialogue;
use crate::dialogue::Reply;
use crate::laws;
use crate::laws::looking;
use crate::model::{DisplayData, WindowData};
use crate::rift::TargetView;
use crate::transaction::RiftTransaction;
use crate::workflow::move_workspace_to_display;
use crate::workflow::move_workspace_to_display::{
    MoveWorkspaceState, MoveWorkspaceView, SingletonView,
};
use crate::workflow::placement;
use crate::workflow::placement::{CrossDisplayState, CrossDisplayView};
use vstd::prelude::*;

verus! {

broadcast use {dialogue::group_run, laws::group_count, dialogue::group_asks_only};

/// Preparing a destination takes two operations at most.
pub proof fn preparing_takes_two_operations_at_most(
    transaction: RiftTransaction,
    target: TargetView,
    workspace_name: Seq<char>,
    replies: Seq<Reply>,
)
    ensures
        laws::operation_count(
            placement::target_preparation(transaction, target, workspace_name),
            replies,
        ) <= 2,
{
}

proof fn lemma_cross_display_count(
    work: CrossDisplayView,
    state: CrossDisplayState,
    replies: Seq<Reply>,
)
    ensures
        laws::operation_count(placement::cross_display_from(work, state), replies) <= match state {
            CrossDisplayState::PrepareDestination => 5,
            CrossDisplayState::SeedDestination => 4,
            CrossDisplayState::TransferWindow => 3,
            CrossDisplayState::FollowTransferredWindow => 2,
            CrossDisplayState::FocusTransferredWindow => 1,
            _ => 0nat,
        },
    decreases placement::states_left(state),
{
    let part = match state {
        CrossDisplayState::PrepareDestination => placement::target_preparation(
            work.transaction,
            work.target,
            work.workspace_name,
        ),
        CrossDisplayState::SeedDestination => placement::destination_seeding(work),
        CrossDisplayState::TransferWindow => placement::window_transfer(work),
        CrossDisplayState::FollowTransferredWindow => placement::transferred_window_follow(work),
        CrossDisplayState::FocusTransferredWindow => placement::transferred_window_focus(work),
        _ => placement::target_verification(work.target, work.workspace_name, work.window),
    };
    let mid = laws::left_over(dialogue::run(part, replies));
    match state {
        CrossDisplayState::PrepareDestination => {
            if placement::has_no_focus_anchor(work.target) {
                lemma_cross_display_count(work, CrossDisplayState::SeedDestination, replies);
            } else {
                lemma_cross_display_count(work, CrossDisplayState::TransferWindow, mid);
            }
        },
        CrossDisplayState::SeedDestination => {
            lemma_cross_display_count(work, CrossDisplayState::FollowTransferredWindow, mid);
        },
        CrossDisplayState::TransferWindow => {
            lemma_cross_display_count(work, CrossDisplayState::FollowTransferredWindow, mid);
        },
        CrossDisplayState::FollowTransferredWindow => {
            lemma_cross_display_count(work, CrossDisplayState::FocusTransferredWindow, mid);
        },
        CrossDisplayState::FocusTransferredWindow => {
            lemma_cross_display_count(work, CrossDisplayState::Verify, mid);
        },
        CrossDisplayState::Verify => {
            lemma_cross_display_count(work, CrossDisplayState::Complete, mid);
        },
        CrossDisplayState::Complete => {},
    }
}

/// Moving a window across displays takes five operations at most.
pub proof fn a_cross_display_move_takes_five_operations_at_most(
    work: CrossDisplayView,
    replies: Seq<Reply>,
)
    ensures
        laws::operation_count(
            placement::cross_display_from(work, CrossDisplayState::PrepareDestination),
            replies,
        ) <= 5,
{
    lemma_cross_display_count(work, CrossDisplayState::PrepareDestination, replies);
}

/// The fast path for a single window takes six operations at most: two to prepare the
/// destination, two transfers, the focus and its recovery.
pub proof fn the_fast_path_takes_six_operations_at_most(work: SingletonView, replies: Seq<Reply>)
    ensures
        laws::operation_count(move_workspace_to_display::singleton_move(work), replies) <= 6,
{
    let prepared = placement::target_preparation(
        work.transaction,
        work.target,
        work.workspace_name,
    );
    let transfers = move_workspace_to_display::singleton_transfer_from(work, 1);
    let first = laws::left_over(dialogue::run(prepared, replies));
    lemma_singleton_transfer_count(work, first);
    preparing_takes_two_operations_at_most(
        work.transaction,
        work.target,
        work.workspace_name,
        replies,
    );
    let second = laws::left_over(dialogue::run(transfers, first));
    assert(laws::operation_count(move_workspace_to_display::singleton_focus(work), second) <= 2);
}

proof fn lemma_singleton_transfer_count(work: SingletonView, replies: Seq<Reply>)
    ensures
        laws::operation_count(
            move_workspace_to_display::singleton_transfer_from(work, 1),
            replies,
        ) <= 2,
{
    reveal_with_fuel(move_workspace_to_display::singleton_transfer_from, 3);
}

/// How many windows are moved, the focused one with them.
pub open spec fn window_count(work: MoveWorkspaceView) -> nat {
    move_workspace_to_display::ordered(work).len()
}

/// How many operations restoring the membership of so many windows takes at most: in each of
/// three attempts one for each window and one for all of them.
pub open spec fn reassertion_limit(windows: nat) -> nat {
    3 * (windows + 1)
}

/// How many operations restoring the focus takes at most: in each of three attempts one, and
/// what restoring the membership takes.
pub open spec fn focus_limit(windows: nat) -> nat {
    3 * (reassertion_limit(windows) + 1)
}

/// How many operations verifying the move takes at most.
pub open spec fn verification_limit(windows: nat) -> nat {
    reassertion_limit(windows) + focus_limit(windows)
}

/// How many operations moving so many windows takes at most.
pub open spec fn move_limit(windows: nat) -> nat {
    2 + windows + reassertion_limit(windows) + focus_limit(windows) + verification_limit(windows)
        + (1 + verification_limit(windows))
}

proof fn lemma_transfers_count(
    work: MoveWorkspaceView,
    windows: Seq<WindowData>,
    at: int,
    replies: Seq<Reply>,
)
    requires
        0 <= at <= windows.len(),
    ensures
        laws::operation_count(
            move_workspace_to_display::transfers_from(work, windows, at),
            replies,
        ) <= windows.len() - at,
        laws::operation_count(
            move_workspace_to_display::retransfers_from(work, windows, at),
            replies,
        ) <= windows.len() - at,
    decreases windows.len() - at,
{
    if at < windows.len() {
        let transfer = move_workspace_to_display::display_transfer(
            work,
            windows[at],
            " display transfer"@,
        );
        lemma_transfers_count(
            work,
            windows,
            at + 1,
            laws::left_over(dialogue::run(transfer, replies)),
        );
        let look = crate::rift::window_is_on_display(work.target, windows[at].id);
        looking::queries_only_look(
            work.target,
            work.workspace_name,
            work.workspace_name,
            Seq::<DisplayData>::empty(),
            windows[at].id,
            Seq::empty(),
        );
        let looked = laws::left_over(dialogue::run(look, replies));
        lemma_transfers_count(work, windows, at + 1, looked);
        let retry = move_workspace_to_display::display_transfer(
            work,
            windows[at],
            " display retry"@,
        );
        lemma_transfers_count(
            work,
            windows,
            at + 1,
            laws::left_over(dialogue::run(retry, looked)),
        );
    }
}

proof fn lemma_filter_is_no_longer<T>(items: Seq<T>, kept: spec_fn(T) -> bool)
    ensures
        items.filter(kept).len() <= items.len(),
    decreases items.len(),
{
    reveal(Seq::filter);
    if items.len() > 0 {
        lemma_filter_is_no_longer(items.drop_last(), kept);
    }
}

proof fn lemma_work_looks(work: MoveWorkspaceView)
    ensures
        dialogue::asks_only(move_workspace_to_display::missing(work), dialogue::looks()),
        dialogue::asks_only(move_workspace_to_display::all_there(work), dialogue::looks()),
        dialogue::asks_only(move_workspace_to_display::focus_restored(work), dialogue::looks()),
        dialogue::asks_only(
            crate::rift::window_is_at(work.target, work.workspace_name, work.focused_window.id),
            dialogue::looks(),
        ),
{
    looking::queries_only_look(
        work.target,
        work.workspace_name,
        work.workspace_name,
        Seq::<DisplayData>::empty(),
        work.focused_window.id,
        crate::model::ids_of(work.windows),
    );
}

proof fn lemma_membership_count(
    work: MoveWorkspaceView,
    windows: Seq<WindowData>,
    attempt: nat,
    replies: Seq<Reply>,
)
    ensures
        laws::operation_count(
            move_workspace_to_display::membership_reassertion(work, windows, attempt),
            replies,
        ) <= 1,
{
    lemma_work_looks(work);
}

proof fn lemma_reassertion_count_from(
    work: MoveWorkspaceView,
    windows: Seq<WindowData>,
    attempt: nat,
    replies: Seq<Reply>,
)
    requires
        1 <= attempt <= 4,
        windows.len() <= window_count(work),
    ensures
        laws::operation_count(
            move_workspace_to_display::reassertion_from(work, windows, attempt),
            replies,
        ) <= (4 - attempt) * (window_count(work) + 1),
    decreases 4 - attempt,
{
    if attempt <= 3 {
        let limit = window_count(work);
        let retransfers = move_workspace_to_display::retransfers_from(work, windows, 0);
        let first = laws::left_over(dialogue::run(retransfers, replies));
        lemma_transfers_count(work, windows, 0, replies);
        let reasserted = move_workspace_to_display::membership_reassertion(
            work,
            windows,
            attempt,
        );
        let second = laws::left_over(dialogue::run(reasserted, first));
        lemma_membership_count(work, windows, attempt, first);
        lemma_work_looks(work);
        let missing = move_workspace_to_display::missing(work);
        let third = laws::left_over(dialogue::run(missing, second));
        let ids = dialogue::run(missing, second)->Finished_0;
        let pending = move_workspace_to_display::pending(work, ids);
        lemma_filter_is_no_longer(
            move_workspace_to_display::ordered(work),
            crate::model::is_one_of(ids),
        );
        lemma_reassertion_count_from(work, pending, attempt + 1, third);
        assert((4 - attempt) * (limit + 1) == (4 - (attempt + 1)) * (limit + 1) + (limit + 1))
            by (nonlinear_arith);
    }
}

proof fn lemma_reassertion_count(work: MoveWorkspaceView, replies: Seq<Reply>)
    ensures
        laws::operation_count(move_workspace_to_display::reassertion(work), replies)
            <= reassertion_limit(window_count(work)),
{
    lemma_work_looks(work);
    let missing = move_workspace_to_display::missing(work);
    let rest = laws::left_over(dialogue::run(missing, replies));
    let ids = dialogue::run(missing, replies)->Finished_0;
    lemma_filter_is_no_longer(
        move_workspace_to_display::ordered(work),
        crate::model::is_one_of(ids),
    );
    lemma_reassertion_count_from(work, move_workspace_to_display::pending(work, ids), 1, rest);
}

proof fn lemma_focus_count_from(work: MoveWorkspaceView, attempt: nat, replies: Seq<Reply>)
    requires
        1 <= attempt <= 4,
    ensures
        laws::operation_count(
            move_workspace_to_display::focus_restoration_from(work, attempt),
            replies,
        ) <= (4 - attempt) * (reassertion_limit(window_count(work)) + 1),
    decreases 4 - attempt,
{
    if attempt <= 3 {
        let limit = reassertion_limit(window_count(work));
        lemma_work_looks(work);
        let restored = move_workspace_to_display::focus_restored(work);
        let first = laws::left_over(dialogue::run(restored, replies));
        let at = crate::rift::window_is_at(
            work.target,
            work.workspace_name,
            work.focused_window.id,
        );
        let second = laws::left_over(dialogue::run(at, first));
        lemma_reassertion_count(work, second);
        let third = laws::left_over(
            dialogue::run(move_workspace_to_display::reassertion(work), second),
        );
        let tried = move_workspace_to_display::focus_attempt(work, attempt);
        lemma_focus_count_from(
            work,
            attempt + 1,
            laws::left_over(dialogue::run(tried, second)),
        );
        lemma_focus_count_from(work, attempt + 1, laws::left_over(dialogue::run(tried, third)));
        assert((4 - attempt) * (limit + 1) == (4 - (attempt + 1)) * (limit + 1) + (limit + 1))
            by (nonlinear_arith);
    }
}

proof fn lemma_verification_count(work: MoveWorkspaceView, replies: Seq<Reply>)
    ensures
        laws::operation_count(move_workspace_to_display::verification(work), replies)
            <= verification_limit(window_count(work)),
{
    lemma_work_looks(work);
    let there = move_workspace_to_display::all_there(work);
    let first = laws::left_over(dialogue::run(there, replies));
    lemma_reassertion_count(work, first);
    let second = laws::left_over(
        dialogue::run(move_workspace_to_display::reassertion(work), first),
    );
    let restored = move_workspace_to_display::focus_restored(work);
    lemma_focus_count_from(work, 1, laws::left_over(dialogue::run(restored, first)));
    lemma_focus_count_from(work, 1, laws::left_over(dialogue::run(restored, second)));
    assert(laws::operation_count(move_workspace_to_display::repair(work), replies)
        <= verification_limit(window_count(work)));
    let third = laws::left_over(dialogue::run(move_workspace_to_display::repair(work), replies));
    assert(laws::operation_count(move_workspace_to_display::requirement(work), third) == 0);
}

proof fn lemma_settling_count(work: MoveWorkspaceView, replies: Seq<Reply>)
    ensures
        laws::operation_count(move_workspace_to_display::settling(work), replies) <= 1
            + verification_limit(window_count(work)),
{
    if replies.len() > 0 {
        lemma_verification_count(work, replies.skip(1));
    }
}

proof fn lemma_move_count(
    work: MoveWorkspaceView,
    state: MoveWorkspaceState,
    replies: Seq<Reply>,
)
    ensures
        laws::operation_count(move_workspace_to_display::move_from(work, state), replies)
            <= move_limit_from(window_count(work), state),
    decreases move_workspace_to_display::states_left(state),
{
    match state {
        MoveWorkspaceState::PrepareDestination => {
            let part = placement::target_preparation(
                work.transaction,
                work.target,
                work.workspace_name,
            );
            lemma_move_count(
                work,
                MoveWorkspaceState::SubmitTransfers,
                laws::left_over(dialogue::run(part, replies)),
            );
        },
        MoveWorkspaceState::SubmitTransfers => {
            let windows = move_workspace_to_display::ordered(work);
            let part = move_workspace_to_display::transfers_from(work, windows, 0);
            lemma_transfers_count(work, windows, 0, replies);
            lemma_move_count(
                work,
                MoveWorkspaceState::ReassertWorkspace,
                laws::left_over(dialogue::run(part, replies)),
            );
        },
        MoveWorkspaceState::ReassertWorkspace => {
            let part = move_workspace_to_display::reassertion(work);
            lemma_reassertion_count(work, replies);
            lemma_move_count(
                work,
                MoveWorkspaceState::FocusOriginalWindow,
                laws::left_over(dialogue::run(part, replies)),
            );
        },
        MoveWorkspaceState::FocusOriginalWindow => {
            let part = move_workspace_to_display::focus_restoration_from(work, 1);
            lemma_focus_count_from(work, 1, replies);
            lemma_move_count(
                work,
                MoveWorkspaceState::Verify,
                laws::left_over(dialogue::run(part, replies)),
            );
        },
        MoveWorkspaceState::Verify => {
            let part = move_workspace_to_display::verification(work);
            lemma_verification_count(work, replies);
            lemma_move_count(
                work,
                MoveWorkspaceState::Settle,
                laws::left_over(dialogue::run(part, replies)),
            );
        },
        MoveWorkspaceState::Settle => {
            let part = move_workspace_to_display::settling(work);
            lemma_settling_count(work, replies);
            lemma_move_count(
                work,
                MoveWorkspaceState::Complete,
                laws::left_over(dialogue::run(part, replies)),
            );
        },
        MoveWorkspaceState::Complete => {},
    }
}

spec fn move_limit_from(windows: nat, state: MoveWorkspaceState) -> nat {
    match state {
        MoveWorkspaceState::PrepareDestination => move_limit(windows),
        MoveWorkspaceState::SubmitTransfers => (move_limit(windows) - 2) as nat,
        MoveWorkspaceState::ReassertWorkspace => (move_limit(windows) - 2 - windows) as nat,
        MoveWorkspaceState::FocusOriginalWindow => focus_limit(windows) + verification_limit(
            windows,
        ) + (1 + verification_limit(windows)),
        MoveWorkspaceState::Verify => verification_limit(windows) + (1 + verification_limit(
            windows,
        )),
        MoveWorkspaceState::Settle => 1 + verification_limit(windows),
        MoveWorkspaceState::Complete => 0,
    }
}

/// Moving the windows of a workspace is bounded, whatever Rift answers: every retry is.
pub proof fn a_workspace_move_is_bounded(work: MoveWorkspaceView, replies: Seq<Reply>)
    ensures
        laws::operation_count(
            move_workspace_to_display::move_from(work, MoveWorkspaceState::PrepareDestination),
            replies,
        ) <= move_limit(window_count(work)),
        window_count(work) <= work.windows.len() + 1,
{
    lemma_move_count(work, MoveWorkspaceState::PrepareDestination, replies);
    lemma_filter_is_no_longer(
        work.windows,
        move_workspace_to_display::other_than(work.focused_window.id),
    );
}

} // verus!
