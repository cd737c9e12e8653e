//! The operations of which moving a workspace consists.
use crate::dialogue;
use crate::dialogue::{AskView, Outcome, Program, Reply, RequestView};
use crate::error::{ErrorKind, ErrorView};
use crate::laws;
use crate::laws::{following, homecoming, looking, steps};
use crate::model;
use crate::model::{CommandView, WindowData, WindowId};
use crate::rift;
use crate::rift::{FocusedWorkspaceView, TargetView};
use crate::text;
use crate::transaction;
use crate::transaction::{
    CheckView, ConditionView, ExpectationView, OperationView, Pace, RiftTransaction,
};
use crate::workflow::move_workspace_to_display as moves;
use crate::workflow::move_workspace_to_display::{
    Departure, MoveWorkspaceState, MoveWorkspaceView, SingletonView,
};
use crate::workflow::placement;
use vstd::prelude::*;

verus! {

/// One command, and how long an expected event and these conditions are waited for.
pub open spec fn confirming(
    transaction: RiftTransaction,
    description: Seq<char>,
    command: CommandView,
    expectation: ExpectationView,
    target: TargetView,
    workspace_name: Seq<char>,
    conditions: Seq<ConditionView>,
    timeout: u64,
) -> OperationView {
    OperationView {
        transaction,
        pace: Pace::Confirmed,
        description,
        commands: seq![command],
        expectation,
        check: CheckView { target, workspace_name, conditions },
        timeout,
    }
}

// ---------------------------------------------------------------------------
// One window.
// ---------------------------------------------------------------------------

/// An attempt to transfer the one window: until it is in the workspace and on the display, for a
/// quarter of a second at first and for a second then.
pub open spec fn quick_transfer(work: SingletonView, second: bool) -> OperationView {
    confirming(
        work.transaction,
        "singleton physical transfer attempt "@ + (if second {
            "2"@
        } else {
            "1"@
        }),
        steps::display_moving(work.target, work.window),
        steps::workspace_events(work.target, work.workspace_name),
        work.target,
        work.workspace_name,
        seq![
            ConditionView::WindowIsAt(work.window.id),
            ConditionView::WindowIsOnDisplay(work.window.id),
        ],
        if second {
            1_000
        } else {
            250
        },
    )
}

/// Focusing the one window: until it is focused in the workspace, for half a second.
pub open spec fn quick_focus(work: SingletonView) -> OperationView {
    confirming(
        work.transaction,
        "singleton focus"@,
        steps::window_focusing(work.window),
        steps::workspace_events(work.target, work.workspace_name),
        work.target,
        work.workspace_name,
        seq![ConditionView::WindowIsFocusedAt(work.window.id)],
        500,
    )
}

/// Transferring the one window once more, where it could not be focused: until it is focused in the
/// workspace and on the display, for a second.
pub open spec fn quick_recovery(work: SingletonView) -> OperationView {
    confirming(
        work.transaction,
        "singleton focus recovery"@,
        steps::display_moving(work.target, work.window),
        steps::workspace_events(work.target, work.workspace_name),
        work.target,
        work.workspace_name,
        seq![
            ConditionView::WindowIsFocusedAt(work.window.id),
            ConditionView::WindowIsOnDisplay(work.window.id),
        ],
        1_000,
    )
}

/// Whether a reply reports that time ran out.
pub open spec fn ran_out(reply: Reply) -> bool {
    reply matches Reply::Failed(error) && error@.kind == ErrorKind::TimedOut
}

/// The window is transferred, and once more where the first time ran out. A failure of another kind,
/// and one of the second time, is reported.
pub proof fn one_window_is_transferred_twice_at_most(work: SingletonView, replies: Seq<Reply>)
    requires
        replies.len() > 0,
        ran_out(replies[0]) ==> replies.len() > 1,
    ensures
        ({
            let program = moves::singleton_transfer_from(work, 1);
            let outcome = dialogue::run(program, replies);
            let first = quick_transfer(work, false);
            let second = quick_transfer(work, true);
            if ran_out(replies[0]) {
                &&& laws::operations(program, replies) == seq![first, second]
                &&& replies[1] is Done ==> outcome == Outcome::Finished((), replies.skip(2))
                &&& replies[1] matches Reply::Failed(error) ==> outcome == Outcome::<()>::Failed(
                    error@,
                    replies.skip(2),
                )
            } else {
                &&& laws::operations(program, replies) == seq![first]
                &&& replies[0] is Done ==> outcome == Outcome::Finished((), replies.skip(1))
                &&& replies[0] matches Reply::Failed(error) ==> outcome == Outcome::<()>::Failed(
                    error@,
                    replies.skip(1),
                )
            }
        }),
{
    broadcast use {dialogue::group_run, laws::group_operations};

    reveal_with_fuel(moves::singleton_transfer_from, 3);
    assert(text::decimal(1) == "1"@);
    assert(text::decimal(2) == "2"@);
    let program = moves::singleton_transfer_from(work, 1);
    let first = quick_transfer(work, false);
    let second = quick_transfer(work, true);
    assert(transaction::transact(first) == transaction::confirmed_step(
        work.transaction,
        "singleton physical transfer attempt "@ + text::decimal(1),
        rift::transfer_of(work.target, work.window),
        placement::of_workspace(work.target, work.workspace_name),
        placement::checks_both(
            work.target,
            work.workspace_name,
            ConditionView::WindowIsAt(work.window.id),
            ConditionView::WindowIsOnDisplay(work.window.id),
        ),
        250,
    ));
    let none = Seq::<OperationView>::empty();
    if ran_out(replies[0]) {
        assert(replies.skip(1)[0] == replies[1]);
        assert(replies.skip(1).skip(1) =~= replies.skip(2));
        assert(laws::operations(moves::singleton_transfer_from(work, 2), replies.skip(1)) =~= seq![
            second,
        ]);
        assert(laws::operations(program, replies) =~= seq![first, second]);
    } else {
        assert(laws::operations(program, replies) =~= seq![first]);
    }
}

/// The window is focused, and where the time for that ran out transferred once more. A failure of
/// another kind is reported.
pub proof fn one_window_is_focused_or_transferred_again(work: SingletonView, replies: Seq<Reply>)
    requires
        replies.len() > 0,
        ran_out(replies[0]) ==> replies.len() > 1,
    ensures
        ({
            let program = moves::singleton_focus(work);
            let outcome = dialogue::run(program, replies);
            if ran_out(replies[0]) {
                &&& laws::operations(program, replies) == seq![
                    quick_focus(work),
                    quick_recovery(work),
                ]
                &&& replies[1] is Done ==> outcome == Outcome::Finished((), replies.skip(2))
                &&& replies[1] matches Reply::Failed(error) ==> outcome == Outcome::<()>::Failed(
                    error@,
                    replies.skip(2),
                )
            } else {
                &&& laws::operations(program, replies) == seq![quick_focus(work)]
                &&& replies[0] is Done ==> outcome == Outcome::Finished((), replies.skip(1))
                &&& replies[0] matches Reply::Failed(error) ==> outcome == Outcome::<()>::Failed(
                    error@,
                    replies.skip(1),
                )
            }
        }),
{
    broadcast use {dialogue::group_run, laws::group_operations};

    let program = moves::singleton_focus(work);
    if ran_out(replies[0]) {
        assert(replies.skip(1)[0] == replies[1]);
        assert(replies.skip(1).skip(1) =~= replies.skip(2));
        assert(laws::operations(program, replies) =~= seq![
            quick_focus(work),
            quick_recovery(work),
        ]);
    } else {
        assert(laws::operations(program, replies) =~= seq![quick_focus(work)]);
    }
}

/// Whether the operations are those of moving one window by the fast path.
pub open spec fn are_quick(work: SingletonView, submitted: Seq<OperationView>) -> bool {
    exists|second: bool, again: bool|
        submitted == #[trigger] quick_operations(work, second, again)
}

/// The operations of moving one window by the fast path: the destination is prepared; the window is
/// transferred, or transferred twice; it is focused, and perhaps transferred again.
pub open spec fn quick_operations(work: SingletonView, second: bool, again: bool) -> Seq<
    OperationView,
> {
    steps::preparations(work.transaction, work.target, work.workspace_name) + ((if second {
        seq![quick_transfer(work, false), quick_transfer(work, true)]
    } else {
        seq![quick_transfer(work, false)]
    }) + (if again {
        seq![quick_focus(work), quick_recovery(work)]
    } else {
        seq![quick_focus(work)]
    }))
}

/// The fast path that has succeeded took these operations and no others.
pub proof fn the_fast_path_takes_these_operations(work: SingletonView, replies: Seq<Reply>)
    requires
        dialogue::run(moves::singleton_move(work), replies) is Finished,
    ensures
        are_quick(work, laws::operations(moves::singleton_move(work), replies)),
{
    broadcast use {dialogue::group_run, laws::group_operations};

    let preparing = placement::target_preparation(
        work.transaction,
        work.target,
        work.workspace_name,
    );
    let transferring = moves::singleton_transfer_from(work, 1);
    let focusing = moves::singleton_focus(work);
    let verifying = placement::target_verification(work.target, work.workspace_name, work.window);
    let one = laws::left_over(dialogue::run(preparing, replies));
    let two = laws::left_over(dialogue::run(transferring, one));
    let three = laws::left_over(dialogue::run(focusing, two));
    steps::a_destination_is_prepared_as_far_as_needed(
        work.transaction,
        work.target,
        work.workspace_name,
        replies,
    );
    lemma_finished_transfer(work, one);
    lemma_finished_focus(work, two);
    steps::lemma_verification(work.target, work.workspace_name, work.window, three);
    let none = Seq::<OperationView>::empty();
    let prepared = laws::operations(preparing, replies);
    let transferred = laws::operations(transferring, one);
    let focused = laws::operations(focusing, two);
    assert(prepared + (transferred + (focused + none)) =~= prepared + (transferred + focused));
    assert(laws::operations(moves::singleton_move(work), replies) == prepared + (transferred
        + focused));
    let second = ran_out(one[0]);
    let again = ran_out(two[0]);
    assert(laws::operations(moves::singleton_move(work), replies) == quick_operations(
        work,
        second,
        again,
    ));
}

proof fn lemma_finished_transfer(work: SingletonView, replies: Seq<Reply>)
    requires
        dialogue::run(moves::singleton_transfer_from(work, 1), replies) is Finished,
    ensures
        replies.len() > 0,
        laws::operations(moves::singleton_transfer_from(work, 1), replies) == (if ran_out(
            replies[0],
        ) {
            seq![quick_transfer(work, false), quick_transfer(work, true)]
        } else {
            seq![quick_transfer(work, false)]
        }),
{
    broadcast use {dialogue::group_run, laws::group_operations};

    reveal_with_fuel(moves::singleton_transfer_from, 3);
    assert(replies.len() > 0);
    if ran_out(replies[0]) {
        assert(replies.skip(1).len() > 0);
    }
    one_window_is_transferred_twice_at_most(work, replies);
}

proof fn lemma_finished_focus(work: SingletonView, replies: Seq<Reply>)
    requires
        dialogue::run(moves::singleton_focus(work), replies) is Finished,
    ensures
        replies.len() > 0,
        laws::operations(moves::singleton_focus(work), replies) == (if ran_out(replies[0]) {
            seq![quick_focus(work), quick_recovery(work)]
        } else {
            seq![quick_focus(work)]
        }),
{
    broadcast use {dialogue::group_run, laws::group_operations};

    assert(replies.len() > 0);
    if ran_out(replies[0]) {
        assert(replies.skip(1).len() > 0);
    }
    one_window_is_focused_or_transferred_again(work, replies);
}

// ---------------------------------------------------------------------------
// All windows.
// ---------------------------------------------------------------------------

/// The windows in the order in which they are moved: those other than the focused one, in their
/// order, and then that.
pub open spec fn in_order(work: MoveWorkspaceView) -> Seq<WindowData> {
    work.windows.filter(|window: WindowData| window.id != work.focused_window.id).push(
        work.focused_window,
    )
}

/// Those of them with one of these identifiers.
pub open spec fn in_order_among(work: MoveWorkspaceView, ids: Seq<WindowId>) -> Seq<WindowData> {
    in_order(work).filter(
        |window: WindowData| exists|k: int| 0 <= k < ids.len() && #[trigger] ids[k] == window.id,
    )
}

proof fn lemma_same_filter(
    windows: Seq<WindowData>,
    first: spec_fn(WindowData) -> bool,
    second: spec_fn(WindowData) -> bool,
)
    requires
        forall|window: WindowData| #[trigger] first(window) == second(window),
    ensures
        windows.filter(first) == windows.filter(second),
    decreases windows.len(),
{
    reveal(Seq::filter);
    if windows.len() > 0 {
        lemma_same_filter(windows.drop_last(), first, second);
        assert(first(windows.last()) == second(windows.last()));
    }
}

/// The windows are moved in this order, and those that are still to be moved in the same.
pub proof fn the_others_are_moved_before_the_focused_window(
    work: MoveWorkspaceView,
    ids: Seq<WindowId>,
)
    ensures
        moves::ordered(work) == in_order(work),
        moves::pending(work, ids) == in_order_among(work, ids),
{
    lemma_same_filter(
        work.windows,
        moves::other_than(work.focused_window.id),
        |window: WindowData| window.id != work.focused_window.id,
    );
    lemma_same_filter(
        in_order(work),
        model::is_one_of(ids),
        |window: WindowData| exists|k: int| 0 <= k < ids.len() && #[trigger] ids[k] == window.id,
    );
}

/// The identifiers of all the windows.
pub open spec fn all_ids(work: MoveWorkspaceView) -> Seq<WindowId> {
    Seq::new(work.windows.len(), |i: int| work.windows[i].id)
}

/// What is looked for while a workspace moves: all of its windows, and the window that was focused.
pub proof fn all_windows_are_looked_for(work: MoveWorkspaceView)
    ensures
        moves::missing(work) == rift::windows_missing_from_workspace(
            work.target,
            work.workspace_name,
            all_ids(work),
        ),
        moves::all_there(work) == rift::windows_are_at(
            work.target,
            work.workspace_name,
            all_ids(work),
        ),
        moves::focus_restored(work) == rift::window_is_focused_at(
            work.target,
            work.workspace_name,
            work.focused_window.id,
        ),
{
    assert(model::ids_of(work.windows) =~= all_ids(work));
}

/// A transfer of one of the windows: until it is on the display, for a second.
pub open spec fn transfer(
    work: MoveWorkspaceView,
    window: WindowData,
    purpose: Seq<char>,
) -> OperationView {
    confirming(
        work.transaction,
        "window "@ + text::decimal(window.id.idx as nat) + purpose,
        steps::display_moving(work.target, window),
        ExpectationView::Display(work.target.display_uuid),
        work.target,
        work.workspace_name,
        seq![ConditionView::WindowIsOnDisplay(window.id)],
        1_000,
    )
}

/// A transfer is asked for once. That its time ran out is left to what follows; another failure is
/// reported.
pub proof fn a_transfer_may_run_out_of_time(
    work: MoveWorkspaceView,
    window: WindowData,
    purpose: Seq<char>,
    replies: Seq<Reply>,
)
    requires
        replies.len() > 0,
    ensures
        laws::operations(moves::display_transfer(work, window, purpose), replies) == seq![
            transfer(work, window, purpose),
        ],
        replies[0] is Done || ran_out(replies[0]) ==> dialogue::run(
            moves::display_transfer(work, window, purpose),
            replies,
        ) == Outcome::Finished((), replies.skip(1)),
        replies[0] matches Reply::Failed(error) ==> !ran_out(replies[0]) ==> dialogue::run(
            moves::display_transfer(work, window, purpose),
            replies,
        ) == Outcome::<()>::Failed(error@, replies.skip(1)),
{
    broadcast use {dialogue::group_run, laws::group_operations};

    let program = moves::display_transfer(work, window, purpose);
    assert(laws::operations(program, replies) =~= seq![transfer(work, window, purpose)]);
}

proof fn lemma_transfers(
    work: MoveWorkspaceView,
    windows: Seq<WindowData>,
    at: int,
    replies: Seq<Reply>,
)
    requires
        0 <= at <= windows.len(),
        dialogue::run(moves::transfers_from(work, windows, at), replies) is Finished,
    ensures
        laws::operations(moves::transfers_from(work, windows, at), replies) == Seq::new(
            windows.len(),
            |i: int| transfer(work, windows[i], " display transfer"@),
        ).skip(at),
    decreases windows.len() - at,
{
    broadcast use {dialogue::group_run, laws::group_operations};

    let all = Seq::new(
        windows.len(),
        |i: int| transfer(work, windows[i], " display transfer"@),
    );
    if at < windows.len() {
        assert(replies.len() > 0);
        a_transfer_may_run_out_of_time(work, windows[at], " display transfer"@, replies);
        let rest = laws::left_over(
            dialogue::run(
                moves::display_transfer(work, windows[at], " display transfer"@),
                replies,
            ),
        );
        lemma_transfers(work, windows, at + 1, rest);
        assert(seq![all[at]] + all.skip(at + 1) =~= all.skip(at));
    } else {
        assert(all.skip(at) =~= Seq::<OperationView>::empty());
    }
}

/// Whether a window is one of those that move.
pub open spec fn moves_along(work: MoveWorkspaceView, window: WindowData) -> bool {
    window == work.focused_window || work.windows.contains(window)
}

/// Moving windows into the workspace: until they are all there.
pub open spec fn is_reassertion(
    work: MoveWorkspaceView,
    operation: OperationView,
    windows: Seq<WindowData>,
) -> bool {
    &&& forall|i: int| 0 <= i < windows.len() ==> moves_along(work, #[trigger] windows[i])
    &&& operation.transaction == work.transaction
    &&& operation.pace == Pace::Confirmed
    &&& operation.commands == Seq::new(
        windows.len(),
        |i: int| steps::workspace_moving(work.target, windows[i], false),
    )
    &&& operation.expectation == steps::workspace_events(work.target, work.workspace_name)
    &&& operation.check == (CheckView {
        target: work.target,
        workspace_name: work.workspace_name,
        conditions: seq![
            ConditionView::WindowsAreAt(Seq::new(windows.len(), |i: int| windows[i].id)),
        ],
    })
    &&& operation.timeout == work.transaction.step_timeout
}

/// Focusing the window that was focused: until it is focused in the workspace.
pub open spec fn is_refocusing(work: MoveWorkspaceView, operation: OperationView) -> bool {
    &&& operation.transaction == work.transaction
    &&& operation.pace == Pace::Step
    &&& operation.commands == seq![steps::window_focusing(work.focused_window)]
    &&& operation.expectation == steps::workspace_events(work.target, work.workspace_name)
    &&& operation.check == (CheckView {
        target: work.target,
        workspace_name: work.workspace_name,
        conditions: seq![ConditionView::WindowIsFocusedAt(work.focused_window.id)],
    })
    &&& operation.timeout == work.transaction.step_timeout
}

/// Whether an operation repairs a move: it transfers one of the windows once more, moves some of
/// them into the workspace, or focuses the window that was focused.
pub open spec fn is_repair(work: MoveWorkspaceView, operation: OperationView) -> bool {
    ||| exists|window: WindowData|
        moves_along(work, window) && operation == #[trigger] transfer(
            work,
            window,
            " display retry"@,
        )
    ||| exists|windows: Seq<WindowData>| is_reassertion(work, operation, windows)
    ||| is_refocusing(work, operation)
}

/// Allows what is no operation, and operations that repair a move.
pub open spec fn repairs(work: MoveWorkspaceView) -> spec_fn(RequestView) -> bool {
    |request: RequestView|
        match request {
            RequestView::Transact(operation) => is_repair(work, operation),
            _ => true,
        }
}

proof fn lemma_looking_repairs<A>(work: MoveWorkspaceView, program: Program<A>)
    requires
        dialogue::asks_only(program, dialogue::looks()),
    ensures
        dialogue::asks_only(program, repairs(work)),
{
    dialogue::lemma_asks_only_of_more(program, dialogue::looks(), repairs(work));
}

proof fn lemma_queries_repair(work: MoveWorkspaceView, id: WindowId)
    ensures
        dialogue::asks_only(moves::missing(work), repairs(work)),
        dialogue::asks_only(moves::all_there(work), repairs(work)),
        dialogue::asks_only(moves::focus_restored(work), repairs(work)),
        dialogue::asks_only(
            rift::window_is_at(work.target, work.workspace_name, work.focused_window.id),
            repairs(work),
        ),
        dialogue::asks_only(rift::window_is_on_display(work.target, id), repairs(work)),
{
    looking::queries_only_look(
        work.target,
        work.workspace_name,
        work.workspace_name,
        Seq::empty(),
        work.focused_window.id,
        model::ids_of(work.windows),
    );
    looking::queries_only_look(
        work.target,
        work.workspace_name,
        work.workspace_name,
        Seq::empty(),
        id,
        Seq::empty(),
    );
    lemma_looking_repairs(work, moves::missing(work));
    lemma_looking_repairs(work, moves::all_there(work));
    lemma_looking_repairs(work, moves::focus_restored(work));
    lemma_looking_repairs(
        work,
        rift::window_is_at(work.target, work.workspace_name, work.focused_window.id),
    );
    lemma_looking_repairs(work, rift::window_is_on_display(work.target, id));
}

proof fn lemma_transact_repairs(work: MoveWorkspaceView, operation: OperationView)
    requires
        is_repair(work, operation),
    ensures
        dialogue::asks_only(transaction::transact(operation), repairs(work)),
{
    broadcast use dialogue::group_asks_only;

}

proof fn lemma_retransfers_repair(work: MoveWorkspaceView, windows: Seq<WindowData>, at: int)
    requires
        forall|i: int| 0 <= i < windows.len() ==> moves_along(work, #[trigger] windows[i]),
    ensures
        dialogue::asks_only(moves::retransfers_from(work, windows, at), repairs(work)),
    decreases windows.len() - at,
{
    broadcast use dialogue::group_asks_only;

    if 0 <= at < windows.len() {
        lemma_retransfers_repair(work, windows, at + 1);
        let window = windows[at];
        assert(moves_along(work, window));
        lemma_queries_repair(work, window.id);
        let operation = transfer(work, window, " display retry"@);
        assert(is_repair(work, operation));
        lemma_transact_repairs(work, operation);
        assert(moves::display_transfer(work, window, " display retry"@)
            == moves::tolerating_timeout(transaction::transact(operation)));
    }
}

proof fn lemma_pending_move_along(work: MoveWorkspaceView, ids: Seq<WindowId>)
    ensures
        forall|i: int|
            0 <= i < moves::pending(work, ids).len() ==> moves_along(
                work,
                #[trigger] moves::pending(work, ids)[i],
            ),
{
    let pending = moves::pending(work, ids);
    assert forall|i: int| 0 <= i < pending.len() implies moves_along(
        work,
        #[trigger] pending[i],
    ) by {
        let window = pending[i];
        assert(pending.contains(window));
        crate::laws::rehoming::lemma_filtered(
            moves::ordered(work),
            model::is_one_of(ids),
            window,
        );
        let others = work.windows.filter(moves::other_than(work.focused_window.id));
        let at = moves::ordered(work).index_of(window);
        if at < others.len() {
            assert(others[at] == window);
            assert(others.contains(window));
            crate::laws::rehoming::lemma_filtered(
                work.windows,
                moves::other_than(work.focused_window.id),
                window,
            );
        }
    }
}

proof fn lemma_membership_repairs(
    work: MoveWorkspaceView,
    windows: Seq<WindowData>,
    attempt: nat,
)
    requires
        forall|i: int| 0 <= i < windows.len() ==> moves_along(work, #[trigger] windows[i]),
    ensures
        dialogue::asks_only(moves::membership_reassertion(work, windows, attempt), repairs(work)),
{
    broadcast use dialogue::group_asks_only;

    let operation = OperationView {
        transaction: work.transaction,
        pace: Pace::Confirmed,
        description: "workspace membership reassertion attempt "@ + text::decimal(attempt),
        commands: rift::placements_of(work.target, windows),
        expectation: placement::of_workspace(work.target, work.workspace_name),
        check: placement::checks(
            work.target,
            work.workspace_name,
            ConditionView::WindowsAreAt(model::ids_of(windows)),
        ),
        timeout: work.transaction.step_timeout,
    };
    assert(operation.commands =~= Seq::new(
        windows.len(),
        |i: int| steps::workspace_moving(work.target, windows[i], false),
    ));
    assert(model::ids_of(windows) =~= Seq::new(windows.len(), |i: int| windows[i].id));
    assert(is_reassertion(work, operation, windows));
    lemma_transact_repairs(work, operation);
    lemma_queries_repair(work, work.focused_window.id);
}

proof fn lemma_reassertion_from_repairs(
    work: MoveWorkspaceView,
    windows: Seq<WindowData>,
    attempt: nat,
)
    requires
        forall|i: int| 0 <= i < windows.len() ==> moves_along(work, #[trigger] windows[i]),
    ensures
        dialogue::asks_only(moves::reassertion_from(work, windows, attempt), repairs(work)),
    decreases moves::MAX_RECONCILIATION_ATTEMPTS + 1 - attempt,
{
    broadcast use dialogue::group_asks_only;

    if attempt <= moves::MAX_RECONCILIATION_ATTEMPTS {
        lemma_retransfers_repair(work, windows, 0);
        lemma_membership_repairs(work, windows, attempt);
        lemma_queries_repair(work, work.focused_window.id);
        assert forall|ids: Seq<WindowId>|
            #![trigger moves::pending(work, ids)]
            dialogue::asks_only(
                moves::reassertion_from(work, moves::pending(work, ids), attempt + 1),
                repairs(work),
            ) by {
            lemma_pending_move_along(work, ids);
            lemma_reassertion_from_repairs(work, moves::pending(work, ids), attempt + 1);
        }
    }
}

proof fn lemma_reassertion_repairs(work: MoveWorkspaceView)
    ensures
        dialogue::asks_only(moves::reassertion(work), repairs(work)),
{
    broadcast use dialogue::group_asks_only;

    lemma_queries_repair(work, work.focused_window.id);
    assert forall|ids: Seq<WindowId>|
        dialogue::asks_only(
            #[trigger] moves::reassertion_from(work, moves::pending(work, ids), 1),
            repairs(work),
        ) by {
        lemma_pending_move_along(work, ids);
        lemma_reassertion_from_repairs(work, moves::pending(work, ids), 1);
    }
}

proof fn lemma_focus_restoration_repairs(work: MoveWorkspaceView, attempt: nat)
    ensures
        dialogue::asks_only(moves::focus_restoration_from(work, attempt), repairs(work)),
    decreases moves::MAX_RECONCILIATION_ATTEMPTS + 1 - attempt,
{
    broadcast use dialogue::group_asks_only;

    if attempt <= moves::MAX_RECONCILIATION_ATTEMPTS {
        lemma_focus_restoration_repairs(work, attempt + 1);
        lemma_reassertion_repairs(work);
        lemma_queries_repair(work, work.focused_window.id);
        lemma_focus_attempt_repairs(work, attempt);
    }
}

proof fn lemma_focus_attempt_repairs(work: MoveWorkspaceView, attempt: nat)
    ensures
        dialogue::asks_only(moves::focus_attempt(work, attempt), repairs(work)),
{
    let operation = OperationView {
        transaction: work.transaction,
        pace: Pace::Step,
        description: "workspace focus restoration attempt "@ + text::decimal(attempt),
        commands: seq![rift::focus_of(work.focused_window)],
        expectation: placement::of_workspace(work.target, work.workspace_name),
        check: placement::checks(
            work.target,
            work.workspace_name,
            ConditionView::WindowIsFocusedAt(work.focused_window.id),
        ),
        timeout: work.transaction.step_timeout,
    };
    assert(is_refocusing(work, operation));
    lemma_transact_repairs(work, operation);
}

proof fn lemma_verification_repairs(work: MoveWorkspaceView)
    ensures
        dialogue::asks_only(moves::verification(work), repairs(work)),
{
    broadcast use dialogue::group_asks_only;

    lemma_queries_repair(work, work.focused_window.id);
    lemma_reassertion_repairs(work);
    lemma_focus_restoration_repairs(work, 1);
}

/// Whether each operation repairs a move.
pub open spec fn all_repair(work: MoveWorkspaceView, submitted: Seq<OperationView>) -> bool {
    forall|i: int| 0 <= i < submitted.len() ==> is_repair(work, #[trigger] submitted[i])
}

proof fn lemma_all_repair(work: MoveWorkspaceView, asked: Seq<RequestView>)
    requires
        forall|i: int| 0 <= i < asked.len() ==> (repairs(work))(#[trigger] asked[i]),
    ensures
        all_repair(work, laws::operations_of(asked)),
    decreases asked.len(),
{
    if asked.len() > 0 {
        assert forall|i: int| 0 <= i < asked.drop_last().len() implies (repairs(work))(
            #[trigger] asked.drop_last()[i],
        ) by {
            assert(asked.drop_last()[i] == asked[i]);
        }
        lemma_all_repair(work, asked.drop_last());
        assert((repairs(work))(asked[asked.len() - 1]));
    }
}

proof fn lemma_repairing<A>(work: MoveWorkspaceView, program: Program<A>, replies: Seq<Reply>)
    requires
        dialogue::asks_only(program, repairs(work)),
    ensures
        all_repair(work, laws::operations(program, replies)),
{
    laws::lemma_requests_allowed(program, repairs(work), replies);
    lemma_all_repair(work, laws::requests(program, replies));
}

/// Waiting for the state to last: with every window in the workspace and on the display, and the
/// window that was focused focused there.
pub open spec fn lasting(work: MoveWorkspaceView) -> OperationView {
    OperationView {
        transaction: work.transaction,
        pace: Pace::Settle,
        description: "workspace placement"@,
        commands: Seq::empty(),
        expectation: steps::workspace_events(work.target, work.workspace_name),
        check: CheckView {
            target: work.target,
            workspace_name: work.workspace_name,
            conditions: seq![
                ConditionView::WindowsAreAt(all_ids(work)),
                ConditionView::WindowIsFocusedAt(work.focused_window.id),
            ],
        },
        timeout: work.transaction.step_timeout,
    }
}

/// The operations of moving all windows: the destination is prepared; each window is transferred, in
/// order; the move is repaired as far as needed; the state is waited for to last; and the move is
/// repaired again as far as needed.
pub open spec fn batch_operations(
    work: MoveWorkspaceView,
    before: Seq<OperationView>,
    after: Seq<OperationView>,
) -> Seq<OperationView> {
    steps::preparations(work.transaction, work.target, work.workspace_name) + (Seq::new(
        in_order(work).len(),
        |i: int| transfer(work, in_order(work)[i], " display transfer"@),
    ) + (before + (seq![lasting(work)] + after)))
}

/// Whether the operations are those of moving all windows.
pub open spec fn are_those_of_batch(
    work: MoveWorkspaceView,
    submitted: Seq<OperationView>,
) -> bool {
    exists|before: Seq<OperationView>, after: Seq<OperationView>|
        submitted == #[trigger] batch_operations(work, before, after) && all_repair(work, before)
            && all_repair(work, after)
}

proof fn lemma_settling_operations(work: MoveWorkspaceView, replies: Seq<Reply>) -> (after: Seq<
    OperationView,
>)
    requires
        dialogue::run(
            moves::move_from(work, MoveWorkspaceState::Settle),
            replies,
        ) is Finished,
    ensures
        laws::operations(moves::move_from(work, MoveWorkspaceState::Settle), replies) == seq![
            lasting(work),
        ] + after,
        all_repair(work, after),
{
    lemma_settling_parts(work, replies);
    let settled = transaction::transact(lasting(work));
    let one = laws::left_over(dialogue::run(settled, replies));
    let verifying = moves::verification(work);
    lemma_verification_repairs(work);
    lemma_repairing(work, verifying, one);
    laws::operations(verifying, one)
}

proof fn lemma_settling_parts(work: MoveWorkspaceView, replies: Seq<Reply>)
    requires
        dialogue::run(
            moves::move_from(work, MoveWorkspaceState::Settle),
            replies,
        ) is Finished,
    ensures
        ({
            let settled = transaction::transact(lasting(work));
            let one = laws::left_over(dialogue::run(settled, replies));
            laws::operations(moves::move_from(work, MoveWorkspaceState::Settle), replies) == seq![
                lasting(work),
            ] + laws::operations(moves::verification(work), one)
        }),
{
    reveal_with_fuel(moves::move_from, 2);
    assert(model::ids_of(work.windows) =~= all_ids(work));
    let operation = lasting(work);
    let settled = transaction::transact(operation);
    let one = laws::left_over(dialogue::run(settled, replies));
    let after = laws::operations(moves::verification(work), one);
    laws::lemma_operations_transact(operation, replies);
    laws::lemma_operations_bind(settled, |settled: ()| moves::verification(work), replies);
    dialogue::lemma_run_bind(settled, |settled: ()| moves::verification(work), replies);
    laws::lemma_operations_bind(
        moves::settling(work),
        |done: ()| moves::move_from(work, MoveWorkspaceState::Complete),
        replies,
    );
    dialogue::lemma_run_bind(
        moves::settling(work),
        |done: ()| moves::move_from(work, MoveWorkspaceState::Complete),
        replies,
    );
    let none = Seq::<OperationView>::empty();
    laws::lemma_operations_return(
        (),
        laws::left_over(dialogue::run(moves::settling(work), replies)),
    );
    assert(laws::operations(moves::settling(work), replies) == seq![operation] + after);
    assert((seq![operation] + after) + none =~= seq![operation] + after);
}

proof fn lemma_repairing_states(work: MoveWorkspaceView, replies: Seq<Reply>) -> (found: (
    Seq<OperationView>,
    Seq<OperationView>,
))
    requires
        dialogue::run(
            moves::move_from(work, MoveWorkspaceState::ReassertWorkspace),
            replies,
        ) is Finished,
    ensures
        laws::operations(moves::move_from(work, MoveWorkspaceState::ReassertWorkspace), replies)
            == found.0 + (seq![lasting(work)] + found.1),
        all_repair(work, found.0),
        all_repair(work, found.1),
{
    let reasserting = moves::reassertion(work);
    let focusing = moves::focus_restoration_from(work, 1);
    let verifying = moves::verification(work);
    lemma_reassertion_repairs(work);
    lemma_focus_restoration_repairs(work, 1);
    lemma_verification_repairs(work);
    let one = laws::left_over(dialogue::run(reasserting, replies));
    let two = laws::left_over(dialogue::run(focusing, one));
    let three = laws::left_over(dialogue::run(verifying, two));
    lemma_three_states(work, replies);
    lemma_repairing(work, reasserting, replies);
    lemma_repairing(work, focusing, one);
    lemma_repairing(work, verifying, two);
    let first = laws::operations(reasserting, replies);
    let second = laws::operations(focusing, one);
    let third = laws::operations(verifying, two);
    let after = lemma_settling_operations(work, three);
    let rest = seq![lasting(work)] + after;
    let before = first + (second + third);
    assert(first + (second + (third + rest)) =~= before + rest);
    assert forall|i: int| 0 <= i < before.len() implies is_repair(work, #[trigger] before[i]) by {
        if i < first.len() {
            assert(before[i] == first[i]);
        } else if i < first.len() + second.len() {
            assert(before[i] == second[i - first.len()]);
        } else {
            assert(before[i] == third[i - first.len() - second.len()]);
        }
    }
    (before, after)
}

proof fn lemma_three_states(work: MoveWorkspaceView, replies: Seq<Reply>)
    requires
        dialogue::run(
            moves::move_from(work, MoveWorkspaceState::ReassertWorkspace),
            replies,
        ) is Finished,
    ensures
        ({
            let reasserting = moves::reassertion(work);
            let focusing = moves::focus_restoration_from(work, 1);
            let verifying = moves::verification(work);
            let one = laws::left_over(dialogue::run(reasserting, replies));
            let two = laws::left_over(dialogue::run(focusing, one));
            let three = laws::left_over(dialogue::run(verifying, two));
            let settling = moves::move_from(work, MoveWorkspaceState::Settle);
            &&& dialogue::run(settling, three) is Finished
            &&& laws::operations(
                moves::move_from(work, MoveWorkspaceState::ReassertWorkspace),
                replies,
            ) == laws::operations(reasserting, replies) + (laws::operations(focusing, one) + (
            laws::operations(verifying, two) + laws::operations(settling, three)))
        }),
{
    broadcast use {dialogue::group_run, laws::group_operations};

    reveal_with_fuel(moves::move_from, 4);
}

/// A workspace that has been moved was moved by these operations.
pub proof fn a_workspace_is_moved_by_these_operations(work: MoveWorkspaceView, replies: Seq<Reply>)
    requires
        dialogue::run(
            moves::move_from(work, MoveWorkspaceState::PrepareDestination),
            replies,
        ) is Finished,
    ensures
        are_those_of_batch(
            work,
            laws::operations(
                moves::move_from(work, MoveWorkspaceState::PrepareDestination),
                replies,
            ),
        ),
{
    broadcast use {dialogue::group_run, laws::group_operations};

    reveal_with_fuel(moves::move_from, 3);
    let preparing = placement::target_preparation(
        work.transaction,
        work.target,
        work.workspace_name,
    );
    let one = laws::left_over(dialogue::run(preparing, replies));
    let transferring = moves::transfers_from(work, moves::ordered(work), 0);
    let two = laws::left_over(dialogue::run(transferring, one));
    steps::a_destination_is_prepared_as_far_as_needed(
        work.transaction,
        work.target,
        work.workspace_name,
        replies,
    );
    the_others_are_moved_before_the_focused_window(work, Seq::empty());
    lemma_transfers(work, in_order(work), 0, one);
    let all = Seq::new(
        in_order(work).len(),
        |i: int| transfer(work, in_order(work)[i], " display transfer"@),
    );
    assert(all.skip(0) =~= all);
    let (before, after) = lemma_repairing_states(work, two);
    assert(laws::operations(
        moves::move_from(work, MoveWorkspaceState::PrepareDestination),
        replies,
    ) == batch_operations(work, before, after));
}

/// Where no window is missing, nothing is done to bring any into the workspace; else those that are
/// missing are brought there, and no others.
pub proof fn only_missing_windows_are_brought_into_the_workspace(
    work: MoveWorkspaceView,
    ids: Seq<WindowId>,
    rest: Seq<Reply>,
    replies: Seq<Reply>,
)
    requires
        dialogue::run(moves::missing(work), replies) == Outcome::Finished(ids, rest),
    ensures
        dialogue::run(moves::reassertion(work), replies) == (if in_order_among(work, ids).len()
            == 0 {
            Outcome::Finished((), rest)
        } else {
            dialogue::run(moves::reassertion_from(work, in_order_among(work, ids), 1), rest)
        }),
{
    broadcast use {dialogue::group_run, laws::group_operations};

    the_others_are_moved_before_the_focused_window(work, ids);
}

/// Three attempts are made to bring windows into the workspace, and three to restore the focus; then
/// that is given up.
pub proof fn the_fourth_attempt_is_a_failure(
    work: MoveWorkspaceView,
    windows: Seq<WindowData>,
    replies: Seq<Reply>,
)
    ensures
        dialogue::run(moves::reassertion_from(work, windows, 4), replies) == Outcome::<
            (),
        >::Failed(
            ErrorView {
                kind: ErrorKind::Other,
                message: "workspace reconciliation did not converge after 3 attempts"@,
            },
            replies,
        ),
        dialogue::run(moves::focus_restoration_from(work, 4), replies) == Outcome::<()>::Failed(
            ErrorView {
                kind: ErrorKind::Other,
                message: "workspace focus restoration did not converge after 3 attempts"@,
            },
            replies,
        ),
{
    broadcast use {dialogue::group_run, laws::group_operations};

}

// ---------------------------------------------------------------------------
// The whole move.
// ---------------------------------------------------------------------------

/// The move of all windows of a source to a destination.
pub open spec fn work_of(
    transaction: RiftTransaction,
    target: TargetView,
    source: FocusedWorkspaceView,
) -> MoveWorkspaceView {
    MoveWorkspaceView {
        transaction,
        target,
        workspace_name: source.workspace.name@,
        windows: source.workspace.windows@,
        focused_window: source.focused_window,
    }
}

/// The move of the one window of a source to a destination.
pub open spec fn quick_work_of(target: TargetView, source: FocusedWorkspaceView) -> SingletonView {
    SingletonView {
        transaction: RiftTransaction { step_timeout: 2_500, batch_deadline: None },
        target,
        workspace_name: source.workspace.name@,
        window: source.focused_window,
    }
}

/// Whether operations move all windows of a source to a destination.
pub open spec fn move_all(
    target: TargetView,
    source: FocusedWorkspaceView,
    submitted: Seq<OperationView>,
) -> bool {
    exists|transaction: RiftTransaction|
        transaction.step_timeout == 2_500 && #[trigger] are_those_of_batch(
            work_of(transaction, target, source),
            submitted,
        )
}

/// Moving all windows of a source takes the operations for all of them, once the clock was read and
/// events were subscribed to.
pub proof fn a_batch_moves_all_windows(
    target: TargetView,
    source: FocusedWorkspaceView,
    replies: Seq<Reply>,
)
    requires
        dialogue::run(
            moves::batch_move(target, source.workspace.name@, source),
            replies,
        ) is Finished,
    ensures
        move_all(
            target,
            source,
            laws::operations(moves::batch_move(target, source.workspace.name@, source), replies),
        ),
        ({
            let asked = laws::requests(
                moves::batch_move(target, source.workspace.name@, source),
                replies,
            );
            let count = source.workspace.windows@.len();
            &&& asked.len() >= 2
            &&& asked[0] == RequestView::Outside(AskView::Now)
            &&& asked[1] == RequestView::Outside(AskView::Subscribe)
            &&& dialogue::run(transaction::begin_batch(count), replies) is Finished
        }),
{
    broadcast use {dialogue::group_run, laws::group_operations, laws::group_requests};

    let count = source.workspace.windows@.len();
    let beginning = transaction::begin_batch(count);
    let transaction = dialogue::run(beginning, replies)->Finished_0;
    homecoming::lemma_begun(count, replies);
    let rest = replies.skip(2);
    let work = work_of(transaction, target, source);
    a_workspace_is_moved_by_these_operations(work, rest);
    let moved = laws::operations(
        moves::move_from(work, MoveWorkspaceState::PrepareDestination),
        rest,
    );
    following::lemma_none_submitted(laws::requests(beginning, replies));
    assert(Seq::<OperationView>::empty() + moved =~= moved);
    assert(are_those_of_batch(
        work,
        laws::operations(moves::batch_move(target, source.workspace.name@, source), replies),
    ));
}

/// Moving a departed workspace takes, with other than one window, the operations of moving all of
/// them. With one window it takes those of the fast path; or, where the time for those ran out, some
/// of them, and then, the displays and the destination having been read anew, those of moving all
/// windows.
pub proof fn a_departed_workspace_is_moved_by_the_operations_of_its_size(
    departure: Departure,
    replies: Seq<Reply>,
)
    requires
        dialogue::run(moves::move_of(departure), replies) is Finished,
    ensures
        ({
            let submitted = laws::operations(moves::move_of(departure), replies);
            let source = departure.source;
            if source.workspace.windows@.len() == 1 {
                ||| are_quick(quick_work_of(departure.target, source), submitted)
                ||| exists|tried: Seq<OperationView>, later: Seq<OperationView>, target: TargetView|
                    submitted == tried + later && #[trigger] move_all(target, source, later)
                        && #[trigger] ran_out_trying(departure, tried)
            } else {
                move_all(departure.target, source, submitted)
            }
        }),
{
    let source = departure.source;
    if source.workspace.windows@.len() == 1 {
        lemma_one_window(departure, replies);
    } else {
        a_batch_moves_all_windows(departure.target, source, replies);
    }
}

/// Whether operations are some of the fast path that ended in running out of time.
pub open spec fn ran_out_trying(departure: Departure, tried: Seq<OperationView>) -> bool {
    exists|replies: Seq<Reply>|
        tried == #[trigger] laws::operations(
            moves::singleton_move(quick_work_of(departure.target, departure.source)),
            replies,
        ) && (dialogue::run(
            moves::singleton_move(quick_work_of(departure.target, departure.source)),
            replies,
        ) matches Outcome::Failed(failure, _) && failure.kind == ErrorKind::TimedOut)
}

proof fn lemma_one_window(departure: Departure, replies: Seq<Reply>)
    requires
        departure.source.workspace.windows@.len() == 1,
        dialogue::run(moves::move_of(departure), replies) is Finished,
    ensures
        ({
            let submitted = laws::operations(moves::move_of(departure), replies);
            let source = departure.source;
            ||| are_quick(quick_work_of(departure.target, source), submitted)
            ||| exists|tried: Seq<OperationView>, later: Seq<OperationView>, target: TargetView|
                submitted == tried + later && #[trigger] move_all(target, source, later)
                    && #[trigger] ran_out_trying(departure, tried)
        }),
{
    let source = departure.source;
    let work = quick_work_of(departure.target, source);
    let fast = moves::singleton_move(work);
    lemma_one_window_parts(departure, replies);
    let one = replies.skip(1);
    let two = laws::left_over(dialogue::run(fast, one));
    let submitted = laws::operations(moves::move_of(departure), replies);
    let tried = laws::operations(fast, one);
    if dialogue::run(fast, one) is Finished {
        the_fast_path_takes_these_operations(work, one);
    } else {
        let displays = dialogue::run(rift::displays(), two)->Finished_0;
        let three = laws::left_over(dialogue::run(rift::displays(), two));
        let context = rift::target_context(
            source.workspace.name@,
            departure.target.display_uuid,
            displays,
        );
        let target = dialogue::run(context, three)->Finished_0;
        let four = laws::left_over(dialogue::run(context, three));
        a_batch_moves_all_windows(target, source, four);
        let later = laws::operations(
            moves::batch_move(target, source.workspace.name@, source),
            four,
        );
        assert(ran_out_trying(departure, tried));
        assert(submitted == tried + later);
        assert(move_all(target, source, later));
    }
}

proof fn lemma_one_window_parts(departure: Departure, replies: Seq<Reply>)
    requires
        departure.source.workspace.windows@.len() == 1,
        dialogue::run(moves::move_of(departure), replies) is Finished,
    ensures
        replies.len() > 0,
        ({
            let source = departure.source;
            let work = quick_work_of(departure.target, source);
            let fast = moves::singleton_move(work);
            let one = replies.skip(1);
            let outcome = dialogue::run(fast, one);
            let two = laws::left_over(outcome);
            let submitted = laws::operations(moves::move_of(departure), replies);
            let displays = dialogue::run(rift::displays(), two)->Finished_0;
            let three = laws::left_over(dialogue::run(rift::displays(), two));
            let context = rift::target_context(
                source.workspace.name@,
                departure.target.display_uuid,
                displays,
            );
            let target = dialogue::run(context, three)->Finished_0;
            let four = laws::left_over(dialogue::run(context, three));
            let batch = moves::batch_move(target, source.workspace.name@, source);
            if outcome is Finished {
                submitted == laws::operations(fast, one)
            } else {
                &&& outcome matches Outcome::Failed(failure, _) && failure.kind
                    == ErrorKind::TimedOut
                &&& dialogue::run(batch, four) is Finished
                &&& submitted == laws::operations(fast, one) + laws::operations(batch, four)
            }
        }),
{
    broadcast use {dialogue::group_run, laws::group_operations};

    let source = departure.source;
    let work = quick_work_of(departure.target, source);
    let fast = moves::singleton_move(work);
    let beginning = transaction::begin_single();
    assert(replies.len() > 0 && replies[0] is Done);
    steps::a_single_command_has_two_and_a_half_seconds(replies);
    following::lemma_none_submitted(laws::requests(beginning, replies));
    let one = replies.skip(1);
    let outcome = dialogue::run(fast, one);
    let two = laws::left_over(outcome);
    let none = Seq::<OperationView>::empty();
    let tried = laws::operations(fast, one);
    assert(none + (tried + none) =~= tried);
    if !(outcome is Finished) {
        let displays = dialogue::run(rift::displays(), two)->Finished_0;
        let three = laws::left_over(dialogue::run(rift::displays(), two));
        let context = rift::target_context(
            source.workspace.name@,
            departure.target.display_uuid,
            displays,
        );
        following::lemma_looks(source.workspace.name@, departure.target.display_uuid, displays);
        laws::lemma_no_operations(context, three);
        assert(laws::operations(rift::displays(), two) =~= none) by {
            broadcast use dialogue::group_asks_only;

            laws::lemma_no_operations(rift::displays(), two);
        }
        let target = dialogue::run(context, three)->Finished_0;
        let four = laws::left_over(dialogue::run(context, three));
        let later = laws::operations(
            moves::batch_move(target, source.workspace.name@, source),
            four,
        );
        assert(none + (tried + (none + (none + later))) =~= tried + later);
    }
}

} // verus!
