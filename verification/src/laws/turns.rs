//! What one turn of an operation does, reply by reply.
use crate::dialogue;
use crate::dialogue::{AskView, Outcome, Reply, RequestView};
use crate::error::{ErrorKind, ErrorView};
use crate::laws;
use crate::model::{CommandView, RiftEvent};
use crate::rift;
use crate::rift::TargetView;
use crate::transaction;
use crate::transaction::{
    CheckView, Completion, ConditionView, ExpectationView, OperationView, Pace, RiftTransaction,
    Stage, Turn,
};
use vstd::prelude::*;

verus! {

broadcast use dialogue::group_run;

// ---------------------------------------------------------------------------
// Events and checks.
// ---------------------------------------------------------------------------

/// Whether an event reports a change of workspaces, windows or focus of this display, and where a
/// workspace is named, of this workspace.
pub open spec fn reports_change(
    event: RiftEvent,
    display_uuid: Seq<char>,
    workspace_name: Option<Seq<char>>,
) -> bool {
    let (workspace, display) = match event {
        RiftEvent::WorkspaceChanged { workspace_name, display_uuid } => (
            Some(workspace_name@),
            display_uuid,
        ),
        RiftEvent::WindowsChanged { workspace_name, display_uuid } => (
            Some(workspace_name@),
            display_uuid,
        ),
        RiftEvent::FocusedWindowChanged { workspace_name, display_uuid } => (
            Some(workspace_name@),
            display_uuid,
        ),
        RiftEvent::WindowTitleChanged { display_uuid } => (None, display_uuid),
        RiftEvent::StacksChanged { display_uuid } => (None, display_uuid),
    };
    &&& workspace is Some
    &&& display matches Some(uuid) && uuid@ == display_uuid
    &&& workspace_name is Some ==> workspace == workspace_name
}

/// An event is expected where it reports a change of the display, and of the workspace if one is
/// named; a new title or new stacks are never expected.
pub proof fn events_are_expected_of_their_display_and_workspace(
    event: RiftEvent,
    display_uuid: Seq<char>,
    workspace_name: Seq<char>,
)
    ensures
        transaction::expects(ExpectationView::Display(display_uuid), event) <==> reports_change(
            event,
            display_uuid,
            None,
        ),
        transaction::expects(
            (ExpectationView::Workspace { display_uuid, workspace_name }),
            event,
        ) <==> reports_change(event, display_uuid, Some(workspace_name)),
{
}

/// What each condition asks about.
pub proof fn each_condition_asks_its_own_question(
    target: TargetView,
    workspace_name: Seq<char>,
    id: crate::model::WindowId,
    ids: Seq<crate::model::WindowId>,
)
    ensures
        transaction::condition_holds(target, workspace_name, ConditionView::DisplayIsActive)
            == rift::display_is_active(target.display_uuid),
        transaction::condition_holds(target, workspace_name, ConditionView::WorkspaceIsActive)
            == rift::workspace_is_active(target, workspace_name),
        transaction::condition_holds(target, workspace_name, ConditionView::WindowIsAt(id))
            == rift::window_is_at(target, workspace_name, id),
        transaction::condition_holds(target, workspace_name, ConditionView::WindowIsOnDisplay(id))
            == rift::window_is_on_display(target, id),
        transaction::condition_holds(target, workspace_name, ConditionView::WindowIsFocusedAt(id))
            == rift::window_is_focused_at(target, workspace_name, id),
        transaction::condition_holds(target, workspace_name, ConditionView::WindowsAreAt(ids))
            == rift::windows_are_at(target, workspace_name, ids),
{
}

/// A check holds where each of its conditions does, asked one after the other; the first that does
/// not ends it.
pub proof fn a_check_holds_where_each_condition_does(check: CheckView, replies: Seq<Reply>)
    ensures
        check.conditions.len() == 0 ==> dialogue::run(transaction::check_holds(check), replies)
            == Outcome::Finished(true, replies),
        check.conditions.len() > 0 ==> {
            let first = transaction::condition_holds(
                check.target,
                check.workspace_name,
                check.conditions[0],
            );
            let others = CheckView { conditions: check.conditions.skip(1), ..check };
            let outcome = dialogue::run(transaction::check_holds(check), replies);
            match dialogue::run(first, replies) {
                Outcome::Finished(holds, rest) => outcome == (if holds {
                    dialogue::run(transaction::check_holds(others), rest)
                } else {
                    Outcome::Finished(false, rest)
                }),
                Outcome::Failed(failure, rest) => outcome == Outcome::<bool>::Failed(failure, rest),
                Outcome::Waiting(request) => outcome == Outcome::<bool>::Waiting(request),
            }
        },
{
    reveal(transaction::check_holds);
    if check.conditions.len() > 0 {
        let others = CheckView { conditions: check.conditions.skip(1), ..check };
        assert forall|rest: Seq<Reply>| #[trigger]
            dialogue::run(transaction::check_holds_from(check, 1), rest) == dialogue::run(
                transaction::check_holds_from(others, 0),
                rest,
            ) by {
            lemma_check_shifted(check, 1, rest);
        }
    }
}

proof fn lemma_check_shifted(check: CheckView, at: int, replies: Seq<Reply>)
    requires
        1 <= at <= check.conditions.len(),
    ensures
        dialogue::run(transaction::check_holds_from(check, at), replies) == dialogue::run(
            transaction::check_holds_from(
                CheckView { conditions: check.conditions.skip(1), ..check },
                at - 1,
            ),
            replies,
        ),
    decreases check.conditions.len() - at,
{
    let others = CheckView { conditions: check.conditions.skip(1), ..check };
    if at < check.conditions.len() {
        assert(others.conditions[at - 1] == check.conditions[at]);
        let first = transaction::condition_holds(
            check.target,
            check.workspace_name,
            check.conditions[at],
        );
        match dialogue::run(first, replies) {
            Outcome::Finished(holds, rest) => {
                lemma_check_shifted(check, at + 1, rest);
            },
            _ => {},
        }
    }
}

// ---------------------------------------------------------------------------
// The first turns.
// ---------------------------------------------------------------------------

/// When a wait that began now is over: after its own time, or with the batch if that comes first.
pub open spec fn ends_at(transaction: RiftTransaction, now: u64, timeout: u64) -> int {
    let own = now + timeout * 1_000_000;
    if transaction.batch_deadline matches Some(batch) && batch < own {
        transaction.batch_deadline->0 as int
    } else {
        own
    }
}

/// The stage in which an operation waits from now on.
pub open spec fn begun_waiting(operation: OperationView, now: u64) -> Stage {
    Stage::Waiting {
        started: now,
        deadline: ends_at(operation.transaction, now, operation.timeout) as u128,
        matching_event_seen: false,
    }
}

/// The requests that have commands executed, one after the other.
pub open spec fn executions(commands: Seq<CommandView>) -> Seq<RequestView> {
    Seq::new(
        commands.len(),
        |i: int| RequestView::Outside(AskView::Execute { command: commands[i] }),
    )
}

proof fn lemma_submitted(commands: Seq<CommandView>, replies: Seq<Reply>, at: int)
    requires
        0 <= at <= commands.len(),
        commands.len() - at <= replies.len(),
        forall|i: int| 0 <= i < commands.len() - at ==> (#[trigger] replies[i]) is Done,
    ensures
        dialogue::run(transaction::submit_from(commands, at), replies) == Outcome::Finished(
            (),
            replies.skip(commands.len() - at),
        ),
        laws::requests(transaction::submit_from(commands, at), replies) == executions(
            commands,
        ).skip(at),
    decreases commands.len() - at,
{
    broadcast use laws::group_requests;

    let all = executions(commands);
    if at < commands.len() {
        let rest = replies.skip(1);
        assert(replies[0] is Done);
        assert forall|i: int| 0 <= i < commands.len() - (at + 1) implies (
        #[trigger] rest[i]) is Done by {
            assert(rest[i] == replies[i + 1]);
        }
        lemma_submitted(commands, rest, at + 1);
        assert(rest.skip(commands.len() - at - 1) =~= replies.skip(commands.len() - at));
        let first = seq![all[at]];
        assert(laws::requests(transaction::submit_from(commands, at), replies) =~= first
            + laws::requests(transaction::submit_from(commands, at + 1), rest));
        assert(first + all.skip(at + 1) =~= all.skip(at));
    } else {
        assert(replies.skip(0) =~= replies);
        assert(laws::requests(transaction::submit_from(commands, at), replies) =~= all.skip(at));
    }
}

/// Submitting reads the clock, has each command executed in order, and begins to wait from that
/// clock on.
pub proof fn commands_are_submitted_and_waited_for(operation: OperationView, replies: Seq<Reply>)
    requires
        replies.len() > operation.commands.len(),
        replies[0] is Now,
        forall|i: int| 1 <= i <= operation.commands.len() ==> (#[trigger] replies[i]) is Done,
    ensures
        laws::requests(transaction::submit(operation), replies) == seq![
            RequestView::Outside(AskView::Now),
        ] + executions(operation.commands),
        dialogue::run(transaction::submit(operation), replies) == Outcome::Finished(
            Turn::Again(begun_waiting(operation, replies[0]->Now_0)),
            replies.skip(operation.commands.len() as int + 1),
        ),
{
    broadcast use laws::group_requests;

    let rest = replies.skip(1);
    let commands = operation.commands;
    assert forall|i: int| 0 <= i < commands.len() implies (#[trigger] rest[i]) is Done by {
        assert(rest[i] == replies[i + 1]);
    }
    lemma_submitted(commands, rest, 0);
    assert(executions(commands).skip(0) =~= executions(commands));
    assert(rest.skip(commands.len() as int) =~= replies.skip(commands.len() as int + 1));
    assert(laws::requests(transaction::submit(operation), replies) =~= seq![
        RequestView::Outside(AskView::Now),
    ] + executions(commands));
}

/// What follows the opening of an operation, by its pace: a step submits at once; a confirmed one
/// forgets pending events first; one that settles looks first.
pub open spec fn after_opening(operation: OperationView) -> crate::dialogue::Program<Turn> {
    match operation.pace {
        Pace::Step => transaction::submit(operation),
        Pace::Confirmed => transaction::turn(operation, Stage::Draining),
        Pace::Settle => transaction::begin_to_settle(operation),
    }
}

/// An operation of a batch begins only while the batch has time; without a batch it begins at once.
pub proof fn an_operation_begins_while_its_batch_has_time(
    operation: OperationView,
    replies: Seq<Reply>,
)
    ensures
        operation.transaction.batch_deadline is None ==> dialogue::run(
            transaction::turn(operation, Stage::Opening),
            replies,
        ) == dialogue::run(after_opening(operation), replies),
        operation.transaction.batch_deadline is Some && replies.len() > 0 && replies[0] is Now
            ==> dialogue::run(transaction::turn(operation, Stage::Opening), replies) == (
        if replies[0]->Now_0 >= operation.transaction.batch_deadline->0 {
            Outcome::Failed(
                ErrorView {
                    kind: ErrorKind::TimedOut,
                    message: "batch timeout exhausted before "@ + operation.description,
                },
                replies.skip(1),
            )
        } else {
            dialogue::run(after_opening(operation), replies.skip(1))
        }),
{
}

/// Pending events are forgotten one by one; once none is left, the commands are submitted. A failed
/// or closed event stream is reported.
pub proof fn pending_events_are_forgotten_first(operation: OperationView, replies: Seq<Reply>)
    requires
        replies.len() > 0,
    ensures
        replies[0] is Event ==> dialogue::run(
            transaction::turn(operation, Stage::Draining),
            replies,
        ) == Outcome::Finished(Turn::Again(Stage::Draining), replies.skip(1)),
        replies[0] is Nothing ==> dialogue::run(
            transaction::turn(operation, Stage::Draining),
            replies,
        ) == dialogue::run(transaction::submit(operation), replies.skip(1)),
        replies[0] matches Reply::SubscriptionFailed(message) ==> dialogue::run(
            transaction::turn(operation, Stage::Draining),
            replies,
        ) == Outcome::<Turn>::Failed(
            ErrorView {
                kind: ErrorKind::Other,
                message: "event subscription failed: "@ + message@,
            },
            replies.skip(1),
        ),
        replies[0] is Disconnected ==> dialogue::run(
            transaction::turn(operation, Stage::Draining),
            replies,
        ) == Outcome::<Turn>::Failed(
            ErrorView { kind: ErrorKind::Other, message: "event subscription disconnected"@ },
            replies.skip(1),
        ),
{
}

// ---------------------------------------------------------------------------
// Waiting.
// ---------------------------------------------------------------------------

/// How long an event is waited for: twenty milliseconds, or what is left of the time if that is
/// less.
pub open spec fn pause(now: u64, deadline: u128) -> int {
    if deadline <= now {
        0
    } else if deadline - now < 20_000_000 {
        deadline - now
    } else {
        20_000_000
    }
}

/// A wait past its deadline looks once more: it is over where the check holds, and has timed out
/// else.
pub proof fn a_wait_past_its_deadline_looks_once_more(
    operation: OperationView,
    started: u64,
    deadline: u128,
    seen: bool,
    replies: Seq<Reply>,
)
    requires
        replies.len() > 0,
        replies[0] matches Reply::Now(now) && now >= deadline,
    ensures
        ({
            let stage = Stage::Waiting { started, deadline, matching_event_seen: seen };
            let outcome = dialogue::run(transaction::turn(operation, stage), replies);
            match dialogue::run(transaction::check_holds(operation.check), replies.skip(1)) {
                Outcome::Finished(holds, rest) => outcome == (if holds {
                    Outcome::Finished(
                        Turn::Complete { by: Completion::DeadlineValidation, started },
                        rest,
                    )
                } else {
                    Outcome::Failed(
                        ErrorView {
                            kind: ErrorKind::TimedOut,
                            message: "timed out waiting for "@ + operation.description,
                        },
                        rest,
                    )
                }),
                Outcome::Failed(failure, rest) => outcome == Outcome::<Turn>::Failed(failure, rest),
                Outcome::Waiting(request) => outcome == Outcome::<Turn>::Waiting(request),
            }
        }),
{
}

/// A wait before its deadline takes an event, for a pause at most. Another event than an expected
/// one, and a pause while an expected event is still needed, change nothing. Else Rift's state is
/// looked at: the wait is over where the check holds; and goes on else, with the expected event
/// remembered.
pub proof fn a_wait_before_its_deadline_takes_an_event(
    operation: OperationView,
    started: u64,
    deadline: u128,
    seen: bool,
    replies: Seq<Reply>,
)
    requires
        replies.len() > 2,
        replies[0] matches Reply::Now(now) && now < deadline,
        replies[1] is Now,
        replies[2] is Event || replies[2] is Nothing,
    ensures
        ({
            let stage = Stage::Waiting { started, deadline, matching_event_seen: seen };
            let turn = transaction::turn(operation, stage);
            let outcome = dialogue::run(turn, replies);
            let asked = laws::requests(turn, replies);
            let look = replies.skip(3);
            let expected = replies[2] matches Reply::Event(event) && transaction::expects(
                operation.expectation,
                event,
            );
            let waits = if replies[2] is Event {
                !expected
            } else {
                operation.pace is Confirmed && !seen
            };
            &&& asked.len() >= 3
            &&& asked[0] == RequestView::Outside(AskView::Now)
            &&& asked[1] == RequestView::Outside(AskView::Now)
            &&& asked[2] == RequestView::Outside(
                AskView::Receive { wait_nanos: pause(replies[1]->Now_0, deadline) as u64 },
            )
            &&& if waits {
                outcome == Outcome::Finished(Turn::Again(stage), look)
            } else {
                match dialogue::run(transaction::check_holds(operation.check), look) {
                    Outcome::Finished(holds, rest) => outcome == Outcome::Finished(
                        if holds {
                            Turn::Complete {
                                by: if expected {
                                    Completion::MatchingEvent
                                } else {
                                    Completion::StateProbe
                                },
                                started,
                            }
                        } else {
                            Turn::Again(
                                Stage::Waiting {
                                    started,
                                    deadline,
                                    matching_event_seen: seen || expected,
                                },
                            )
                        },
                        rest,
                    ),
                    Outcome::Failed(failure, rest) => outcome == Outcome::<Turn>::Failed(
                        failure,
                        rest,
                    ),
                    Outcome::Waiting(request) => outcome == Outcome::<Turn>::Waiting(request),
                }
            }
        }),
{
    broadcast use laws::group_requests;

    let one = replies.skip(1);
    assert(one[0] == replies[1]);
    let two = one.skip(1);
    assert(two[0] == replies[2]);
    assert(two.skip(1) =~= replies.skip(3));
}

// ---------------------------------------------------------------------------
// Settling.
// ---------------------------------------------------------------------------

/// Settling begins with the clock, from which its deadline counts, and then a first look.
pub proof fn settling_begins_with_a_look(operation: OperationView, replies: Seq<Reply>)
    requires
        replies.len() > 0,
        replies[0] is Now,
    ensures
        dialogue::run(transaction::begin_to_settle(operation), replies) == dialogue::run(
            transaction::settled_since(
                operation,
                replies[0]->Now_0,
                ends_at(operation.transaction, replies[0]->Now_0, operation.timeout) as u128,
                None,
            ),
            replies.skip(1),
        ),
{
}

/// A look while a state settles: where the check does not hold, the time counts anew; where it
/// holds and a start is known, that stays; where it holds for the first time, the clock is read and
/// is the start.
pub proof fn a_look_while_settling_keeps_or_resets_the_start(
    operation: OperationView,
    started: u64,
    deadline: u128,
    since: Option<u64>,
    replies: Seq<Reply>,
    holds: bool,
    rest: Seq<Reply>,
)
    requires
        dialogue::run(transaction::check_holds(operation.check), replies) == Outcome::Finished(
            holds,
            rest,
        ),
        holds && since is None ==> rest.len() > 0 && rest[0] is Now,
    ensures
        dialogue::run(transaction::settled_since(operation, started, deadline, since), replies)
            == (if !holds {
            Outcome::Finished(
                Turn::Again(Stage::Settling { started, deadline, stable_since: None }),
                rest,
            )
        } else if since is Some {
            Outcome::Finished(
                Turn::Again(Stage::Settling { started, deadline, stable_since: since }),
                rest,
            )
        } else {
            Outcome::Finished(
                Turn::Again(
                    Stage::Settling { started, deadline, stable_since: Some(rest[0]->Now_0) },
                ),
                rest.skip(1),
            )
        }),
{
}

/// A state that has not settled by its deadline has timed out.
pub proof fn settling_past_its_deadline_has_timed_out(
    operation: OperationView,
    started: u64,
    deadline: u128,
    since: Option<u64>,
    replies: Seq<Reply>,
)
    requires
        replies.len() > 0,
        replies[0] matches Reply::Now(now) && now >= deadline,
    ensures
        dialogue::run(
            transaction::turn(
                operation,
                Stage::Settling { started, deadline, stable_since: since },
            ),
            replies,
        ) == Outcome::<Turn>::Failed(
            ErrorView {
                kind: ErrorKind::TimedOut,
                message: "timed out waiting for stable "@ + operation.description,
            },
            replies.skip(1),
        ),
{
}

/// A state that has held for 350 milliseconds has settled.
pub proof fn a_state_that_has_held_has_settled(
    operation: OperationView,
    started: u64,
    deadline: u128,
    since: u64,
    replies: Seq<Reply>,
)
    requires
        replies.len() > 1,
        replies[0] matches Reply::Now(now) && now < deadline,
        replies[1] matches Reply::Now(now) && now - since >= 350_000_000,
    ensures
        dialogue::run(
            transaction::turn(
                operation,
                Stage::Settling { started, deadline, stable_since: Some(since) },
            ),
            replies,
        ) == Outcome::Finished(
            Turn::Complete { by: Completion::StableState, started },
            replies.skip(2),
        ),
{
    assert(replies.skip(1)[0] == replies[1]);
    assert(replies.skip(1).skip(1) =~= replies.skip(2));
}

/// Before its deadline a state that has not held long enough is looked at after an event or a pause:
/// an expected event starts the count anew, another one changes nothing.
pub proof fn a_state_settles_with_each_event_and_pause(
    operation: OperationView,
    started: u64,
    deadline: u128,
    since: Option<u64>,
    replies: Seq<Reply>,
)
    requires
        ({
            let at: int = if since is Some {
                1
            } else {
                0
            };
            &&& replies.len() > at + 2
            &&& replies[0] matches Reply::Now(now) && now < deadline
            &&& since is Some ==> replies[1] is Now && replies[1]->Now_0 - since->0 < 350_000_000
            &&& replies[at + 1] is Now
            &&& replies[at + 2] is Event || replies[at + 2] is Nothing
        }),
    ensures
        ({
            let at: int = if since is Some {
                1
            } else {
                0
            };
            let stage = Stage::Settling { started, deadline, stable_since: since };
            let outcome = dialogue::run(transaction::turn(operation, stage), replies);
            let look = replies.skip(at + 3);
            match replies[at + 2] {
                Reply::Event(event) => if transaction::expects(operation.expectation, event) {
                    outcome == dialogue::run(
                        transaction::settled_since(operation, started, deadline, None),
                        look,
                    )
                } else {
                    outcome == Outcome::Finished(Turn::Again(stage), look)
                },
                _ => outcome == dialogue::run(
                    transaction::settled_since(operation, started, deadline, since),
                    look,
                ),
            }
        }),
{
    let one = replies.skip(1);
    let later = if since is Some {
        assert(one[0] == replies[1]);
        one.skip(1)
    } else {
        one
    };
    let at: int = if since is Some {
        1
    } else {
        0
    };
    assert(later =~= replies.skip(at + 1));
    assert(later.skip(1) =~= replies.skip(at + 2));
    assert(later.skip(1)[0] == replies[at + 2]);
    assert(later.skip(1).skip(1) =~= replies.skip(at + 3));
}

} // verus!
