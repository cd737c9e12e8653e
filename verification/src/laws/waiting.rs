//! What holds of waiting for Rift.
use crate::dialogue;
use crate::dialogue::{AskView, Outcome, Reply, RequestView};
use crate::error;
use crate::laws;
use crate::model::{CommandView, RiftEvent};
use crate::transaction;
use crate::transaction::{
    Completion, ExpectationView, OperationView, Pace, RiftTransaction, Stage, Turn,
};
use vstd::prelude::*;

verus! {

broadcast use {dialogue::group_run, laws::group_requests};

/// A batch has thirty seconds, or two and a half and two for each item where that is more.
pub proof fn a_batch_has_thirty_seconds_or_two_for_each_item(item_count: nat)
    requires
        item_count <= u32::MAX,
    ensures
        transaction::batch_time(item_count) == if 2_500 + 2_000 * item_count < 30_000 {
            30_000
        } else {
            2_500 + 2_000 * item_count
        },
{
}

/// More items never make the time of a batch shorter, and it is never under thirty seconds.
pub proof fn a_batch_of_more_has_no_less_time(fewer: nat, more: nat)
    requires
        fewer <= more,
    ensures
        30_000 <= transaction::batch_time(fewer) <= transaction::batch_time(more),
{
}

/// A wait lasts its own time, or until the end of the batch where that comes first.
pub proof fn a_wait_never_outlasts_its_batch(
    transaction: RiftTransaction,
    started: u64,
    timeout: u64,
)
    ensures
        ({
            let deadline = transaction::wait_deadline(transaction, started, timeout);
            let own = started + timeout * 1_000_000;
            match transaction.batch_deadline {
                None => deadline == own,
                Some(batch) => deadline <= own && deadline <= batch && (deadline == own || deadline
                    == batch),
            }
        }),
{
}

/// Waiting for an event goes on for no more than twenty milliseconds at a time, and never past
/// the deadline.
pub proof fn an_event_is_not_waited_for_past_the_deadline(now: u64, deadline: u128)
    requires
        now < deadline,
    ensures
        transaction::wait_time(now, deadline) <= 20_000_000,
        now + transaction::wait_time(now, deadline) <= deadline,
        transaction::wait_time(now, deadline) > 0,
{
}

/// Once the time of the batch is over, an operation fails with a timeout before it has done
/// anything but read the clock.
pub proof fn an_exhausted_batch_begins_nothing(
    operation: OperationView,
    now: u64,
    replies: Seq<Reply>,
)
    requires
        operation.transaction.batch_deadline matches Some(deadline) && deadline <= now,
        replies.len() > 0,
        replies[0] == Reply::Now(now),
    ensures
        dialogue::run(transaction::turn(operation, Stage::Opening), replies) == Outcome::<
            Turn,
        >::Failed(
            error::timeout_failure("batch timeout exhausted before "@ + operation.description),
            replies.skip(1),
        ),
        laws::requests(transaction::turn(operation, Stage::Opening), replies) == seq![
            RequestView::Outside(AskView::Now),
        ],
{
}

/// The commands that requests have Rift execute.
pub open spec fn executed(asked: Seq<RequestView>) -> Seq<CommandView>
    decreases asked.len(),
{
    if asked.len() == 0 {
        Seq::empty()
    } else {
        let earlier = executed(asked.drop_last());
        match asked.last() {
            RequestView::Outside(AskView::Execute { command }) => earlier.push(command),
            _ => earlier,
        }
    }
}

proof fn lemma_executed_append(first: Seq<RequestView>, second: Seq<RequestView>)
    ensures
        executed(first + second) == executed(first) + executed(second),
    decreases second.len(),
{
    if second.len() == 0 {
        assert(first + second =~= first);
    } else {
        assert((first + second).drop_last() =~= first + second.drop_last());
        lemma_executed_append(first, second.drop_last());
        assert(executed(first + second) =~= executed(first) + executed(second));
    }
}

proof fn lemma_nothing_executed(asked: Seq<RequestView>)
    requires
        forall|i: int|
            0 <= i < asked.len() ==> !((#[trigger] asked[i]) matches RequestView::Outside(ask)
                && ask is Execute),
    ensures
        executed(asked) == Seq::<CommandView>::empty(),
    decreases asked.len(),
{
    if asked.len() > 0 {
        assert forall|i: int| 0 <= i < asked.drop_last().len() implies !((
        #[trigger] asked.drop_last()[i]) matches RequestView::Outside(ask) && ask is Execute) by {
            assert(asked.drop_last()[i] == asked[i]);
        }
        lemma_nothing_executed(asked.drop_last());
        assert(!(asked[asked.len() - 1] matches RequestView::Outside(ask) && ask is Execute));
    }
}

proof fn lemma_one_command_executed(command: CommandView)
    ensures
        executed(seq![RequestView::Outside(AskView::Execute { command })]) == seq![command],
{
    let asked = seq![RequestView::Outside(AskView::Execute { command })];
    reveal_with_fuel(executed, 2);
    assert(asked.drop_last() =~= Seq::<RequestView>::empty());
    assert(executed(asked) =~= seq![command]);
}

proof fn lemma_submitting_requests(commands: Seq<CommandView>, at: int, replies: Seq<Reply>)
    requires
        0 <= at < commands.len(),
        dialogue::run(transaction::submit_from(commands, at), replies) is Finished,
    ensures
        replies.len() > 0,
        dialogue::run(transaction::submit_from(commands, at + 1), replies.skip(1)) is Finished,
        laws::requests(transaction::submit_from(commands, at), replies) == seq![
            RequestView::Outside(AskView::Execute { command: commands[at] }),
        ] + laws::requests(transaction::submit_from(commands, at + 1), replies.skip(1)),
{
}

proof fn lemma_submitting_executes(commands: Seq<CommandView>, at: int, replies: Seq<Reply>)
    requires
        0 <= at <= commands.len(),
        dialogue::run(transaction::submit_from(commands, at), replies) is Finished,
    ensures
        executed(laws::requests(transaction::submit_from(commands, at), replies)) == commands.skip(
            at,
        ),
    decreases commands.len() - at,
{
    if at < commands.len() {
        lemma_submitting_requests(commands, at, replies);
        lemma_submitting_executes(commands, at + 1, replies.skip(1));
        lemma_executed_append(
            seq![RequestView::Outside(AskView::Execute { command: commands[at] })],
            laws::requests(transaction::submit_from(commands, at + 1), replies.skip(1)),
        );
        lemma_one_command_executed(commands[at]);
        assert(seq![commands[at]] + commands.skip(at + 1) =~= commands.skip(at));
    } else {
        assert(commands.skip(at) =~= Seq::<CommandView>::empty());
    }
}

proof fn lemma_one_request_executes_nothing(request: RequestView)
    requires
        !(request matches RequestView::Outside(ask) && ask is Execute),
    ensures
        executed(seq![request]) == Seq::<CommandView>::empty(),
{
    lemma_nothing_executed(seq![request]);
}

proof fn lemma_submission(operation: OperationView, replies: Seq<Reply>)
    requires
        dialogue::run(transaction::submit(operation), replies) is Finished,
    ensures
        executed(laws::requests(transaction::submit(operation), replies)) == operation.commands,
{
    let rest = replies.skip(1);
    let clock = seq![RequestView::Outside(AskView::Now)];
    let submitting = transaction::submit_from(operation.commands, 0);
    assert(replies.len() > 0);
    lemma_submitting_executes(operation.commands, 0, rest);
    assert(operation.commands.skip(0) =~= operation.commands);
    assert(laws::requests(transaction::submit(operation), replies) =~= clock + laws::requests(
        submitting,
        rest,
    ));
    lemma_executed_append(clock, laws::requests(submitting, rest));
    lemma_one_request_executes_nothing(RequestView::Outside(AskView::Now));
    assert(executed(clock) + operation.commands =~= operation.commands);
}

proof fn lemma_drain_submission(operation: OperationView, replies: Seq<Reply>)
    requires
        dialogue::run(transaction::drain(operation), replies) matches Outcome::Finished(turn, _)
            && turn matches Turn::Again(stage) && stage is Waiting,
    ensures
        executed(laws::requests(transaction::drain(operation), replies)) == operation.commands,
{
    let rest = replies.skip(1);
    let drained = seq![RequestView::Outside(AskView::TryReceive)];
    assert(replies.len() > 0);
    lemma_submission(operation, rest);
    assert(laws::requests(transaction::drain(operation), replies) =~= drained + laws::requests(
        transaction::submit(operation),
        rest,
    ));
    lemma_executed_append(drained, laws::requests(transaction::submit(operation), rest));
    lemma_one_request_executes_nothing(RequestView::Outside(AskView::TryReceive));
    assert(executed(drained) + operation.commands =~= operation.commands);
}

/// The turn that begins the wait has the operation's commands executed, each once and in order.
pub proof fn commands_are_executed_once_and_in_order(
    operation: OperationView,
    stage: Stage,
    replies: Seq<Reply>,
)
    requires
        stage is Opening || stage is Draining,
        dialogue::run(transaction::turn(operation, stage), replies) matches Outcome::Finished(
            turn,
            _,
        ) && turn matches Turn::Again(next) && next is Waiting,
    ensures
        executed(laws::requests(transaction::turn(operation, stage), replies))
            == operation.commands,
{
    if stage is Draining {
        lemma_drain_submission(operation, replies);
    } else {
        let budget = transaction::ensure_budget(operation);
        let rest = laws::left_over(dialogue::run(budget, replies));
        assert(executed(laws::requests(budget, replies)) =~= Seq::<CommandView>::empty()) by {
            if operation.transaction.batch_deadline is Some {
                assert(laws::requests(budget, replies) =~= seq![
                    RequestView::Outside(AskView::Now),
                ]);
                lemma_one_request_executes_nothing(RequestView::Outside(AskView::Now));
            }
        }
        match operation.pace {
            Pace::Step => {
                lemma_submission(operation, rest);
                lemma_executed_append(
                    laws::requests(budget, replies),
                    laws::requests(transaction::submit(operation), rest),
                );
            },
            Pace::Confirmed => {
                lemma_drain_submission(operation, rest);
                lemma_executed_append(
                    laws::requests(budget, replies),
                    laws::requests(transaction::drain(operation), rest),
                );
            },
            Pace::Settle => {},
        }
        assert(Seq::<CommandView>::empty() + operation.commands =~= operation.commands);
    }
}

/// A turn that waits or settles has nothing executed.
pub proof fn nothing_is_executed_while_waiting(
    operation: OperationView,
    stage: Stage,
    replies: Seq<Reply>,
)
    requires
        stage is Waiting || stage is Settling,
    ensures
        executed(laws::requests(transaction::turn(operation, stage), replies)) == Seq::<
            CommandView,
        >::empty(),
{
    transaction::waiting_changes_nothing(operation, stage);
    laws::lemma_requests_allowed(
        transaction::turn(operation, stage),
        dialogue::looks_and_waits(),
        replies,
    );
    lemma_nothing_executed(laws::requests(transaction::turn(operation, stage), replies));
}

/// Whether the last that was read was the check, and it held.
pub open spec fn ended_with_check(
    operation: OperationView,
    replies: Seq<Reply>,
    rest: Seq<Reply>,
) -> bool {
    exists|look: Seq<Reply>|
        laws::ends(replies, look) && #[trigger] dialogue::run(
            transaction::check_holds(operation.check),
            look,
        ) == Outcome::Finished(true, rest)
}

/// Whether a reply is an event that the operation expects.
pub open spec fn is_expected_event(operation: OperationView, reply: Reply) -> bool {
    reply matches Reply::Event(event) && transaction::expects(operation.expectation, event)
}

/// A wait is over only once the check held at the last look. Before the deadline the look
/// follows an expected event or a pause; where an event is required and none has come, only an
/// expected event leads to it. After the deadline there is one look more.
pub proof fn a_wait_ends_with_the_check(
    operation: OperationView,
    started: u64,
    deadline: u128,
    matching_event_seen: bool,
    replies: Seq<Reply>,
)
    requires
        dialogue::run(
            transaction::turn(
                operation,
                Stage::Waiting { started, deadline, matching_event_seen },
            ),
            replies,
        ) matches Outcome::Finished(turn, _) && turn is Complete,
    ensures
        ({
            let stage = Stage::Waiting { started, deadline, matching_event_seen };
            let outcome = dialogue::run(transaction::turn(operation, stage), replies);
            let by = outcome->Finished_0->by;
            &&& outcome->Finished_0->started == started
            &&& ended_with_check(operation, replies, outcome->Finished_1)
            &&& replies.len() > 0 && replies[0] is Now
            &&& match by {
                Completion::MatchingEvent => replies[0]->Now_0 < deadline && replies.len() > 2
                    && is_expected_event(operation, replies[2]),
                Completion::StateProbe => replies[0]->Now_0 < deadline && (matching_event_seen
                    || !(operation.pace is Confirmed)),
                Completion::DeadlineValidation => replies[0]->Now_0 >= deadline,
                Completion::StableState => false,
            }
        }),
{
    let stage = Stage::Waiting { started, deadline, matching_event_seen };
    let outcome = dialogue::run(transaction::turn(operation, stage), replies);
    let check = transaction::check_holds(operation.check);
    assert(replies.len() > 0 && replies[0] is Now);
    let late = replies.skip(1);
    if replies[0]->Now_0 < deadline {
        assert(late.len() > 1);
        let look = late.skip(1).skip(1);
        assert(look =~= replies.skip(3));
        assert(late[0] == replies[1] && late.skip(1)[0] == replies[2]);
        assert(laws::ends(replies, look)) by {
            assert(look.len() == replies.len() - 3);
        }
        assert(dialogue::run(check, look) == Outcome::Finished(true, outcome->Finished_1));
    } else {
        assert(laws::ends(replies, late));
        assert(dialogue::run(check, late) == Outcome::Finished(true, outcome->Finished_1));
    }
}

/// A wait that goes on keeps its start and its deadline, and remembers that an expected event
/// has come; it notes one only where one came.
pub proof fn a_wait_keeps_its_deadline(
    operation: OperationView,
    started: u64,
    deadline: u128,
    matching_event_seen: bool,
    replies: Seq<Reply>,
)
    requires
        dialogue::run(
            transaction::turn(
                operation,
                Stage::Waiting { started, deadline, matching_event_seen },
            ),
            replies,
        ) matches Outcome::Finished(turn, _) && turn is Again,
    ensures
        ({
            let stage = Stage::Waiting { started, deadline, matching_event_seen };
            let outcome = dialogue::run(transaction::turn(operation, stage), replies);
            exists|seen: bool|
                outcome->Finished_0 == Turn::Again(
                    (#[trigger] waiting(started, deadline, seen)),
                ) && (matching_event_seen ==> seen) && (seen && !matching_event_seen
                    ==> replies.len() > 2 && is_expected_event(operation, replies[2]))
        }),
{
    let stage = Stage::Waiting { started, deadline, matching_event_seen };
    let outcome = dialogue::run(transaction::turn(operation, stage), replies);
    assert(replies.len() > 0 && replies[0] is Now);
    assert(replies[0]->Now_0 < deadline);
    let late = replies.skip(1);
    assert(late.len() > 1);
    assert(late[0] == replies[1] && late.skip(1)[0] == replies[2]);
    assert(outcome->Finished_0 == Turn::Again(waiting(started, deadline, matching_event_seen))
        || outcome->Finished_0 == Turn::Again(waiting(started, deadline, true)));
}

/// The stage of a wait.
pub open spec fn waiting(started: u64, deadline: u128, matching_event_seen: bool) -> Stage {
    Stage::Waiting { started, deadline, matching_event_seen }
}

/// A state counts as settled only once it has lasted for 350 milliseconds, before the deadline.
pub proof fn a_settled_state_has_lasted(
    operation: OperationView,
    started: u64,
    deadline: u128,
    stable_since: Option<u64>,
    replies: Seq<Reply>,
)
    requires
        dialogue::run(
            transaction::turn(operation, Stage::Settling { started, deadline, stable_since }),
            replies,
        ) matches Outcome::Finished(turn, _) && turn is Complete,
    ensures
        ({
            let stage = Stage::Settling { started, deadline, stable_since };
            let turn = dialogue::run(transaction::turn(operation, stage), replies)->Finished_0;
            turn == Turn::Complete { by: Completion::StableState, started }
        }),
        replies.len() >= 2,
        replies[0] matches Reply::Now(now) && now < deadline,
        stable_since matches Some(since) && replies[1] matches Reply::Now(now) && now - since
            >= 350_000_000,
{
    assert(replies.len() > 0 && replies[0] is Now);
    assert(replies.len() > 1);
    assert(replies.skip(1)[0] == replies[1]);
}

/// The stage of settling.
pub open spec fn settling(started: u64, deadline: u128, stable_since: Option<u64>) -> Stage {
    Stage::Settling { started, deadline, stable_since }
}

/// While a state settles, its start is the one noted before, unless the turn had an expected
/// event; or it is the clock that was read last, after the check was found to hold. Where the
/// check does not hold, the start is forgotten.
pub proof fn a_broken_state_settles_anew(
    operation: OperationView,
    started: u64,
    deadline: u128,
    stable_since: Option<u64>,
    replies: Seq<Reply>,
)
    requires
        dialogue::run(
            transaction::turn(operation, settling(started, deadline, stable_since)),
            replies,
        ) matches Outcome::Finished(turn, _) && turn is Again,
    ensures
        replies.len() > 0 && replies[0] is Now,
        ({
            let turn = transaction::turn(operation, settling(started, deadline, stable_since));
            let outcome = dialogue::run(turn, replies);
            let at: int = if stable_since is Some {
                3
            } else {
                2
            };
            let look = replies.skip(at + 1);
            let check = dialogue::run(transaction::check_holds(operation.check), look);
            &&& replies.len() > at
            &&& match replies[at] {
                Reply::Event(event) => if transaction::expects(operation.expectation, event) {
                    exists|since: Option<u64>| #[trigger]
                        leads_to(outcome, settling(started, deadline, since))
                            && fresh_or_forgotten(check, since)
                } else {
                    leads_to(outcome, settling(started, deadline, stable_since))
                },
                _ => if stable_since is Some {
                    exists|since: Option<u64>| #[trigger]
                        leads_to(outcome, settling(started, deadline, since)) && (check matches
                            Outcome::Finished(holds, _) && since == (if holds {
                            stable_since
                        } else {
                            None
                        }))
                } else {
                    exists|since: Option<u64>| #[trigger]
                        leads_to(outcome, settling(started, deadline, since))
                            && fresh_or_forgotten(check, since)
                },
            }
        }),
{
    let turn = transaction::turn(operation, settling(started, deadline, stable_since));
    let outcome = dialogue::run(turn, replies);
    assert(replies.len() > 0 && replies[0] is Now);
    let late = replies.skip(1);
    assert(replies[0]->Now_0 < deadline);
    let later = if stable_since is Some {
        assert(late.len() > 0 && late[0] is Now);
        assert(late[0] == replies[1]);
        late.skip(1)
    } else {
        late
    };
    let at: int = if stable_since is Some {
        3
    } else {
        2
    };
    assert(later =~= replies.skip(at - 1));
    assert(later.len() > 1);
    assert(later.skip(1) =~= replies.skip(at));
    assert(later.skip(1)[0] == replies[at]);
    assert(later.skip(1).skip(1) =~= replies.skip(at + 1));
    let next = outcome->Finished_0->Again_0;
    assert(next is Settling);
    assert(leads_to(outcome, settling(started, deadline, next->stable_since)));
}

/// Whether a turn leads to a stage.
pub open spec fn leads_to(outcome: Outcome<Turn>, stage: Stage) -> bool {
    outcome matches Outcome::Finished(turn, _) && turn == Turn::Again(stage)
}

/// Whether the start that is noted after a look is the clock right after it where the check
/// held, and none where it did not.
pub open spec fn fresh_or_forgotten(check: Outcome<bool>, since: Option<u64>) -> bool {
    check matches Outcome::Finished(holds, rest) && if holds {
        rest.len() > 0 && rest[0] is Now && since == Some(rest[0]->Now_0)
    } else {
        since is None
    }
}

/// Every turn begins with a request, so an operation cannot go on without the outside.
pub proof fn every_turn_begins_with_a_request(operation: OperationView, stage: Stage)
    ensures
        dialogue::run(transaction::turn(operation, stage), Seq::empty()) is Waiting,
{
}

/// An event of a workspace is an event of its display.
pub proof fn a_workspace_is_expected_on_its_display(
    display_uuid: Seq<char>,
    workspace_name: Seq<char>,
    event: RiftEvent,
)
    requires
        transaction::expects(
            (ExpectationView::Workspace { display_uuid, workspace_name }),
            event,
        ),
    ensures
        transaction::expects(ExpectationView::Display(display_uuid), event),
{
}

/// An event is expected of one display at most, and where a workspace is named, of one
/// workspace at most.
pub proof fn an_event_is_of_one_workspace(
    first_display: Seq<char>,
    first_workspace: Seq<char>,
    second_display: Seq<char>,
    second_workspace: Seq<char>,
    event: RiftEvent,
)
    requires
        transaction::expects(
            (ExpectationView::Workspace {
                display_uuid: first_display,
                workspace_name: first_workspace,
            }),
            event,
        ),
        transaction::expects(
            (ExpectationView::Workspace {
                display_uuid: second_display,
                workspace_name: second_workspace,
            }),
            event,
        ),
    ensures
        first_display == second_display,
        first_workspace == second_workspace,
{
}

} // verus!
