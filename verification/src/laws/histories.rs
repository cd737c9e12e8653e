//! What holds of an operation from its opening to its end.
use crate::dialogue;
use crate::dialogue::{AskView, Outcome, Reply, RequestView};
use crate::laws;
use crate::laws::waiting;
use crate::session;
use crate::session::{ActivityView, Progress, SessionView};
use crate::transaction;
use crate::transaction::{Completion, OperationView, Pace, Stage, Turn};
use vstd::prelude::*;

verus! {

broadcast use dialogue::group_run;

// ---------------------------------------------------------------------------
// The look of a turn.
// ---------------------------------------------------------------------------

/// Whether a reply is the clock, at this time or later.
pub open spec fn is_time_from(replies: Seq<Reply>, at: int, time: int) -> bool {
    &&& at < replies.len()
    &&& replies[at] matches Reply::Now(now) && now >= time
}

/// Where in a turn the check is held against Rift's state: how many replies the turn has had by
/// then. There is no look before the commands are submitted. A wait looks once after its
/// deadline; before it, it looks after an expected event, and after a pause unless an expected
/// event is still needed. Settling begins with a look; it goes on, before its deadline and as
/// long as the state is not settled yet, with one after each expected event and each pause.
pub open spec fn look_at(operation: OperationView, stage: Stage, replies: Seq<Reply>) -> Option<
    int,
> {
    match stage {
        Stage::Opening => if operation.pace is Settle {
            Some(
                if operation.transaction.batch_deadline is Some {
                    2
                } else {
                    1
                },
            )
        } else {
            None
        },
        Stage::Draining => None,
        Stage::Waiting { started, deadline, matching_event_seen } => if is_time_from(
            replies,
            0,
            deadline as int,
        ) {
            Some(1)
        } else if replies.len() > 2 && (waiting::is_expected_event(operation, replies[2])
            || replies[2] is Nothing && (matching_event_seen || !(operation.pace is Confirmed))) {
            Some(3)
        } else {
            None
        },
        Stage::Settling { started, deadline, stable_since } => {
            let event: int = if stable_since is Some {
                3
            } else {
                2
            };
            let over = stable_since matches Some(since) && is_time_from(
                replies,
                1,
                since + 350_000_000,
            );
            if !is_time_from(replies, 0, deadline as int) && !over && replies.len() > event && (
            waiting::is_expected_event(operation, replies[event]) || replies[event] is Nothing) {
                Some(event + 1)
            } else {
                None
            }
        },
    }
}

/// What the look of a turn showed, where the turn has one.
pub open spec fn look(operation: OperationView, stage: Stage, replies: Seq<Reply>) -> Option<
    Outcome<bool>,
> {
    match look_at(operation, stage, replies) {
        Some(at) => Some(
            dialogue::run(transaction::check_holds(operation.check), replies.skip(at)),
        ),
        None => None,
    }
}

/// Whether a request reads the clock, takes an event or has a command executed.
pub open spec fn looks_at_nothing(request: RequestView) -> bool {
    request matches RequestView::Outside(ask) && (ask is Now || ask is Receive || ask is TryReceive
        || ask is Execute)
}

/// Whether these requests look at nothing.
pub open spec fn none_looks(asked: Seq<RequestView>) -> bool {
    forall|i: int| 0 <= i < asked.len() ==> looks_at_nothing(#[trigger] asked[i])
}

/// Allows the requests that look at nothing.
spec fn lookless() -> spec_fn(RequestView) -> bool {
    |request: RequestView| looks_at_nothing(request)
}

/// Whether a turn looked at Rift's state in this one place, and nowhere else.
pub open spec fn looked_only_at(
    operation: OperationView,
    asked: Seq<RequestView>,
    replies: Seq<Reply>,
    at: int,
) -> bool {
    let check = transaction::check_holds(operation.check);
    let own = laws::requests(check, replies.skip(at));
    let outcome = dialogue::run(check, replies.skip(at));
    &&& outcome is Finished
    &&& laws::did_at(asked, replies, check, outcome->Finished_0, at)
    &&& none_looks(asked.take(at))
    &&& none_looks(asked.skip(at + own.len()))
}

proof fn lemma_looked(
    operation: OperationView,
    asked: Seq<RequestView>,
    before: Seq<RequestView>,
    after: Seq<RequestView>,
    replies: Seq<Reply>,
)
    requires
        before.len() <= replies.len(),
        none_looks(before),
        none_looks(after),
        dialogue::run(
            transaction::check_holds(operation.check),
            replies.skip(before.len() as int),
        ) is Finished,
        asked == before + (laws::requests(
            transaction::check_holds(operation.check),
            replies.skip(before.len() as int),
        ) + after),
    ensures
        looked_only_at(operation, asked, replies, before.len() as int),
{
    let at = before.len() as int;
    let own = laws::requests(transaction::check_holds(operation.check), replies.skip(at));
    assert(asked.take(at) =~= before);
    assert(asked.subrange(at, at + own.len()) =~= own);
    assert(asked.skip(at + own.len()) =~= after);
}

proof fn lemma_submitting_looks_at_nothing(operation: OperationView)
    ensures
        dialogue::asks_only(transaction::submit(operation), lookless()),
        dialogue::asks_only(transaction::drain(operation), lookless()),
{
    broadcast use dialogue::group_asks_only;

    lemma_commands_look_at_nothing(operation, 0);
}

proof fn lemma_commands_look_at_nothing(operation: OperationView, at: int)
    ensures
        dialogue::asks_only(transaction::submit_from(operation.commands, at), lookless()),
    decreases operation.commands.len() - at,
{
    broadcast use dialogue::group_asks_only;

    if 0 <= at < operation.commands.len() {
        lemma_commands_look_at_nothing(operation, at + 1);
    }
}

proof fn lemma_budget(operation: OperationView, replies: Seq<Reply>)
    requires
        dialogue::run(transaction::ensure_budget(operation), replies) is Finished,
    ensures
        ({
            let asked = laws::requests(transaction::ensure_budget(operation), replies);
            let count: nat = if operation.transaction.batch_deadline is Some {
                1
            } else {
                0
            };
            &&& none_looks(asked)
            &&& asked.len() == count
            &&& replies.len() >= count
            &&& laws::left_over(dialogue::run(transaction::ensure_budget(operation), replies))
                == replies.skip(count as int)
        }),
{
    broadcast use laws::group_requests;

    assert(replies.skip(0) =~= replies);
}

proof fn lemma_settled_since_looks(
    operation: OperationView,
    started: u64,
    deadline: u128,
    stable_since: Option<u64>,
    replies: Seq<Reply>,
) -> (after: Seq<RequestView>)
    requires
        dialogue::run(
            transaction::settled_since(operation, started, deadline, stable_since),
            replies,
        ) is Finished,
    ensures
        none_looks(after),
        dialogue::run(transaction::check_holds(operation.check), replies) is Finished,
        laws::requests(
            transaction::settled_since(operation, started, deadline, stable_since),
            replies,
        ) == laws::requests(transaction::check_holds(operation.check), replies) + after,
{
    broadcast use laws::group_requests;

    let check = transaction::check_holds(operation.check);
    let own = laws::requests(check, replies);
    let whole = laws::requests(
        transaction::settled_since(operation, started, deadline, stable_since),
        replies,
    );
    let after = if dialogue::run(check, replies)->Finished_0 && stable_since is None {
        seq![RequestView::Outside(AskView::Now)]
    } else {
        Seq::empty()
    };
    assert(whole =~= own + after);
    after
}

proof fn lemma_opening_looks(operation: OperationView, replies: Seq<Reply>)
    requires
        dialogue::run(transaction::turn(operation, Stage::Opening), replies) is Finished,
    ensures
        ({
            let asked = laws::requests(transaction::turn(operation, Stage::Opening), replies);
            match look_at(operation, Stage::Opening, replies) {
                Some(at) => looked_only_at(operation, asked, replies, at),
                None => none_looks(asked),
            }
        }),
{
    broadcast use laws::group_requests;

    let turn = transaction::turn(operation, Stage::Opening);
    let asked = laws::requests(turn, replies);
    let budget = laws::requests(transaction::ensure_budget(operation), replies);
    lemma_budget(operation, replies);
    let rest = replies.skip(budget.len() as int);
    lemma_submitting_looks_at_nothing(operation);
    match operation.pace {
        Pace::Step => {
            laws::lemma_requests_allowed(transaction::submit(operation), lookless(), rest);
            assert(asked == budget + laws::requests(transaction::submit(operation), rest));
        },
        Pace::Confirmed => {
            laws::lemma_requests_allowed(transaction::drain(operation), lookless(), rest);
            assert(asked == budget + laws::requests(transaction::drain(operation), rest));
        },
        Pace::Settle => {
            assert(rest.len() > 0 && rest[0] is Now);
            let started = rest[0]->Now_0;
            let deadline = transaction::wait_deadline(
                operation.transaction,
                started,
                operation.timeout,
            ) as u128;
            let clock = seq![RequestView::Outside(AskView::Now)];
            let look = rest.skip(1);
            let after = lemma_settled_since_looks(operation, started, deadline, None, look);
            let own = laws::requests(transaction::check_holds(operation.check), look);
            assert(laws::requests(transaction::begin_to_settle(operation), rest) == clock + (own
                + after));
            let before = budget + clock;
            assert(asked =~= before + (own + after));
            assert(replies.skip(before.len() as int) =~= look);
            lemma_looked(operation, asked, before, after, replies);
        },
    }
}

proof fn lemma_draining_looks(operation: OperationView, replies: Seq<Reply>)
    ensures
        none_looks(laws::requests(transaction::turn(operation, Stage::Draining), replies)),
{
    lemma_submitting_looks_at_nothing(operation);
    laws::lemma_requests_allowed(transaction::drain(operation), lookless(), replies);
}

proof fn lemma_waiting_looks(
    operation: OperationView,
    started: u64,
    deadline: u128,
    matching_event_seen: bool,
    replies: Seq<Reply>,
)
    requires
        dialogue::run(
            transaction::wait_turn(operation, started, deadline, matching_event_seen),
            replies,
        ) is Finished,
    ensures
        ({
            let asked = laws::requests(
                transaction::wait_turn(operation, started, deadline, matching_event_seen),
                replies,
            );
            let stage = Stage::Waiting { started, deadline, matching_event_seen };
            match look_at(operation, stage, replies) {
                Some(at) => looked_only_at(operation, asked, replies, at),
                None => none_looks(asked),
            }
        }),
{
    broadcast use laws::group_requests;

    let asked = laws::requests(
        transaction::wait_turn(operation, started, deadline, matching_event_seen),
        replies,
    );
    let check = transaction::check_holds(operation.check);
    let clock = seq![RequestView::Outside(AskView::Now)];
    let none = Seq::<RequestView>::empty();
    assert(replies.len() > 0 && replies[0] is Now);
    let one = replies.skip(1);
    if replies[0]->Now_0 >= deadline {
        let own = laws::requests(check, one);
        assert(asked =~= clock + (own + none));
        lemma_looked(operation, asked, clock, none, replies);
    } else {
        assert(one.len() > 1 && one[0] is Now);
        assert(one[0] == replies[1]);
        let two = one.skip(1);
        assert(two[0] == replies[2]);
        let three = two.skip(1);
        assert(three =~= replies.skip(3));
        let receive = RequestView::Outside(
            AskView::Receive { wait_nanos: transaction::wait_time(one[0]->Now_0, deadline) },
        );
        let before = seq![RequestView::Outside(AskView::Now), clock[0], receive];
        let own = laws::requests(check, three);
        if look_at(operation, waiting::waiting(started, deadline, matching_event_seen), replies)
            is Some {
            assert(asked =~= before + (own + none));
            lemma_looked(operation, asked, before, none, replies);
        } else {
            assert(asked =~= before);
        }
    }
}

proof fn lemma_first_settling_looks(
    operation: OperationView,
    started: u64,
    deadline: u128,
    replies: Seq<Reply>,
)
    requires
        dialogue::run(
            transaction::settle_turn(operation, started, deadline, None),
            replies,
        ) is Finished,
    ensures
        ({
            let asked = laws::requests(
                transaction::settle_turn(operation, started, deadline, None),
                replies,
            );
            match look_at(operation, waiting::settling(started, deadline, None), replies) {
                Some(at) => looked_only_at(operation, asked, replies, at),
                None => none_looks(asked),
            }
        }),
{
    broadcast use laws::group_requests;

    let asked = laws::requests(
        transaction::settle_turn(operation, started, deadline, None),
        replies,
    );
    let clock = RequestView::Outside(AskView::Now);
    assert(replies.len() > 0 && replies[0] is Now);
    assert(replies[0]->Now_0 < deadline);
    let one = replies.skip(1);
    let two = one;
    assert(two.len() > 1 && two[0] is Now);
    assert(two.skip(1)[0] == replies[2]);
    let look = two.skip(1).skip(1);
    assert(look =~= replies.skip(3));
    let receive = RequestView::Outside(
        AskView::Receive { wait_nanos: transaction::wait_time(two[0]->Now_0, deadline) },
    );
    let before = seq![clock, clock, receive];
    if look_at(operation, waiting::settling(started, deadline, None), replies) is Some {
        let after = lemma_settled_since_looks(operation, started, deadline, None, look);
        let own = laws::requests(transaction::check_holds(operation.check), look);
        assert(asked =~= before + (own + after));
        lemma_looked(operation, asked, before, after, replies);
    } else {
        assert(asked =~= before);
    }
}

#[verifier::rlimit(40)]
proof fn lemma_unsettled_looks(
    operation: OperationView,
    started: u64,
    deadline: u128,
    since: u64,
    replies: Seq<Reply>,
)
    requires
        dialogue::run(
            transaction::settle_turn(operation, started, deadline, Some(since)),
            replies,
        ) is Finished,
        replies.len() > 1 && replies[1] is Now,
        !transaction::is_stable(replies[1]->Now_0, since),
    ensures
        ({
            let asked = laws::requests(
                transaction::settle_turn(operation, started, deadline, Some(since)),
                replies,
            );
            match look_at(operation, waiting::settling(started, deadline, Some(since)), replies) {
                Some(at) => looked_only_at(operation, asked, replies, at),
                None => none_looks(asked),
            }
        }),
{
    broadcast use laws::group_requests;

    let asked = laws::requests(
        transaction::settle_turn(operation, started, deadline, Some(since)),
        replies,
    );
    let clock = RequestView::Outside(AskView::Now);
    assert(replies.len() > 0 && replies[0] is Now);
    assert(replies[0]->Now_0 < deadline);
    let one = replies.skip(1);
    assert(one[0] == replies[1]);
    let two = one.skip(1);
    assert(two.len() > 1 && two[0] is Now);
    assert(two.skip(1)[0] == replies[3]);
    let look = two.skip(1).skip(1);
    assert(look =~= replies.skip(4));
    let receive = RequestView::Outside(
        AskView::Receive { wait_nanos: transaction::wait_time(two[0]->Now_0, deadline) },
    );
    let before = seq![clock, clock, clock, receive];
    if look_at(operation, waiting::settling(started, deadline, Some(since)), replies) is Some {
        let kept = if replies[3] is Nothing {
            Some(since)
        } else {
            None
        };
        let after = lemma_settled_since_looks(operation, started, deadline, kept, look);
        let own = laws::requests(transaction::check_holds(operation.check), look);
        assert(asked =~= before + (own + after));
        lemma_looked(operation, asked, before, after, replies);
    } else {
        assert(asked =~= before);
    }
}

proof fn lemma_further_settling_looks(
    operation: OperationView,
    started: u64,
    deadline: u128,
    since: u64,
    replies: Seq<Reply>,
)
    requires
        dialogue::run(
            transaction::settle_turn(operation, started, deadline, Some(since)),
            replies,
        ) is Finished,
    ensures
        ({
            let asked = laws::requests(
                transaction::settle_turn(operation, started, deadline, Some(since)),
                replies,
            );
            match look_at(operation, waiting::settling(started, deadline, Some(since)), replies) {
                Some(at) => looked_only_at(operation, asked, replies, at),
                None => none_looks(asked),
            }
        }),
{
    broadcast use laws::group_requests;

    let asked = laws::requests(
        transaction::settle_turn(operation, started, deadline, Some(since)),
        replies,
    );
    let clock = RequestView::Outside(AskView::Now);
    assert(replies.len() > 0 && replies[0] is Now);
    assert(replies[0]->Now_0 < deadline);
    let one = replies.skip(1);
    assert(one.len() > 0 && one[0] is Now && one[0] == replies[1]);
    if transaction::is_stable(one[0]->Now_0, since) {
        assert(asked =~= seq![clock, clock]);
    } else {
        lemma_unsettled_looks(operation, started, deadline, since, replies);
    }
}

/// A turn that has come to an end held the check against Rift's state in the one place that is
/// meant for it, or not at all; the rest of its requests look at nothing.
pub proof fn a_turn_looks_once_at_most(
    operation: OperationView,
    stage: Stage,
    replies: Seq<Reply>,
)
    requires
        dialogue::run(transaction::turn(operation, stage), replies) is Finished,
    ensures
        ({
            let asked = laws::requests(transaction::turn(operation, stage), replies);
            match look_at(operation, stage, replies) {
                Some(at) => looked_only_at(operation, asked, replies, at),
                None => none_looks(asked),
            }
        }),
{
    match stage {
        Stage::Opening => {
            lemma_opening_looks(operation, replies);
        },
        Stage::Draining => {
            lemma_draining_looks(operation, replies);
        },
        Stage::Waiting { started, deadline, matching_event_seen } => {
            lemma_waiting_looks(operation, started, deadline, matching_event_seen, replies);
        },
        Stage::Settling { started, deadline, stable_since } => {
            match stable_since {
                Some(since) => {
                    lemma_further_settling_looks(operation, started, deadline, since, replies);
                },
                None => {
                    lemma_first_settling_looks(operation, started, deadline, replies);
                },
            }
        },
    }
}

// ---------------------------------------------------------------------------
// The states of a session.
// ---------------------------------------------------------------------------

/// Whether a session needs something from the outside to go on.
pub open spec fn is_asking(session: SessionView) -> bool {
    exists|progress: Progress|
        progress is Ask && #[trigger] session::steps(session, session, progress)
}

/// Whether one state of a session comes right after another: it has the reply to what was asked,
/// or the session went on by itself.
pub open spec fn comes_after(before: SessionView, after: SessionView) -> bool {
    ||| is_asking(before) && exists|reply: Reply| after == #[trigger] session::answered(
        before,
        reply,
    )
    ||| exists|progress: Progress|
        !(progress is Ask) && #[trigger] session::steps(before, after, progress)
}

/// Whether the state after this one comes right after it.
pub open spec fn goes_on(states: Seq<SessionView>, at: int) -> bool {
    comes_after(states[at], states[at + 1])
}

/// Whether each state of a session comes right after the one before.
pub open spec fn is_history(states: Seq<SessionView>) -> bool {
    forall|i: int| 0 <= i < states.len() - 1 ==> #[trigger] goes_on(states, i)
}

/// Whether a session is at this operation.
pub open spec fn is_at(operation: OperationView, session: SessionView) -> bool {
    session.activity matches ActivityView::Operation { operation: own, stage } && own == operation
}

/// Whether a session is about to open this operation.
pub open spec fn is_opening(operation: OperationView, session: SessionView) -> bool {
    &&& session.activity == ActivityView::Operation { operation, stage: Stage::Opening }
    &&& session.turn_replies.len() == 0
}

/// Whether these are the states of a session from the opening of this operation on, as long as
/// it is at the operation.
pub open spec fn is_history_of(operation: OperationView, states: Seq<SessionView>) -> bool {
    &&& states.len() > 0
    &&& is_opening(operation, states[0])
    &&& is_history(states)
    &&& forall|i: int| 0 <= i < states.len() ==> is_at(operation, #[trigger] states[i])
}

/// A session that is at an operation has opened it, and has been at it since: where it started at
/// the command, its states from some one on are a history of the operation.
pub proof fn an_operation_under_way_was_opened(states: Seq<SessionView>, operation: OperationView)
    requires
        states.len() > 0,
        states[0].activity is Command,
        is_history(states),
        is_at(operation, states.last()),
    ensures
        exists|from: int|
            0 <= from < states.len() && is_history_of(operation, #[trigger] states.skip(from)),
    decreases states.len(),
{
    let earlier = states.drop_last();
    let before = states[states.len() - 2];
    assert(goes_on(states, states.len() - 2));
    assert forall|i: int| 0 <= i < earlier.len() - 1 implies #[trigger] goes_on(earlier, i) by {
        assert(goes_on(states, i));
    }
    if is_opening(operation, states.last()) && !is_at(operation, before) {
        let own = states.skip(states.len() - 1);
        assert(own.len() == 1 && own[0] == states.last());
        assert(is_history_of(operation, own));
    } else {
        lemma_stays(operation, before, states.last());
        assert(earlier.last() == before);
        an_operation_under_way_was_opened(earlier, operation);
        let from = choose|from: int|
            0 <= from < earlier.len() && is_history_of(operation, #[trigger] earlier.skip(from));
        let own = states.skip(from);
        let shorter = earlier.skip(from);
        assert(shorter[0] == own[0]);
        assert forall|i: int| 0 <= i < own.len() - 1 implies #[trigger] goes_on(own, i) by {
            assert(goes_on(states, from + i));
        }
        assert forall|i: int| 0 <= i < own.len() implies is_at(operation, #[trigger] own[i]) by {
            if i < shorter.len() {
                assert(shorter[i] == own[i]);
            } else {
                assert(own[i] == states.last());
            }
        }
        assert(is_history_of(operation, own));
    }
}

proof fn lemma_stays(operation: OperationView, before: SessionView, after: SessionView)
    requires
        comes_after(before, after),
        is_at(operation, after),
        !is_opening(operation, after) || is_at(operation, before),
    ensures
        is_at(operation, before),
{
}

/// Whether the turn under way is over.
#[verifier::opaque]
pub open spec fn turn_is_over(operation: OperationView, session: SessionView) -> bool {
    dialogue::run(
        transaction::turn(operation, session.activity->stage),
        session.turn_replies,
    ) is Finished
}

proof fn lemma_link(operation: OperationView, before: SessionView, after: SessionView)
    requires
        is_at(operation, before),
        is_at(operation, after),
        comes_after(before, after),
    ensures
        ({
            let outcome = dialogue::run(
                transaction::turn(operation, before.activity->stage),
                before.turn_replies,
            );
            ||| outcome is Waiting && after.activity == before.activity
            ||| outcome is Finished && outcome->Finished_0 == Turn::Again(after.activity->stage)
                && after.turn_replies.len() == 0
        }),
{
    assert(before.activity == ActivityView::Operation { operation, stage: before.activity->stage });
}

// ---------------------------------------------------------------------------
// Settling.
// ---------------------------------------------------------------------------

/// Whether the look of a turn held, and the clock that was read right after it showed this time.
pub open spec fn was_noted(
    operation: OperationView,
    stage: Stage,
    replies: Seq<Reply>,
    since: u64,
) -> bool {
    look(operation, stage, replies) matches Some(Outcome::Finished(holds, rest)) && holds
        && rest.len() > 0 && rest[0] == Reply::Now(since)
}

/// Whether the look of a turn held, where the turn has one.
#[verifier::opaque]
pub open spec fn no_look_failed(
    operation: OperationView,
    stage: Stage,
    replies: Seq<Reply>,
) -> bool {
    look(operation, stage, replies) matches Some(outcome) ==> (outcome matches Outcome::Finished(
        holds,
        _,
    ) && holds)
}

/// Whether the state of Rift has held since this time, as far as it was looked at: right before
/// the state with this index the check was found to hold and the time noted, and from then on no
/// turn before the last state found it broken.
pub open spec fn has_held(
    operation: OperationView,
    states: Seq<SessionView>,
    since: u64,
    from: int,
) -> bool {
    &&& 0 < from < states.len()
    &&& turn_is_over(operation, states[from - 1])
    &&& was_noted(
        operation,
        states[from - 1].activity->stage,
        states[from - 1].turn_replies,
        since,
    )
    &&& forall|i: int|
        from <= i < states.len() ==> is_settling_since(#[trigger] states[i], since)
    &&& forall|i: int|
        from <= i < states.len() - 1 && turn_is_over(
            operation,
            #[trigger] states[i],
        ) ==> no_look_failed(
            operation,
            states[i].activity->stage,
            states[i].turn_replies,
        )
}

/// Whether a session settles since this time.
pub open spec fn is_settling_since(session: SessionView, since: u64) -> bool {
    session.activity matches ActivityView::Operation { operation, stage }
        && stage matches Stage::Settling { started, deadline, stable_since } && stable_since
        == Some(since)
}

/// Whether a turn that settles led to this start of the settled time rightly: it is a fresh one
/// that was noted after a look that held; or the one before, and no look failed; or none.
spec fn is_rightly_noted(
    operation: OperationView,
    stage: Stage,
    replies: Seq<Reply>,
    next: Stage,
) -> bool {
    &&& next is Settling
    &&& next->stable_since is Some ==> {
        ||| was_noted(operation, stage, replies, next->stable_since->0)
        ||| stage is Settling && stage->stable_since == next->stable_since && no_look_failed(
            operation,
            stage,
            replies,
        )
    }
}

proof fn lemma_noting(
    operation: OperationView,
    started: u64,
    deadline: u128,
    stable_since: Option<u64>,
    replies: Seq<Reply>,
)
    requires
        dialogue::run(
            transaction::settled_since(operation, started, deadline, stable_since),
            replies,
        ) is Finished,
    ensures
        ({
            let check = dialogue::run(transaction::check_holds(operation.check), replies);
            let turn = dialogue::run(
                transaction::settled_since(operation, started, deadline, stable_since),
                replies,
            )->Finished_0;
            &&& check is Finished
            &&& turn matches Turn::Again(Stage::Settling {
                started: _,
                deadline: _,
                stable_since: since,
            }) && (if !check->Finished_0 {
                since is None
            } else if stable_since is Some {
                since == stable_since
            } else {
                check->Finished_1.len() > 0 && check->Finished_1[0] is Now && since == Some(
                    check->Finished_1[0]->Now_0,
                )
            })
        }),
{
}

proof fn lemma_opening_notes(operation: OperationView, replies: Seq<Reply>)
    requires
        operation.pace is Settle,
        dialogue::run(transaction::turn(operation, Stage::Opening), replies) is Finished,
    ensures
        dialogue::run(transaction::turn(operation, Stage::Opening), replies)->Finished_0
            matches Turn::Again(next) && is_rightly_noted(
            operation,
            Stage::Opening,
            replies,
            next,
        ),
{
    reveal(no_look_failed);
    let budget = transaction::ensure_budget(operation);
    lemma_budget(operation, replies);
    let rest = laws::left_over(dialogue::run(budget, replies));
    assert(rest.len() > 0 && rest[0] is Now);
    let started = rest[0]->Now_0;
    let deadline = transaction::wait_deadline(
        operation.transaction,
        started,
        operation.timeout,
    ) as u128;
    lemma_noting(operation, started, deadline, None, rest.skip(1));
    assert(rest.skip(1) =~= replies.skip(look_at(operation, Stage::Opening, replies)->0));
}

proof fn lemma_first_settling_notes(
    operation: OperationView,
    started: u64,
    deadline: u128,
    replies: Seq<Reply>,
)
    requires
        dialogue::run(
            transaction::settle_turn(operation, started, deadline, None),
            replies,
        ) is Finished,
    ensures
        dialogue::run(
            transaction::settle_turn(operation, started, deadline, None),
            replies,
        )->Finished_0 matches Turn::Again(next) && is_rightly_noted(
            operation,
            waiting::settling(started, deadline, None),
            replies,
            next,
        ),
{
    reveal(no_look_failed);
    assert(replies.len() > 0 && replies[0] is Now);
    assert(replies[0]->Now_0 < deadline);
    let one = replies.skip(1);
    assert(one.len() > 1 && one[0] is Now);
    assert(one.skip(1)[0] == replies[2]);
    let look = one.skip(1).skip(1);
    assert(look =~= replies.skip(3));
    if look_at(operation, waiting::settling(started, deadline, None), replies) is Some {
        lemma_noting(operation, started, deadline, None, look);
    }
}

proof fn lemma_further_settling_notes(
    operation: OperationView,
    started: u64,
    deadline: u128,
    since: u64,
    replies: Seq<Reply>,
)
    requires
        dialogue::run(
            transaction::settle_turn(operation, started, deadline, Some(since)),
            replies,
        ) matches Outcome::Finished(turn, _) && turn is Again,
    ensures
        dialogue::run(
            transaction::settle_turn(operation, started, deadline, Some(since)),
            replies,
        )->Finished_0 matches Turn::Again(next) && is_rightly_noted(
            operation,
            waiting::settling(started, deadline, Some(since)),
            replies,
            next,
        ),
{
    reveal(no_look_failed);
    assert(replies.len() > 0 && replies[0] is Now);
    assert(replies[0]->Now_0 < deadline);
    let one = replies.skip(1);
    assert(one.len() > 0 && one[0] is Now && one[0] == replies[1]);
    assert(!transaction::is_stable(one[0]->Now_0, since));
    let two = one.skip(1);
    assert(two.len() > 1 && two[0] is Now);
    assert(two.skip(1)[0] == replies[3]);
    let look = two.skip(1).skip(1);
    assert(look =~= replies.skip(4));
    if look_at(operation, waiting::settling(started, deadline, Some(since)), replies) is Some {
        if replies[3] is Nothing {
            lemma_noting(operation, started, deadline, Some(since), look);
        } else {
            lemma_noting(operation, started, deadline, None, look);
        }
    }
}

proof fn lemma_settling_notes(operation: OperationView, stage: Stage, replies: Seq<Reply>)
    requires
        operation.pace is Settle,
        stage is Opening || stage is Settling,
        dialogue::run(transaction::turn(operation, stage), replies) matches Outcome::Finished(
            turn,
            _,
        ) && turn is Again,
    ensures
        is_rightly_noted(
            operation,
            stage,
            replies,
            dialogue::run(transaction::turn(operation, stage), replies)->Finished_0->Again_0,
        ),
{
    match stage {
        Stage::Settling { started, deadline, stable_since } => match stable_since {
            Some(since) => {
                lemma_further_settling_notes(operation, started, deadline, since, replies);
            },
            None => {
                lemma_first_settling_notes(operation, started, deadline, replies);
            },
        },
        _ => {
            lemma_opening_notes(operation, replies);
        },
    }
}

proof fn lemma_settling_so_far(operation: OperationView, states: Seq<SessionView>)
    requires
        operation.pace is Settle,
        is_history_of(operation, states),
    ensures
        ({
            let stage = states.last().activity->stage;
            &&& stage is Opening || stage is Settling
            &&& stage is Settling && stage->stable_since is Some ==> exists|from: int|
                #[trigger] has_held(operation, states, stage->stable_since->0, from)
        }),
    decreases states.len(),
{
    reveal(turn_is_over);
    if states.len() > 1 {
        let earlier = states.drop_last();
        let before = states[states.len() - 2];
        let after = states.last();
        assert(goes_on(states, states.len() - 2));
        assert(earlier.last() == before);
        assert(is_history_of(operation, earlier)) by {
            assert forall|i: int| 0 <= i < earlier.len() - 1 implies #[trigger] goes_on(
                earlier,
                i,
            ) by {
                assert(goes_on(states, i));
            }
        }
        lemma_settling_so_far(operation, earlier);
        assert(is_at(operation, before) && is_at(operation, after));
        lemma_link(operation, before, after);
        if turn_is_over(operation, before) {
            lemma_settling_notes(operation, before.activity->stage, before.turn_replies);
        }
        let stage = after.activity->stage;
        if stage is Settling && stage->stable_since is Some {
            let since = stage->stable_since->0;
            if turn_is_over(operation, before) && was_noted(
                operation,
                before.activity->stage,
                before.turn_replies,
                since,
            ) {
                assert(has_held(operation, states, since, states.len() - 1));
            } else {
                let from = choose|from: int|
                    has_held(operation, earlier, since, from);
                lemma_held_on(operation, states, since, from);
            }
        }
    }
}

proof fn lemma_held_on(
    operation: OperationView,
    states: Seq<SessionView>,
    since: u64,
    from: int,
)
    requires
        states.len() > 1,
        has_held(operation, states.drop_last(), since, from),
        is_settling_since(states.last(), since),
        turn_is_over(operation, states[states.len() - 2]) ==> no_look_failed(
            operation,
            states[states.len() - 2].activity->stage,
            states[states.len() - 2].turn_replies,
        ),
    ensures
        has_held(operation, states, since, from),
{
    let earlier = states.drop_last();
    assert(earlier[from - 1] == states[from - 1]);
    assert forall|i: int| from <= i < states.len() implies is_settling_since(
        #[trigger] states[i],
        since,
    ) by {
        if i < earlier.len() {
            assert(earlier[i] == states[i]);
        }
    }
    assert forall|i: int|
        from <= i < states.len() - 1 && turn_is_over(
            operation,
            #[trigger] states[i],
        ) implies no_look_failed(
        operation,
        states[i].activity->stage,
        states[i].turn_replies,
    ) by {
        assert(earlier[i] == states[i]);
    }
}

/// An operation that settles is done only once every look of the last 350 milliseconds held: at
/// some time the check was found to hold, and the clock read; from there to the end no look
/// found it broken; and at the end the clock showed 350 milliseconds more.
pub proof fn a_settled_state_was_never_seen_broken(
    operation: OperationView,
    states: Seq<SessionView>,
    after: SessionView,
    progress: Progress,
)
    requires
        operation.pace is Settle,
        is_history_of(operation, states),
        session::steps(states.last(), after, progress),
        progress is Waited,
    ensures
        exists|since: u64, from: int|
            #[trigger] has_held(operation, states, since, from) && is_time_from(
                states.last().turn_replies,
                1,
                since + 350_000_000,
            ),
        look_at(operation, states.last().activity->stage, states.last().turn_replies) is None,
{
    let last = states.last();
    let stage = last.activity->stage;
    let replies = last.turn_replies;
    assert(is_at(operation, last));
    lemma_settling_so_far(operation, states);
    if stage is Opening {
        lemma_opening_notes(operation, replies);
    } else {
        waiting::a_settled_state_has_lasted(
            operation,
            stage->Settling_started,
            stage->Settling_deadline,
            stage->stable_since,
            replies,
        );
        let since = stage->stable_since->0;
        assert(is_time_from(replies, 1, since + 350_000_000));
        assert(look_at(operation, stage, replies) is None);
        let from = choose|from: int|
            has_held(operation, states, since, from);
        assert(has_held(operation, states, since, from));
    }
}

// ---------------------------------------------------------------------------
// Waiting for an event.
// ---------------------------------------------------------------------------

/// Whether an expected event came in a turn that waits. The event of a turn is its third reply.
pub open spec fn has_expected_event(operation: OperationView, session: SessionView) -> bool {
    &&& session.activity->stage is Waiting
    &&& session.turn_replies.len() > 2
    &&& waiting::is_expected_event(operation, session.turn_replies[2])
}

/// Whether no expected event came while the operation waited.
pub open spec fn has_no_expected_event(
    operation: OperationView,
    states: Seq<SessionView>,
) -> bool {
    forall|i: int| 0 <= i < states.len() ==> !has_expected_event(operation, #[trigger] states[i])
}

/// Whether an operation waits for an event that it still needs, until the deadline that it has
/// from the clock at its start.
pub open spec fn is_waiting_for_event(operation: OperationView, stage: Stage) -> bool {
    stage matches Stage::Waiting { started, deadline, matching_event_seen }
        && !matching_event_seen && deadline == transaction::wait_deadline(
        operation.transaction,
        started,
        operation.timeout,
    )
}

/// Whether no turn before this state looked at Rift's state.
pub open spec fn no_turn_looked(
    operation: OperationView,
    states: Seq<SessionView>,
    until: int,
) -> bool {
    forall|i: int|
        0 <= i < until && turn_is_over(operation, #[trigger] states[i]) ==> look_at(
            operation,
            states[i].activity->stage,
            states[i].turn_replies,
        ) is None
}

proof fn lemma_submitted(operation: OperationView, replies: Seq<Reply>)
    requires
        dialogue::run(transaction::submit(operation), replies) is Finished,
    ensures
        dialogue::run(transaction::submit(operation), replies)->Finished_0 matches Turn::Again(next)
            && is_waiting_for_event(operation, next),
{
}

proof fn lemma_drained(operation: OperationView, replies: Seq<Reply>)
    requires
        dialogue::run(transaction::drain(operation), replies) is Finished,
    ensures
        dialogue::run(transaction::drain(operation), replies)->Finished_0 matches Turn::Again(next)
            && (next is Draining || is_waiting_for_event(operation, next)),
{
    assert(replies.len() > 0);
    if replies[0] is Nothing {
        lemma_submitted(operation, replies.skip(1));
    }
}

proof fn lemma_confirmed_turn(operation: OperationView, stage: Stage, replies: Seq<Reply>)
    requires
        operation.pace is Confirmed,
        stage is Opening || stage is Draining || is_waiting_for_event(operation, stage),
        stage is Waiting && replies.len() > 2 ==> !waiting::is_expected_event(
            operation,
            replies[2],
        ),
        dialogue::run(transaction::turn(operation, stage), replies) matches Outcome::Finished(
            turn,
            _,
        ) && turn is Again,
    ensures
        look_at(operation, stage, replies) is None,
        ({
            let next = dialogue::run(
                transaction::turn(operation, stage),
                replies,
            )->Finished_0->Again_0;
            next is Draining || is_waiting_for_event(operation, next)
        }),
{
    match stage {
        Stage::Opening => {
            let budget = transaction::ensure_budget(operation);
            lemma_drained(operation, laws::left_over(dialogue::run(budget, replies)));
        },
        Stage::Draining => {
            lemma_drained(operation, replies);
        },
        Stage::Waiting { started, deadline, matching_event_seen } => {
            waiting::a_wait_keeps_its_deadline(operation, started, deadline, false, replies);
            assert(replies.len() > 0 && replies[0] is Now);
            assert(replies[0]->Now_0 < deadline);
        },
        _ => {},
    }
}

proof fn lemma_confirmed_so_far(operation: OperationView, states: Seq<SessionView>)
    requires
        operation.pace is Confirmed,
        is_history_of(operation, states),
        has_no_expected_event(operation, states),
    ensures
        ({
            let stage = states.last().activity->stage;
            stage is Opening || stage is Draining || is_waiting_for_event(operation, stage)
        }),
        no_turn_looked(operation, states, states.len() - 1),
    decreases states.len(),
{
    reveal(turn_is_over);
    if states.len() > 1 {
        let earlier = states.drop_last();
        let before = states[states.len() - 2];
        let after = states.last();
        assert(goes_on(states, states.len() - 2));
        assert(earlier.last() == before);
        assert(is_history_of(operation, earlier)) by {
            assert forall|i: int| 0 <= i < earlier.len() - 1 implies #[trigger] goes_on(
                earlier,
                i,
            ) by {
                assert(goes_on(states, i));
            }
        }
        assert(has_no_expected_event(operation, earlier)) by {
            assert forall|i: int| 0 <= i < earlier.len() implies !has_expected_event(
                operation,
                #[trigger] earlier[i],
            ) by {
                assert(earlier[i] == states[i]);
            }
        }
        lemma_confirmed_so_far(operation, earlier);
        assert(is_at(operation, before) && is_at(operation, after));
        assert(!has_expected_event(operation, before));
        lemma_link(operation, before, after);
        if turn_is_over(operation, before) {
            lemma_confirmed_turn(operation, before.activity->stage, before.turn_replies);
        }
        assert forall|i: int|
            0 <= i < states.len() - 1 && turn_is_over(
                operation,
                #[trigger] states[i],
            ) implies look_at(
            operation,
            states[i].activity->stage,
            states[i].turn_replies,
        ) is None by {
            assert(earlier[i] == states[i]);
        }
    }
}

/// A confirmed wait to which no expected event comes is done only after its deadline, and by a
/// single look: no turn before the last looked at Rift's state; the last one found the clock at
/// the deadline or past it, looked right after, and found that the check holds.
pub proof fn a_confirmed_wait_without_an_event_looks_once_after_its_deadline(
    operation: OperationView,
    states: Seq<SessionView>,
    after: SessionView,
    progress: Progress,
)
    requires
        operation.pace is Confirmed,
        is_history_of(operation, states),
        has_no_expected_event(operation, states),
        session::steps(states.last(), after, progress),
        progress is Waited,
    ensures
        progress->by == Completion::DeadlineValidation,
        no_turn_looked(operation, states, states.len() - 1),
        ({
            let stage = states.last().activity->stage;
            let replies = states.last().turn_replies;
            &&& is_waiting_for_event(operation, stage)
            &&& is_time_from(replies, 0, stage->Waiting_deadline as int)
            &&& look_at(operation, stage, replies) == Some(1int)
            &&& look(operation, stage, replies) matches Some(Outcome::Finished(holds, _)) && holds
            &&& looked_only_at(
                operation,
                laws::requests(transaction::turn(operation, stage), replies),
                replies,
                1,
            )
        }),
{
    let last = states.last();
    let stage = last.activity->stage;
    let replies = last.turn_replies;
    assert(is_at(operation, last));
    assert(!has_expected_event(operation, last));
    lemma_confirmed_so_far(operation, states);
    match stage {
        Stage::Waiting { started, deadline, matching_event_seen } => {
            waiting::a_wait_ends_with_the_check(operation, started, deadline, false, replies);
            a_turn_looks_once_at_most(operation, stage, replies);
        },
        Stage::Opening => {
            let budget = transaction::ensure_budget(operation);
            lemma_drained(operation, laws::left_over(dialogue::run(budget, replies)));
        },
        _ => {
            lemma_drained(operation, replies);
        },
    }
}

} // verus!
