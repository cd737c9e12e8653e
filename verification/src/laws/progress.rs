//! What each step of a command under way comes to, and how it is told.
use crate::cli;
use crate::dialogue;
use crate::dialogue::{Ask, Next, Outcome, Program, Reply, RequestView, StopView};
use crate::error::{ErrorKind, ErrorView};
use crate::model::RiftCommand;
use crate::session;
use crate::session::{ActivityView, Progress, SessionView};
use crate::space_escape;
use crate::space_escape::{WatchStage, WatchTurn};
use crate::text;
use crate::transaction;
use crate::transaction::{Completion, OperationView, Stage, Turn};
use vstd::prelude::*;

verus! {

// ---------------------------------------------------------------------------
// Steps.
// ---------------------------------------------------------------------------

/// A reply goes to the turn under way where there is one, else to the command; nothing else of the
/// session changes.
pub proof fn a_reply_goes_to_who_asked(before: SessionView, reply: Reply)
    ensures
        ({
            let after = session::answered(before, reply);
            &&& after.invocation == before.invocation
            &&& after.activity == before.activity
            &&& after.replies.len() + after.turn_replies.len() == before.replies.len()
                + before.turn_replies.len() + 1
            &&& before.activity is Command ==> after.turn_replies == before.turn_replies
                && after.replies.last() == reply && after.replies.drop_last() == before.replies
            &&& !(before.activity is Command) ==> after.replies == before.replies
                && after.turn_replies.last() == reply && after.turn_replies.drop_last()
                == before.turn_replies
        }),
{
}

/// No step changes the command, takes a reply back, or gives the command more than one.
pub proof fn a_step_keeps_the_command_and_its_replies(
    before: SessionView,
    after: SessionView,
    progress: Progress,
)
    requires
        session::steps(before, after, progress),
    ensures
        after.invocation == before.invocation,
        before.activity is Command ==> after.replies == before.replies,
        after.replies == before.replies || (after.replies.len() == before.replies.len() + 1
            && after.replies.drop_last() == before.replies && after.activity is Command),
        !(progress is Moved) && !(progress is Waited) ==> after == before,
        progress is Moved || progress is Waited ==> after.turn_replies.len() == 0,
{
}

/// A session at its command asks the outside what the command asks of it, begins the operation or
/// the wait that the command asks for, and is over exactly where the command is, with its result.
pub proof fn a_command_is_taken_one_step_on(
    before: SessionView,
    after: SessionView,
    progress: Progress,
)
    requires
        before.activity is Command,
        session::steps(before, after, progress),
    ensures
        ({
            let outcome = dialogue::run(cli::program_of(before.invocation), before.replies);
            &&& progress is Ask <==> (outcome is Waiting && outcome->Waiting_0 is Outside)
            &&& progress matches Progress::Ask(ask) ==> outcome == Outcome::<()>::Waiting(
                RequestView::Outside(ask@),
            )
            &&& progress is Moved <==> (outcome is Waiting && !(outcome->Waiting_0 is Outside))
            &&& progress is Moved ==> match outcome->Waiting_0 {
                RequestView::Transact(operation) => after.activity == (ActivityView::Operation {
                    operation,
                    stage: Stage::Opening,
                }),
                RequestView::Watch { display_uuid } => after.activity == (ActivityView::Watch {
                    display_uuid,
                    watch: WatchStage::Opening,
                }),
                RequestView::Outside(_) => false,
            }
            &&& progress is Finished <==> !(outcome is Waiting)
            &&& progress matches Progress::Finished(result) ==> (result is Ok
                <==> outcome is Finished)
            &&& progress matches Progress::Finished(Err(error)) ==> outcome matches Outcome::Failed(
                failure,
                _,
            ) && error.kind == failure.kind && error.message@ == failure.message
            &&& !(progress is Waited)
        }),
{
}

/// A session at an operation asks what the turn of its stage asks, goes to the stage that the turn
/// leads to, and returns to the command where the turn ends the operation: done where its wait
/// completed, failed where it failed.
pub proof fn an_operation_is_taken_one_step_on(
    operation: OperationView,
    stage: Stage,
    before: SessionView,
    after: SessionView,
    progress: Progress,
)
    requires
        before.activity == (ActivityView::Operation { operation, stage }),
        session::steps(before, after, progress),
    ensures
        ({
            let outcome = dialogue::run(transaction::turn(operation, stage), before.turn_replies);
            &&& progress is Ask <==> outcome is Waiting
            &&& progress matches Progress::Ask(ask) ==> outcome == Outcome::<Turn>::Waiting(
                RequestView::Outside(ask@),
            )
            &&& outcome matches Outcome::Finished(Turn::Again(later), _) ==> progress is Moved
                && after.replies == before.replies && after.activity == (ActivityView::Operation {
                operation,
                stage: later,
            })
            &&& outcome matches Outcome::Finished(Turn::Complete { by, started }, _) ==> (
            after.activity is Command && after.replies.last() == Reply::Done && (
            progress matches Progress::Waited { description, by: how, started: since }
                && description@ == operation.description && how == by && since == started))
            &&& outcome matches Outcome::Failed(failure, _) ==> (progress is Moved
                && after.activity is Command && (after.replies.last() matches Reply::Failed(error)
                && error.kind == failure.kind && error.message@ == failure.message))
            &&& !(progress is Finished)
        }),
{
}

/// A session at a wait for a display asks what the turn of its stage asks, goes to the stage that
/// the turn leads to, and returns to the command where the turn ends the wait: with the displays
/// that it read last, with nothing where it gave up, or with its failure.
pub proof fn a_wait_for_a_display_is_taken_one_step_on(
    display_uuid: Seq<char>,
    watch: WatchStage,
    before: SessionView,
    after: SessionView,
    progress: Progress,
)
    requires
        before.activity == (ActivityView::Watch { display_uuid, watch }),
        session::steps(before, after, progress),
    ensures
        ({
            let outcome = dialogue::run(
                space_escape::watch_turn(display_uuid, watch),
                before.turn_replies,
            );
            &&& progress is Ask <==> outcome is Waiting
            &&& progress matches Progress::Ask(ask) ==> outcome == Outcome::<WatchTurn>::Waiting(
                RequestView::Outside(ask@),
            )
            &&& outcome matches Outcome::Finished(WatchTurn::Again(later), _) ==> progress is Moved
                && after.replies == before.replies && after.activity == (ActivityView::Watch {
                display_uuid,
                watch: later,
            })
            &&& outcome matches Outcome::Finished(WatchTurn::Escaped, _) ==> progress is Moved
                && after.activity is Command && before.turn_replies.len() >= 3
                && after.replies.last() == before.turn_replies[2]
            &&& outcome matches Outcome::Finished(WatchTurn::GaveUp, _) ==> progress is Moved
                && after.activity is Command && after.replies.last() == Reply::Nothing
            &&& outcome matches Outcome::Failed(failure, _) ==> (progress is Moved
                && after.activity is Command && (after.replies.last() matches Reply::Failed(error)
                && error.kind == failure.kind && error.message@ == failure.message))
            &&& !(progress is Finished) && !(progress is Waited)
        }),
{
}

// ---------------------------------------------------------------------------
// What a program comes to.
// ---------------------------------------------------------------------------

/// What a command has come to is what its program comes to over the replies.
pub proof fn a_command_reaches_what_its_program_does(
    program: Program<()>,
    replies: Seq<Reply>,
    next: Next,
)
    requires
        dialogue::reaches(program, replies, next),
    ensures
        ({
            let outcome = dialogue::run(program, replies);
            &&& next matches Next::Ask(request) ==> outcome == Outcome::<()>::Waiting(request@)
            &&& next matches Next::Finished(Ok(_)) ==> outcome is Finished
            &&& next matches Next::Finished(Err(error)) ==> outcome matches Outcome::Failed(
                failure,
                _,
            ) && error.kind == failure.kind && error.message@ == failure.message
        }),
{
}

/// A result that follows from a program is the one that the program comes to, and where it is over
/// it leaves the replies over that the program does.
pub proof fn a_result_is_the_one_of_its_program<A>(
    program: Program<A>,
    before: Seq<Reply>,
    after: Seq<Reply>,
    result: Result<A, StopView>,
)
    requires
        dialogue::follows(program, before, after, result),
    ensures
        result matches Ok(value) ==> dialogue::run(program, before) == Outcome::Finished(
            value,
            after,
        ),
        result matches Err(StopView::Failed(failure)) ==> dialogue::run(program, before)
            == Outcome::<A>::Failed(failure, after),
        result matches Err(StopView::Waiting(request)) ==> dialogue::run(program, before)
            == Outcome::<A>::Waiting(request),
{
}

/// A reported failure is passed on as it is; any other reply that does not answer its request is a
/// failure that says so.
pub proof fn a_failure_is_passed_on(reply: Reply)
    ensures
        match reply {
            Reply::Failed(error) => dialogue::refusal(reply).kind == error.kind
                && dialogue::refusal(reply).message == error.message@,
            _ => dialogue::refusal(reply) == (ErrorView {
                kind: ErrorKind::Foreign,
                message: "reply does not answer the request"@,
            }),
        },
{
}

// ---------------------------------------------------------------------------
// Numerals and lists.
// ---------------------------------------------------------------------------

/// The number that a row of decimal digits stands for.
pub open spec fn value_of(numeral: Seq<char>) -> nat
    decreases numeral.len(),
{
    if numeral.len() == 0 {
        0
    } else {
        10 * value_of(numeral.drop_last()) + (numeral.last() as nat - '0' as nat) as nat
    }
}

/// Whether a text holds decimal digits only.
pub open spec fn are_digits(numeral: Seq<char>) -> bool {
    forall|i: int| 0 <= i < numeral.len() ==> '0' <= #[trigger] numeral[i] <= '9'
}

proof fn lemma_digit(value: nat)
    requires
        value < 10,
    ensures
        text::digit(value).len() == 1,
        '0' <= text::digit(value)[0] <= '9',
        text::digit(value)[0] as nat - '0' as nat == value,
{
    reveal_strlit("0");
    reveal_strlit("1");
    reveal_strlit("2");
    reveal_strlit("3");
    reveal_strlit("4");
    reveal_strlit("5");
    reveal_strlit("6");
    reveal_strlit("7");
    reveal_strlit("8");
    reveal_strlit("9");
}

/// The numeral of a number is a row of digits that stands for it, and has no zero in front unless
/// it is the zero itself.
pub proof fn a_numeral_stands_for_its_number(value: nat)
    ensures
        text::decimal(value).len() > 0,
        are_digits(text::decimal(value)),
        value_of(text::decimal(value)) == value,
        value > 0 ==> text::decimal(value)[0] != '0',
    decreases value,
{
    reveal_with_fuel(value_of, 2);
    let numeral = text::decimal(value);
    if value < 10 {
        lemma_digit(value);
    } else {
        let front = text::decimal(value / 10);
        let last = text::digit(value % 10);
        a_numeral_stands_for_its_number(value / 10);
        lemma_digit(value % 10);
        assert(numeral.drop_last() =~= front);
        assert(numeral.last() == last[0]);
        assert(numeral[0] == front[0]);
        assert forall|i: int| 0 <= i < numeral.len() implies '0' <= #[trigger] numeral[i]
            <= '9' by {
            if i < front.len() {
                assert(numeral[i] == front[i]);
            }
        }
    }
}

/// Two lists one after the other are listed with one more separator between them; a list of one
/// item is that item, and one of none is empty.
pub proof fn a_list_separates_its_items(first: Seq<Seq<char>>, second: Seq<Seq<char>>)
    ensures
        text::listed(Seq::empty()) == Seq::<char>::empty(),
        first.len() == 1 ==> text::listed(first) == first[0],
        first.len() > 0 && second.len() > 0 ==> text::listed(first + second) == text::listed(first)
            + ", "@ + text::listed(second),
    decreases second.len(),
{
    if first.len() > 0 && second.len() > 0 {
        let both = first + second;
        assert(both.drop_last() =~= first + second.drop_last());
        if second.len() == 1 {
            assert(both.drop_last() =~= first);
        } else {
            a_list_separates_its_items(first, second.drop_last());
            let separator = ", "@;
            let front = text::listed(second.drop_last());
            assert(text::listed(first) + separator + front + separator + second.last()
                =~= text::listed(first) + separator + (front + separator + second.last()));
        }
    }
}

/// The line that reports the end of a wait names what ended it, and gives the whole milliseconds
/// that the wait took.
pub proof fn the_end_of_a_wait_is_reported_with_its_time(
    description: Seq<char>,
    by: Completion,
    started: u64,
    now: u64,
    millis: nat,
)
    requires
        started + millis * 1_000_000 <= now < started + (millis + 1) * 1_000_000 || (now < started
            && millis == 0),
    ensures
        transaction::trace_line(description, by, started, now) == "rift-ergo: "@ + description
            + " completed by "@ + (match by {
            Completion::MatchingEvent => "matching event"@,
            Completion::StateProbe => "state probe"@,
            Completion::DeadlineValidation => "deadline validation"@,
            Completion::StableState => "stable state"@,
        }) + " in "@ + text::decimal(millis) + " ms"@,
{
    assert(transaction::elapsed_millis(started, now) == millis);
}

// ---------------------------------------------------------------------------
// Contents.
// ---------------------------------------------------------------------------

/// A command of Rift is told by its kind and its fields.
pub proof fn equal_commands_have_equal_fields(first: RiftCommand, second: RiftCommand)
    requires
        first@ == second@,
    ensures
        match first {
            RiftCommand::MoveMouseToDisplay { display_uuid } => {
                second matches RiftCommand::MoveMouseToDisplay { display_uuid: other }
                    && other@ == display_uuid@
            },
            RiftCommand::FocusWindow { window_id, window_server_id } => {
                second matches RiftCommand::FocusWindow { window_id: other, window_server_id: id }
                    && other == window_id && id == window_server_id
            },
            RiftCommand::MoveWindowToDisplay { display_uuid, window_index } => {
                second matches RiftCommand::MoveWindowToDisplay { display_uuid: other, window_index: index }
                    && other@ == display_uuid@ && index == window_index
            },
            RiftCommand::SwitchToWorkspace { workspace_index } => {
                second matches RiftCommand::SwitchToWorkspace { workspace_index: index }
                    && index == workspace_index
            },
            RiftCommand::MoveWindowToWorkspace { workspace_index, follow, window_index } => {
                second matches RiftCommand::MoveWindowToWorkspace {
                    workspace_index: index,
                    follow: other,
                    window_index: window,
                } && index == workspace_index && other == follow && window == window_index
            },
        },
{
}

/// Requests to the outside are told apart by their kind and their fields.
pub proof fn equal_requests_have_equal_fields(first: Ask, second: Ask)
    requires
        first@ == second@,
    ensures
        match first {
            Ask::Connect => second is Connect,
            Ask::Displays => second is Displays,
            Ask::Workspaces { space } => {
                second matches Ask::Workspaces { space: other } && other == space
            },
            Ask::Windows { space } => {
                second matches Ask::Windows { space: other } && other == space
            },
            Ask::WindowInfo { window_id } => {
                second matches Ask::WindowInfo { window_id: other } && other == window_id
            },
            Ask::Policy => second is Policy,
            Ask::Route { windows } => {
                second matches Ask::Route { windows: others } && others@ == windows@
            },
            Ask::Subscribe => second is Subscribe,
            Ask::Now => second is Now,
            Ask::Execute { command } => {
                second matches Ask::Execute { command: other } && other@ == command@
            },
            Ask::TryReceive => second is TryReceive,
            Ask::Receive { wait_nanos } => {
                second matches Ask::Receive { wait_nanos: other } && other == wait_nanos
            },
            Ask::RunScript { script } => {
                second matches Ask::RunScript { script: other } && other@ == script@
            },
            Ask::Sleep { millis } => {
                second matches Ask::Sleep { millis: other } && other == millis
            },
            Ask::AcquireDisplay { display_uuid, space } => {
                second matches Ask::AcquireDisplay { display_uuid: other, space: number }
                    && other@ == display_uuid@ && number == space
            },
        },
{
}

} // verus!
