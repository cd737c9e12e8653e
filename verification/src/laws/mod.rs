//! What holds of the commands as a whole.
//!
//! The laws speak of what a program asks for along the replies: [`requests`] are all of its
//! requests, and [`operations`] those that change something by way of Rift.
pub mod batches;
pub mod bounds;
pub mod choosing;
pub mod command_line;
pub mod failures;
pub mod following;
pub mod histories;
pub mod homecoming;
pub mod looking;
pub mod moving;
pub mod outcomes;
pub mod placing;
pub mod policies;
pub mod progress;
pub mod queries;
pub mod rehoming;
pub mod sessions;
pub mod showing;
pub mod spaces;
pub mod steps;
pub mod turns;
pub mod waiting;

use crate::dialogue;
use crate::dialogue::{Outcome, Program, Reply, RequestView};
use crate::error::ErrorView;
use crate::model::{CommandView, DisplayData};
use crate::rift;
use crate::rift::TargetView;
use crate::space_escape;
use crate::transaction;
use crate::transaction::OperationView;
use vstd::prelude::*;

verus! {

broadcast use dialogue::group_run;

/// What a program asks for along the replies, up to and with the request that it waits for.
pub open spec fn requests<A>(program: Program<A>, replies: Seq<Reply>) -> Seq<RequestView>
    decreases replies.len(),
{
    match program {
        Program::Return(_) => Seq::empty(),
        Program::Fail(_) => Seq::empty(),
        Program::Ask(request, resume) => if replies.len() == 0 {
            seq![request]
        } else {
            seq![request] + requests(resume(replies[0]), replies.skip(1))
        },
    }
}

/// The operations among requests.
pub open spec fn operations_of(asked: Seq<RequestView>) -> Seq<OperationView>
    decreases asked.len(),
{
    if asked.len() == 0 {
        Seq::empty()
    } else {
        let earlier = operations_of(asked.drop_last());
        match asked.last() {
            RequestView::Transact(operation) => earlier.push(operation),
            _ => earlier,
        }
    }
}

/// The operations that a program asks for along the replies.
pub open spec fn operations<A>(program: Program<A>, replies: Seq<Reply>) -> Seq<OperationView> {
    operations_of(requests(program, replies))
}

/// The commands of operations, one after the other.
pub open spec fn commands_of(operations: Seq<OperationView>) -> Seq<CommandView>
    decreases operations.len(),
{
    if operations.len() == 0 {
        Seq::empty()
    } else {
        commands_of(operations.drop_last()) + operations.last().commands
    }
}

/// The commands that a program has Rift execute, in order.
pub open spec fn commands<A>(program: Program<A>, replies: Seq<Reply>) -> Seq<CommandView> {
    commands_of(operations(program, replies))
}

/// Whether replies are the last of others.
pub open spec fn ends(replies: Seq<Reply>, rest: Seq<Reply>) -> bool {
    rest.len() <= replies.len() && rest == replies.skip(replies.len() - rest.len())
}

/// The replies that an outcome leaves over.
pub open spec fn left_over<A>(outcome: Outcome<A>) -> Seq<Reply> {
    match outcome {
        Outcome::Waiting(_) => Seq::empty(),
        Outcome::Failed(_, rest) => rest,
        Outcome::Finished(_, rest) => rest,
    }
}

/// A program reads replies from the front, and leaves the others over as they are.
pub proof fn replies_are_read_in_order<A>(program: Program<A>, replies: Seq<Reply>)
    ensures
        ends(replies, left_over(dialogue::run(program, replies))),
    decreases replies.len(),
{
    match program {
        Program::Ask(request, resume) => {
            if replies.len() > 0 {
                replies_are_read_in_order(resume(replies[0]), replies.skip(1));
                let rest = left_over(dialogue::run(resume(replies[0]), replies.skip(1)));
                assert(replies.skip(1).skip(replies.skip(1).len() - rest.len()) =~= replies.skip(
                    replies.len() - rest.len(),
                ));
            } else {
                assert(replies.skip(0) =~= replies);
                assert(Seq::<Reply>::empty() =~= replies.skip(replies.len() as int));
            }
        },
        _ => {
            assert(replies.skip(0) =~= replies);
        },
    }
}

/// What a command has come to does not change when further replies arrive: it depends only on
/// the replies that it has read.
pub proof fn further_replies_change_nothing<A>(
    program: Program<A>,
    replies: Seq<Reply>,
    further: Seq<Reply>,
)
    ensures
        match dialogue::run(program, replies) {
            Outcome::Waiting(request) => true,
            Outcome::Failed(error, rest) => dialogue::run(program, replies + further)
                == Outcome::<A>::Failed(error, rest + further),
            Outcome::Finished(value, rest) => dialogue::run(program, replies + further)
                == Outcome::<A>::Finished(value, rest + further),
        },
    decreases replies.len(),
{
    match program {
        Program::Ask(request, resume) => {
            if replies.len() > 0 {
                assert((replies + further)[0] == replies[0]);
                assert((replies + further).skip(1) =~= replies.skip(1) + further);
                further_replies_change_nothing(resume(replies[0]), replies.skip(1), further);
            }
        },
        _ => {},
    }
}

pub proof fn lemma_operations_of_append(first: Seq<RequestView>, second: Seq<RequestView>)
    ensures
        operations_of(first + second) == operations_of(first) + operations_of(second),
    decreases second.len(),
{
    if second.len() == 0 {
        assert(first + second =~= first);
    } else {
        assert((first + second).drop_last() =~= first + second.drop_last());
        lemma_operations_of_append(first, second.drop_last());
        assert(operations_of(first + second) =~= operations_of(first) + operations_of(second));
    }
}

pub proof fn lemma_commands_of_append(first: Seq<OperationView>, second: Seq<OperationView>)
    ensures
        commands_of(first + second) == commands_of(first) + commands_of(second),
    decreases second.len(),
{
    if second.len() == 0 {
        assert(first + second =~= first);
    } else {
        assert((first + second).drop_last() =~= first + second.drop_last());
        lemma_commands_of_append(first, second.drop_last());
        assert(commands_of(first + second) =~= commands_of(first) + commands_of(second));
    }
}

/// A program that returns asks for nothing.
pub broadcast proof fn lemma_requests_return<A>(value: A, replies: Seq<Reply>)
    ensures
        #[trigger] requests(Program::Return(value), replies) == Seq::<RequestView>::empty(),
{
}

/// A program that fails asks for nothing.
pub broadcast proof fn lemma_requests_fail<A>(error: ErrorView, replies: Seq<Reply>)
    ensures
        #[trigger] requests(Program::<A>::Fail(error), replies) == Seq::<RequestView>::empty(),
{
}

/// A program that asks does so first.
pub broadcast proof fn lemma_requests_ask<A>(
    request: RequestView,
    resume: spec_fn(Reply) -> Program<A>,
    replies: Seq<Reply>,
)
    ensures
        #[trigger] requests(Program::Ask(request, resume), replies) == (if replies.len() == 0 {
            seq![request]
        } else {
            seq![request] + requests(resume(replies[0]), replies.skip(1))
        }),
{
}

/// A bound program asks for what its parts ask for, one after the other.
pub broadcast proof fn lemma_requests_bind<A, B>(
    program: Program<A>,
    next: spec_fn(A) -> Program<B>,
    replies: Seq<Reply>,
)
    ensures
        #[trigger] requests(dialogue::bind(program, next), replies) == (match dialogue::run(
            program,
            replies,
        ) {
            Outcome::Finished(value, rest) => requests(program, replies) + requests(
                next(value),
                rest,
            ),
            _ => requests(program, replies),
        }),
    decreases replies.len(),
{
    match program {
        Program::Return(value) => {
            assert(Seq::<RequestView>::empty() + requests(next(value), replies) =~= requests(
                next(value),
                replies,
            ));
        },
        Program::Fail(_) => {},
        Program::Ask(request, resume) => {
            if replies.len() > 0 {
                let rest = replies.skip(1);
                lemma_requests_bind(resume(replies[0]), next, rest);
                match dialogue::run(resume(replies[0]), rest) {
                    Outcome::Finished(value, left) => {
                        assert(seq![request] + (requests(resume(replies[0]), rest) + requests(
                            next(value),
                            left,
                        )) =~= (seq![request] + requests(resume(replies[0]), rest)) + requests(
                            next(value),
                            left,
                        ));
                    },
                    _ => {},
                }
            }
        },
    }
}

/// An attempted program asks for what the program asks for.
pub broadcast proof fn lemma_requests_attempt<A>(program: Program<A>, replies: Seq<Reply>)
    ensures
        #[trigger] requests(dialogue::attempt(program), replies) == requests(program, replies),
    decreases replies.len(),
{
    match program {
        Program::Ask(request, resume) => {
            if replies.len() > 0 {
                lemma_requests_attempt(resume(replies[0]), replies.skip(1));
            }
        },
        _ => {},
    }
}

pub broadcast group group_requests {
    lemma_requests_return,
    lemma_requests_fail,
    lemma_requests_ask,
    lemma_requests_bind,
    lemma_requests_attempt,
}

/// A program that returns submits nothing.
pub broadcast proof fn lemma_commands_return<A>(value: A, replies: Seq<Reply>)
    ensures
        #[trigger] commands(Program::Return(value), replies) == Seq::<CommandView>::empty(),
{
}

/// A program that fails submits nothing.
pub broadcast proof fn lemma_commands_fail<A>(error: ErrorView, replies: Seq<Reply>)
    ensures
        #[trigger] commands(Program::<A>::Fail(error), replies) == Seq::<CommandView>::empty(),
{
}

/// An operation submits its commands.
pub broadcast proof fn lemma_commands_transact(operation: OperationView, replies: Seq<Reply>)
    ensures
        #[trigger] commands(transaction::transact(operation), replies) == operation.commands,
{
    broadcast use group_requests;

    reveal_with_fuel(operations_of, 2);
    reveal_with_fuel(commands_of, 2);
    let program = transaction::transact(operation);
    assert(requests(program, replies) =~= seq![RequestView::Transact(operation)]);
    assert(requests(program, replies).drop_last() =~= Seq::<RequestView>::empty());
    assert(operations(program, replies) =~= seq![operation]);
    assert(operations(program, replies).drop_last() =~= Seq::<OperationView>::empty());
    assert(commands(program, replies) =~= operation.commands);
}

/// A bound program submits what its parts submit, one after the other.
pub broadcast proof fn lemma_commands_bind<A, B>(
    program: Program<A>,
    next: spec_fn(A) -> Program<B>,
    replies: Seq<Reply>,
)
    ensures
        #[trigger] commands(dialogue::bind(program, next), replies) == (match dialogue::run(
            program,
            replies,
        ) {
            Outcome::Finished(value, rest) => commands(program, replies) + commands(
                next(value),
                rest,
            ),
            _ => commands(program, replies),
        }),
{
    lemma_requests_bind(program, next, replies);
    match dialogue::run(program, replies) {
        Outcome::Finished(value, rest) => {
            lemma_operations_of_append(requests(program, replies), requests(next(value), rest));
            lemma_commands_of_append(operations(program, replies), operations(next(value), rest));
        },
        _ => {},
    }
}

/// An attempted program submits what the program submits.
pub broadcast proof fn lemma_commands_attempt<A>(program: Program<A>, replies: Seq<Reply>)
    ensures
        #[trigger] commands(dialogue::attempt(program), replies) == commands(program, replies),
{
    lemma_requests_attempt(program, replies);
}

/// What a program asks for is allowed.
pub proof fn lemma_requests_allowed<A>(
    program: Program<A>,
    allowed: spec_fn(RequestView) -> bool,
    replies: Seq<Reply>,
)
    requires
        dialogue::asks_only(program, allowed),
    ensures
        forall|i: int|
            0 <= i < requests(program, replies).len() ==> allowed(
                #[trigger] requests(program, replies)[i],
            ),
    decreases replies.len(),
{
    match program {
        Program::Ask(request, resume) => {
            if replies.len() > 0 {
                lemma_requests_allowed(resume(replies[0]), allowed, replies.skip(1));
                let later = requests(resume(replies[0]), replies.skip(1));
                assert forall|i: int| 0 <= i < requests(program, replies).len() implies allowed(
                    #[trigger] requests(program, replies)[i],
                ) by {
                    if i > 0 {
                        assert(requests(program, replies)[i] == later[i - 1]);
                    }
                }
            }
        },
        _ => {},
    }
}

proof fn lemma_no_operation_among(asked: Seq<RequestView>)
    requires
        forall|i: int| 0 <= i < asked.len() ==> !((#[trigger] asked[i]) is Transact),
    ensures
        operations_of(asked) == Seq::<OperationView>::empty(),
    decreases asked.len(),
{
    if asked.len() > 0 {
        assert forall|i: int| 0 <= i < asked.drop_last().len() implies !((
        #[trigger] asked.drop_last()[i]) is Transact) by {
            assert(asked.drop_last()[i] == asked[i]);
        }
        lemma_no_operation_among(asked.drop_last());
        assert(!(asked[asked.len() - 1] is Transact));
    }
}

/// A program that only looks submits nothing.
pub broadcast proof fn lemma_looking_submits_nothing<A>(program: Program<A>, replies: Seq<Reply>)
    requires
        dialogue::asks_only(program, dialogue::looks()),
    ensures
        #[trigger] commands(program, replies) == Seq::<CommandView>::empty(),
{
    lemma_requests_allowed(program, dialogue::looks(), replies);
    lemma_no_operation_among(requests(program, replies));
}

/// A program that asks for things of the outside alone submits nothing by an operation.
pub proof fn lemma_effects_submit_nothing<A>(program: Program<A>, replies: Seq<Reply>)
    requires
        dialogue::asks_only(program, dialogue::outside_requests()),
    ensures
        commands(program, replies) == Seq::<CommandView>::empty(),
{
    lemma_requests_allowed(program, dialogue::outside_requests(), replies);
    lemma_no_operation_among(requests(program, replies));
}

pub broadcast group group_commands {
    lemma_commands_return,
    lemma_commands_fail,
    lemma_commands_transact,
    lemma_commands_bind,
    lemma_commands_attempt,
    lemma_looking_submits_nothing,
}

/// How many operations a program asks for along the replies.
pub open spec fn operation_count<A>(program: Program<A>, replies: Seq<Reply>) -> nat {
    operations(program, replies).len()
}

/// A program that returns asks for no operation.
pub broadcast proof fn lemma_count_return<A>(value: A, replies: Seq<Reply>)
    ensures
        #[trigger] operation_count(Program::Return(value), replies) == 0,
{
}

/// A program that fails asks for no operation.
pub broadcast proof fn lemma_count_fail<A>(error: ErrorView, replies: Seq<Reply>)
    ensures
        #[trigger] operation_count(Program::<A>::Fail(error), replies) == 0,
{
}

/// Having an operation carried out takes one.
pub broadcast proof fn lemma_count_transact(operation: OperationView, replies: Seq<Reply>)
    ensures
        #[trigger] operation_count(transaction::transact(operation), replies) == 1,
{
    broadcast use group_requests;

    reveal_with_fuel(operations_of, 2);
    let program = transaction::transact(operation);
    assert(requests(program, replies) =~= seq![RequestView::Transact(operation)]);
    assert(requests(program, replies).drop_last() =~= Seq::<RequestView>::empty());
}

/// The operations of two programs add up.
pub broadcast proof fn lemma_count_bind<A, B>(
    program: Program<A>,
    next: spec_fn(A) -> Program<B>,
    replies: Seq<Reply>,
)
    ensures
        #[trigger] operation_count(dialogue::bind(program, next), replies) == (match dialogue::run(
            program,
            replies,
        ) {
            Outcome::Finished(value, rest) => operation_count(program, replies) + operation_count(
                next(value),
                rest,
            ),
            _ => operation_count(program, replies),
        }),
{
    lemma_requests_bind(program, next, replies);
    match dialogue::run(program, replies) {
        Outcome::Finished(value, rest) => {
            lemma_operations_of_append(requests(program, replies), requests(next(value), rest));
        },
        _ => {},
    }
}

/// An attempt takes the operations of the program.
pub broadcast proof fn lemma_count_attempt<A>(program: Program<A>, replies: Seq<Reply>)
    ensures
        #[trigger] operation_count(dialogue::attempt(program), replies) == operation_count(
            program,
            replies,
        ),
{
    lemma_requests_attempt(program, replies);
}

/// Looking takes no operation.
pub broadcast proof fn lemma_count_looking<A>(program: Program<A>, replies: Seq<Reply>)
    requires
        dialogue::asks_only(program, dialogue::looks()),
    ensures
        #[trigger] operation_count(program, replies) == 0,
{
    lemma_requests_allowed(program, dialogue::looks(), replies);
    lemma_no_operation_among(requests(program, replies));
}

pub broadcast group group_count {
    lemma_count_return,
    lemma_count_fail,
    lemma_count_transact,
    lemma_count_bind,
    lemma_count_attempt,
    lemma_count_looking,
}

/// A program that returns asks for no operation.
pub broadcast proof fn lemma_operations_return<A>(value: A, replies: Seq<Reply>)
    ensures
        #[trigger] operations(Program::Return(value), replies) == Seq::<OperationView>::empty(),
{
}

/// A program that fails asks for no operation.
pub broadcast proof fn lemma_operations_fail<A>(error: ErrorView, replies: Seq<Reply>)
    ensures
        #[trigger] operations(Program::<A>::Fail(error), replies) == Seq::<OperationView>::empty(),
{
}

/// Having an operation carried out asks for it.
pub broadcast proof fn lemma_operations_transact(operation: OperationView, replies: Seq<Reply>)
    ensures
        #[trigger] operations(transaction::transact(operation), replies) == seq![operation],
{
    broadcast use group_requests;

    reveal_with_fuel(operations_of, 2);
    let program = transaction::transact(operation);
    assert(requests(program, replies) =~= seq![RequestView::Transact(operation)]);
    assert(requests(program, replies).drop_last() =~= Seq::<RequestView>::empty());
    assert(operations(program, replies) =~= seq![operation]);
}

/// The operations of two programs follow one another.
pub broadcast proof fn lemma_operations_bind<A, B>(
    program: Program<A>,
    next: spec_fn(A) -> Program<B>,
    replies: Seq<Reply>,
)
    ensures
        #[trigger] operations(dialogue::bind(program, next), replies) == (match dialogue::run(
            program,
            replies,
        ) {
            Outcome::Finished(value, rest) => operations(program, replies) + operations(
                next(value),
                rest,
            ),
            _ => operations(program, replies),
        }),
{
    lemma_requests_bind(program, next, replies);
    match dialogue::run(program, replies) {
        Outcome::Finished(value, rest) => {
            lemma_operations_of_append(requests(program, replies), requests(next(value), rest));
        },
        _ => {},
    }
}

/// An attempted program asks for the operations of the program.
pub broadcast proof fn lemma_operations_attempt<A>(program: Program<A>, replies: Seq<Reply>)
    ensures
        #[trigger] operations(dialogue::attempt(program), replies) == operations(program, replies),
{
    lemma_requests_attempt(program, replies);
}

/// Allows every request but operations.
pub open spec fn without_operations() -> spec_fn(RequestView) -> bool {
    |request: RequestView| !(request is Transact)
}

/// A program without operations asks for none.
pub proof fn lemma_no_operations<A>(program: Program<A>, replies: Seq<Reply>)
    requires
        dialogue::asks_only(program, without_operations()),
    ensures
        operations(program, replies) == Seq::<OperationView>::empty(),
{
    lemma_requests_allowed(program, without_operations(), replies);
    lemma_no_operation_among(requests(program, replies));
}

/// A program that only looks asks for no operation.
pub proof fn lemma_looking_takes_no_operation<A>(program: Program<A>, replies: Seq<Reply>)
    requires
        dialogue::asks_only(program, dialogue::looks()),
    ensures
        operations(program, replies) == Seq::<OperationView>::empty(),
        dialogue::asks_only(program, without_operations()),
{
    dialogue::lemma_asks_only_of_more(program, dialogue::looks(), without_operations());
    lemma_no_operations(program, replies);
}

pub broadcast group group_operations {
    lemma_operations_return,
    lemma_operations_fail,
    lemma_operations_transact,
    lemma_operations_bind,
    lemma_operations_attempt,
}

/// Every request of a program that has come to an end was answered, each by the reply at its
/// own place.
pub proof fn each_request_has_its_reply<A>(program: Program<A>, replies: Seq<Reply>)
    requires
        !(dialogue::run(program, replies) is Waiting),
    ensures
        requests(program, replies).len() <= replies.len(),
        left_over(dialogue::run(program, replies)) == replies.skip(
            requests(program, replies).len() as int,
        ),
    decreases replies.len(),
{
    match program {
        Program::Ask(request, resume) => {
            each_request_has_its_reply(resume(replies[0]), replies.skip(1));
            let later = requests(resume(replies[0]), replies.skip(1));
            assert(replies.skip(1).skip(later.len() as int) =~= replies.skip(
                requests(program, replies).len() as int,
            ));
        },
        _ => {
            assert(replies.skip(0) =~= replies);
        },
    }
}

/// Whether these requests, answered by these replies, hold at some place the whole of a program,
/// and it came to this value there.
pub open spec fn did_at<A>(
    asked: Seq<RequestView>,
    replies: Seq<Reply>,
    program: Program<A>,
    value: A,
    at: int,
) -> bool {
    let own = requests(program, replies.skip(at));
    &&& 0 <= at <= replies.len()
    &&& at + own.len() <= asked.len()
    &&& asked.subrange(at, at + own.len()) == own
    &&& dialogue::run(program, replies.skip(at)) matches Outcome::Finished(found, _) && found
        == value
}

/// Whether these requests, answered by these replies, hold the whole of a program that came to
/// this value.
pub open spec fn did<A>(
    asked: Seq<RequestView>,
    replies: Seq<Reply>,
    program: Program<A>,
    value: A,
) -> bool {
    exists|at: int| did_at(asked, replies, program, value, at)
}

/// Whether the last of these requests, answered by these replies, are the whole of a program
/// that came to this value.
pub open spec fn ended_with<A>(
    asked: Seq<RequestView>,
    replies: Seq<Reply>,
    program: Program<A>,
    value: A,
) -> bool {
    exists|at: int|
        #[trigger] did_at(asked, replies, program, value, at) && at + requests(
            program,
            replies.skip(at),
        ).len() == asked.len()
}

/// A program that has come to a value did what it is, and ended with it.
pub proof fn lemma_did_itself<A>(program: Program<A>, replies: Seq<Reply>)
    requires
        dialogue::run(program, replies) is Finished,
    ensures
        did(
            requests(program, replies),
            replies,
            program,
            dialogue::run(program, replies)->Finished_0,
        ),
        ended_with(
            requests(program, replies),
            replies,
            program,
            dialogue::run(program, replies)->Finished_0,
        ),
{
    let asked = requests(program, replies);
    assert(replies.skip(0) =~= replies);
    assert(asked.subrange(0, asked.len() as int) =~= asked);
    assert(did_at(asked, replies, program, dialogue::run(program, replies)->Finished_0, 0));
}

/// What was done early on was done.
pub proof fn lemma_did_earlier<A>(
    earlier: Seq<RequestView>,
    later: Seq<RequestView>,
    replies: Seq<Reply>,
    program: Program<A>,
    value: A,
)
    requires
        did(earlier, replies, program, value),
    ensures
        did(earlier + later, replies, program, value),
{
    let at = choose|at: int| did_at(earlier, replies, program, value, at);
    let own = requests(program, replies.skip(at));
    assert((earlier + later).subrange(at, at + own.len()) =~= earlier.subrange(
        at,
        at + own.len(),
    ));
    assert(did_at(earlier + later, replies, program, value, at));
}

/// What was done later on was done, and what it ended with it ended with.
pub proof fn lemma_did_later<A>(
    earlier: Seq<RequestView>,
    later: Seq<RequestView>,
    replies: Seq<Reply>,
    program: Program<A>,
    value: A,
)
    requires
        earlier.len() <= replies.len(),
        did(later, replies.skip(earlier.len() as int), program, value),
    ensures
        did(earlier + later, replies, program, value),
        ended_with(later, replies.skip(earlier.len() as int), program, value) ==> ended_with(
            earlier + later,
            replies,
            program,
            value,
        ),
{
    let mid = replies.skip(earlier.len() as int);
    assert forall|at: int| did_at(later, mid, program, value, at) implies #[trigger] did_at(
        earlier + later,
        replies,
        program,
        value,
        earlier.len() + at,
    ) && mid.skip(at) == replies.skip(earlier.len() + at) by {
        lemma_did_at_later(earlier, later, replies, program, value, at);
    }
    let at = choose|at: int| did_at(later, mid, program, value, at);
    lemma_did_at_later(earlier, later, replies, program, value, at);
    if ended_with(later, mid, program, value) {
        let end = choose|at: int|
            #[trigger] did_at(later, mid, program, value, at) && at + requests(
                program,
                mid.skip(at),
            ).len() == later.len();
        lemma_did_at_later(earlier, later, replies, program, value, end);
    }
}

proof fn lemma_did_at_later<A>(
    earlier: Seq<RequestView>,
    later: Seq<RequestView>,
    replies: Seq<Reply>,
    program: Program<A>,
    value: A,
    at: int,
)
    requires
        earlier.len() <= replies.len(),
        did_at(later, replies.skip(earlier.len() as int), program, value, at),
    ensures
        did_at(earlier + later, replies, program, value, earlier.len() + at),
        replies.skip(earlier.len() as int).skip(at) == replies.skip(earlier.len() + at),
{
    let mid = replies.skip(earlier.len() as int);
    assert(mid.skip(at) =~= replies.skip(earlier.len() + at));
    let own = requests(program, mid.skip(at));
    assert((earlier + later).subrange(earlier.len() + at, earlier.len() + at + own.len())
        =~= later.subrange(at, at + own.len()));
}

/// What is read of the displays: a report that was asked for, or one that ended a wait for one
/// of them.
pub open spec fn were_reported(
    asked: Seq<RequestView>,
    replies: Seq<Reply>,
    displays: Seq<DisplayData>,
) -> bool {
    ||| did(asked, replies, rift::displays(), displays)
    ||| exists|display_uuid: Seq<char>|
        did(
            asked,
            replies,
            #[trigger] space_escape::await_managed_space(display_uuid),
            Some(displays),
        )
}

/// Whether a destination is the named workspace on a display, as it was read from displays that
/// were reported.
pub open spec fn was_read(
    asked: Seq<RequestView>,
    replies: Seq<Reply>,
    target: TargetView,
    workspace_name: Seq<char>,
    display_uuid: Seq<char>,
) -> bool {
    exists|displays: Seq<DisplayData>|
        were_reported(asked, replies, displays) && did(
            asked,
            replies,
            #[trigger] rift::target_context(workspace_name, display_uuid, displays),
            target,
        )
}

/// What was read early on was read.
pub proof fn lemma_was_read_earlier(
    earlier: Seq<RequestView>,
    later: Seq<RequestView>,
    replies: Seq<Reply>,
    target: TargetView,
    workspace_name: Seq<char>,
    display_uuid: Seq<char>,
)
    requires
        was_read(earlier, replies, target, workspace_name, display_uuid),
    ensures
        was_read(earlier + later, replies, target, workspace_name, display_uuid),
{
    let displays = choose|displays: Seq<DisplayData>|
        were_reported(earlier, replies, displays) && did(
            earlier,
            replies,
            #[trigger] rift::target_context(workspace_name, display_uuid, displays),
            target,
        );
    lemma_did_earlier(
        earlier,
        later,
        replies,
        rift::target_context(workspace_name, display_uuid, displays),
        target,
    );
    lemma_were_reported_earlier(earlier, later, replies, displays);
}

/// What was reported early on was reported.
pub proof fn lemma_were_reported_earlier(
    earlier: Seq<RequestView>,
    later: Seq<RequestView>,
    replies: Seq<Reply>,
    displays: Seq<DisplayData>,
)
    requires
        were_reported(earlier, replies, displays),
    ensures
        were_reported(earlier + later, replies, displays),
{
    if did(earlier, replies, rift::displays(), displays) {
        lemma_did_earlier(earlier, later, replies, rift::displays(), displays);
    } else {
        let uuid = choose|display_uuid: Seq<char>|
            did(
                earlier,
                replies,
                #[trigger] space_escape::await_managed_space(display_uuid),
                Some(displays),
            );
        lemma_did_earlier(
            earlier,
            later,
            replies,
            space_escape::await_managed_space(uuid),
            Some(displays),
        );
    }
}

/// What was reported later on was reported.
pub proof fn lemma_were_reported_later(
    earlier: Seq<RequestView>,
    later: Seq<RequestView>,
    replies: Seq<Reply>,
    displays: Seq<DisplayData>,
)
    requires
        earlier.len() <= replies.len(),
        were_reported(later, replies.skip(earlier.len() as int), displays),
    ensures
        were_reported(earlier + later, replies, displays),
{
    let mid = replies.skip(earlier.len() as int);
    if did(later, mid, rift::displays(), displays) {
        lemma_did_later(earlier, later, replies, rift::displays(), displays);
    } else {
        let uuid = choose|display_uuid: Seq<char>|
            did(
                later,
                mid,
                #[trigger] space_escape::await_managed_space(display_uuid),
                Some(displays),
            );
        lemma_did_later(
            earlier,
            later,
            replies,
            space_escape::await_managed_space(uuid),
            Some(displays),
        );
    }
}

/// What was read later on was read.
pub proof fn lemma_was_read_later(
    earlier: Seq<RequestView>,
    later: Seq<RequestView>,
    replies: Seq<Reply>,
    target: TargetView,
    workspace_name: Seq<char>,
    display_uuid: Seq<char>,
)
    requires
        earlier.len() <= replies.len(),
        was_read(
            later,
            replies.skip(earlier.len() as int),
            target,
            workspace_name,
            display_uuid,
        ),
    ensures
        was_read(earlier + later, replies, target, workspace_name, display_uuid),
{
    let mid = replies.skip(earlier.len() as int);
    let displays = choose|displays: Seq<DisplayData>|
        were_reported(later, mid, displays) && did(
            later,
            mid,
            #[trigger] rift::target_context(workspace_name, display_uuid, displays),
            target,
        );
    lemma_did_later(
        earlier,
        later,
        replies,
        rift::target_context(workspace_name, display_uuid, displays),
        target,
    );
    lemma_were_reported_later(earlier, later, replies, displays);
}

} // verus!
