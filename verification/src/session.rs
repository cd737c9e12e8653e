//! A command under way.
//!
//! A command asks for things of the outside, and for operations and waits that take turns of
//! their own. A [`Session`] keeps the replies of the command and those of the turn under way,
//! and works off the turns by itself, so that only the outside is left to be asked.
use crate::cli;
use crate::cli::{Invocation, InvocationView};
use crate::dialogue;
use crate::dialogue::{Ask, Next, Outcome, Reply, Request, RequestView, Rift, Stop};
use crate::error::ErgoError;
use crate::space_escape;
use crate::space_escape::{WatchStage, WatchTurn};
use crate::transaction;
use crate::transaction::{Completion, Operation, OperationView, Stage, Turn};
use vstd::prelude::*;

verus! {

broadcast use dialogue::group_run;

/// What a session is at.
#[derive(Debug, PartialEq, Eq)]
pub enum Activity {
    /// The command itself.
    Command,
    /// An operation that the command has asked for.
    Operation { operation: Operation, stage: Stage },
    /// A wait for a display that the command has asked for.
    Watch { display_uuid: String, watch: WatchStage },
}

/// The contents of an [`Activity`].
pub enum ActivityView {
    Command,
    Operation { operation: OperationView, stage: Stage },
    Watch { display_uuid: Seq<char>, watch: WatchStage },
}

impl View for Activity {
    type V = ActivityView;

    open spec fn view(&self) -> ActivityView {
        match *self {
            Activity::Command => ActivityView::Command,
            Activity::Operation { operation, stage } => ActivityView::Operation {
                operation: operation@,
                stage,
            },
            Activity::Watch { display_uuid, watch } => ActivityView::Watch {
                display_uuid: display_uuid@,
                watch,
            },
        }
    }
}

/// A command under way.
#[derive(Debug, PartialEq, Eq)]
pub struct Session {
    pub invocation: Invocation,
    /// The replies that the command has had.
    pub replies: Vec<Reply>,
    pub activity: Activity,
    /// The replies that the turn under way has had.
    pub turn_replies: Vec<Reply>,
}

/// The contents of a [`Session`].
pub struct SessionView {
    pub invocation: InvocationView,
    pub replies: Seq<Reply>,
    pub activity: ActivityView,
    pub turn_replies: Seq<Reply>,
}

impl View for Session {
    type V = SessionView;

    open spec fn view(&self) -> SessionView {
        SessionView {
            invocation: self.invocation@,
            replies: self.replies@,
            activity: self.activity@,
            turn_replies: self.turn_replies@,
        }
    }
}

/// What a step of a session has come to.
#[derive(Debug, PartialEq, Eq)]
pub enum Progress {
    /// This is needed from the outside.
    Ask(Ask),
    /// The session is at another activity or stage.
    Moved,
    /// The wait of an operation that began at `started` is over.
    Waited { description: String, by: Completion, started: u64 },
    /// The command is over.
    Finished(Result<(), ErgoError>),
}

/// The session once its activity is exchanged and a new turn begins.
pub open spec fn at_activity(session: SessionView, activity: ActivityView) -> SessionView {
    SessionView { activity, turn_replies: Seq::empty(), ..session }
}

/// The session back at the command, with a reply to what the command has asked for.
pub open spec fn back_with(session: SessionView, reply: Reply) -> SessionView {
    SessionView {
        replies: session.replies.push(reply),
        activity: ActivityView::Command,
        turn_replies: Seq::empty(),
        ..session
    }
}

/// The session with one more reply: to the turn under way, else to the command.
pub open spec fn answered(session: SessionView, reply: Reply) -> SessionView {
    if session.activity is Command {
        SessionView { replies: session.replies.push(reply), ..session }
    } else {
        SessionView { turn_replies: session.turn_replies.push(reply), ..session }
    }
}

/// Whether the session goes back to the command with this failure.
pub open spec fn back_with_failure(
    before: SessionView,
    after: SessionView,
    failure: crate::error::ErrorView,
) -> bool {
    exists|error: ErgoError|
        error@ == failure && after == #[trigger] back_with(before, Reply::Failed(error))
}

/// A step at the command: the request it has come to decides.
pub open spec fn command_step(before: SessionView, after: SessionView, progress: Progress) -> bool {
    match dialogue::run(cli::program_of(before.invocation), before.replies) {
        Outcome::Waiting(RequestView::Outside(ask)) => {
            &&& progress matches Progress::Ask(asked) && asked@ == ask
            &&& after == before
        },
        Outcome::Waiting(RequestView::Transact(operation)) => {
            &&& progress is Moved
            &&& after == at_activity(
                before,
                ActivityView::Operation { operation, stage: Stage::Opening },
            )
        },
        Outcome::Waiting(RequestView::Watch { display_uuid }) => {
            &&& progress is Moved
            &&& after == at_activity(
                before,
                ActivityView::Watch { display_uuid, watch: WatchStage::Opening },
            )
        },
        Outcome::Failed(failure, _) => {
            &&& progress matches Progress::Finished(Err(error)) && error@ == failure
            &&& after == before
        },
        Outcome::Finished(_, _) => {
            &&& progress matches Progress::Finished(Ok(_))
            &&& after == before
        },
    }
}

/// A step at an operation: what its turn has come to decides. A turn that leads to another is
/// forgotten; the end of the operation is the reply to the command.
pub open spec fn operation_step(
    operation: OperationView,
    stage: Stage,
    before: SessionView,
    after: SessionView,
    progress: Progress,
) -> bool {
    match dialogue::run(transaction::turn(operation, stage), before.turn_replies) {
        Outcome::Waiting(request) => {
            &&& progress matches Progress::Ask(asked) && request == RequestView::Outside(asked@)
            &&& after == before
        },
        Outcome::Failed(failure, _) => {
            &&& progress is Moved
            &&& back_with_failure(before, after, failure)
        },
        Outcome::Finished(Turn::Again(stage), _) => {
            &&& progress is Moved
            &&& after == at_activity(before, ActivityView::Operation { operation, stage })
        },
        Outcome::Finished(Turn::Complete { by, started }, _) => {
            &&& progress matches Progress::Waited { description, by: how, started: since }
                && description@ == operation.description && how == by && since == started
            &&& after == back_with(before, Reply::Done)
        },
    }
}

/// A step at a wait for a display: what its turn has come to decides. The displays that ended
/// the wait, which are the third reply of their turn, are the reply to the command.
pub open spec fn watch_step(
    display_uuid: Seq<char>,
    watch: WatchStage,
    before: SessionView,
    after: SessionView,
    progress: Progress,
) -> bool {
    match dialogue::run(space_escape::watch_turn(display_uuid, watch), before.turn_replies) {
        Outcome::Waiting(request) => {
            &&& progress matches Progress::Ask(asked) && request == RequestView::Outside(asked@)
            &&& after == before
        },
        Outcome::Failed(failure, _) => {
            &&& progress is Moved
            &&& back_with_failure(before, after, failure)
        },
        Outcome::Finished(WatchTurn::Again(watch), _) => {
            &&& progress is Moved
            &&& after == at_activity(before, ActivityView::Watch { display_uuid, watch })
        },
        Outcome::Finished(WatchTurn::Escaped, _) => {
            &&& progress is Moved
            &&& before.turn_replies.len() > 2
            &&& after == back_with(before, before.turn_replies[2])
        },
        Outcome::Finished(WatchTurn::GaveUp, _) => {
            &&& progress is Moved
            &&& after == back_with(before, Reply::Nothing)
        },
    }
}

/// Whether a step leads from one state of a session to another, and to this.
pub open spec fn steps(before: SessionView, after: SessionView, progress: Progress) -> bool {
    match before.activity {
        ActivityView::Command => command_step(before, after, progress),
        ActivityView::Operation { operation, stage } => operation_step(
            operation,
            stage,
            before,
            after,
            progress,
        ),
        ActivityView::Watch { display_uuid, watch } => watch_step(
            display_uuid,
            watch,
            before,
            after,
            progress,
        ),
    }
}

impl Session {
    /// Starts a command.
    pub fn start(invocation: Invocation) -> (session: Session)
        ensures
            session@ == (SessionView {
                invocation: invocation@,
                replies: Seq::empty(),
                activity: ActivityView::Command,
                turn_replies: Seq::empty(),
            }),
    {
        Session {
            invocation,
            replies: Vec::new(),
            activity: Activity::Command,
            turn_replies: Vec::new(),
        }
    }

    /// Hands over the reply to what was asked for.
    pub fn answer(self, reply: Reply) -> (session: Session)
        ensures
            session@ == answered(self@, reply),
    {
        let Session { invocation, replies, activity, turn_replies } = self;
        let mut replies = replies;
        let mut turn_replies = turn_replies;
        match &activity {
            Activity::Command => {
                replies.push(reply);
            },
            _ => {
                turn_replies.push(reply);
            },
        }
        Session { invocation, replies, activity, turn_replies }
    }

    /// Takes the session one step on.
    pub fn step(self) -> (stepped: (Session, Progress))
        ensures
            steps(self@, stepped.0@, stepped.1),
    {
        let Session { invocation, replies, activity, turn_replies } = self;
        match activity {
            Activity::Command => Session::step_command(invocation, replies, turn_replies),
            Activity::Operation { operation, stage } => {
                let mut rift = Rift::over(&turn_replies);
                let taken = operation.turn(&mut rift, stage);
                proof {
                    transaction::a_turn_asks_the_outside_only(operation@, stage);
                    dialogue::lemma_waits_for_allowed(
                        transaction::turn(operation@, stage),
                        dialogue::outside_requests(),
                        turn_replies@,
                    );
                }
                match taken {
                    Ok(Turn::Again(stage)) => (
                        Session {
                            invocation,
                            replies,
                            activity: Activity::Operation { operation, stage },
                            turn_replies: Vec::new(),
                        },
                        Progress::Moved,
                    ),
                    Ok(Turn::Complete { by, started }) => (
                        Session::back(invocation, replies, Reply::Done),
                        Progress::Waited { description: operation.description, by, started },
                    ),
                    Err(Stop::Failed(error)) => {
                        let session = Session::back(invocation, replies, Reply::Failed(error));
                        assert(session@ == back_with(self@, Reply::Failed(error)));
                        (session, Progress::Moved)
                    },
                    Err(Stop::Waiting(request)) => {
                        let activity = Activity::Operation { operation, stage };
                        let session = Session { invocation, replies, activity, turn_replies };
                        (session, Progress::Ask(outside_of(request)))
                    },
                }
            },
            Activity::Watch { display_uuid, watch } => {
                let mut rift = Rift::over(&turn_replies);
                let taken = space_escape::take_watch_turn(&mut rift, &display_uuid, watch);
                proof {
                    space_escape::a_watch_turn_asks_the_outside_only(display_uuid@, watch);
                    dialogue::lemma_waits_for_allowed(
                        space_escape::watch_turn(display_uuid@, watch),
                        dialogue::outside_requests(),
                        turn_replies@,
                    );
                }
                match taken {
                    Ok(WatchTurn::Again(watch)) => (
                        Session {
                            invocation,
                            replies,
                            activity: Activity::Watch { display_uuid, watch },
                            turn_replies: Vec::new(),
                        },
                        Progress::Moved,
                    ),
                    Ok(WatchTurn::Escaped) => {
                        proof {
                            space_escape::an_escape_is_shown_by_the_displays(
                                display_uuid@,
                                watch,
                                turn_replies@,
                            );
                        }
                        let mut turn_replies = turn_replies;
                        let shown = turn_replies.remove(2);
                        (Session::back(invocation, replies, shown), Progress::Moved)
                    },
                    Ok(WatchTurn::GaveUp) => (
                        Session::back(invocation, replies, Reply::Nothing),
                        Progress::Moved,
                    ),
                    Err(Stop::Failed(error)) => {
                        let session = Session::back(invocation, replies, Reply::Failed(error));
                        assert(session@ == back_with(self@, Reply::Failed(error)));
                        (session, Progress::Moved)
                    },
                    Err(Stop::Waiting(request)) => {
                        let activity = Activity::Watch { display_uuid, watch };
                        let session = Session { invocation, replies, activity, turn_replies };
                        (session, Progress::Ask(outside_of(request)))
                    },
                }
            },
        }
    }

    fn step_command(invocation: Invocation, replies: Vec<Reply>, turn_replies: Vec<Reply>) -> (stepped:
        (Session, Progress))
        ensures
            command_step(
                (SessionView {
                    invocation: invocation@,
                    replies: replies@,
                    activity: ActivityView::Command,
                    turn_replies: turn_replies@,
                }),
                stepped.0@,
                stepped.1,
            ),
    {
        match cli::run(&invocation, &replies) {
            Next::Ask(Request::Outside(ask)) => (
                Session { invocation, replies, activity: Activity::Command, turn_replies },
                Progress::Ask(ask),
            ),
            Next::Ask(Request::Transact(operation)) => (
                Session {
                    invocation,
                    replies,
                    activity: Activity::Operation { operation, stage: Stage::Opening },
                    turn_replies: Vec::new(),
                },
                Progress::Moved,
            ),
            Next::Ask(Request::Watch { display_uuid }) => (
                Session {
                    invocation,
                    replies,
                    activity: Activity::Watch { display_uuid, watch: WatchStage::Opening },
                    turn_replies: Vec::new(),
                },
                Progress::Moved,
            ),
            Next::Finished(result) => (
                Session { invocation, replies, activity: Activity::Command, turn_replies },
                Progress::Finished(result),
            ),
        }
    }

    fn back(invocation: Invocation, replies: Vec<Reply>, reply: Reply) -> (session: Session)
        ensures
            session@ == (SessionView {
                invocation: invocation@,
                replies: replies@.push(reply),
                activity: ActivityView::Command,
                turn_replies: Seq::empty(),
            }),
    {
        let mut replies = replies;
        replies.push(reply);
        Session { invocation, replies, activity: Activity::Command, turn_replies: Vec::new() }
    }
}

/// The request to the outside that a request is.
fn outside_of(request: Request) -> (ask: Ask)
    requires
        request is Outside,
    ensures
        request@ == RequestView::Outside(ask@),
{
    match request {
        Request::Outside(ask) => ask,
        _ => Ask::Now,
    }
}

} // verus!
