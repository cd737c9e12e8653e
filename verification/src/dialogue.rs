//! Commands as dialogues with the outside.
//!
//! A command does not reach out by itself. It is a function of the replies it has had so
//! far: over them it either comes to an end or names the next request, and it is asked
//! again once the reply to that request is there. [`Program`] says what a command does,
//! as a tree of requests and continuations; [`run`] follows a program along the replies;
//! and [`Rift`] is the reading position from which the executable commands do the same.
use crate::error::{ErgoError, ErrorKind, ErrorView};
use crate::model::{CommandView, DisplayData, RiftCommand, RiftEvent, WindowData, WindowId, WorkspaceData};
use crate::policy::{Policy, RoutedWindow};
use crate::transaction::{Operation, OperationView};
use vstd::prelude::*;

verus! {

/// A request to the outside: to Rift, to its event stream, to the clock, to the
/// configuration or to macOS.
#[derive(Debug, PartialEq, Eq)]
pub enum Ask {
    /// Connect to Rift's service; answered by [`Reply::Connected`].
    Connect,
    /// Report the displays; answered by [`Reply::Displays`].
    Displays,
    /// Report the workspaces of a space; answered by [`Reply::Workspaces`].
    Workspaces { space: u64 },
    /// Report the windows of a space; answered by [`Reply::Windows`].
    Windows { space: u64 },
    /// Report one window; answered by [`Reply::WindowInfo`].
    WindowInfo { window_id: WindowId },
    /// Read the monitor policy; answered by [`Reply::Policy`].
    Policy,
    /// Name the homes of those windows that have one; answered by [`Reply::Routed`].
    Route { windows: Vec<WindowData> },
    /// Subscribe to Rift's events; answered by [`Reply::Done`].
    Subscribe,
    /// Read the clock; answered by [`Reply::Now`].
    Now,
    /// Have Rift execute a command; answered by [`Reply::Done`].
    Execute { command: RiftCommand },
    /// Take a pending event without waiting; answered by [`Reply::Event`],
    /// [`Reply::Nothing`], [`Reply::SubscriptionFailed`] or [`Reply::Disconnected`].
    TryReceive,
    /// Wait this long for an event; answered as [`Ask::TryReceive`] is.
    Receive { wait_nanos: u64 },
    /// Run an AppleScript; answered by [`Reply::Done`].
    RunScript { script: String },
    /// Pause; answered by [`Reply::Done`].
    Sleep { millis: u64 },
    /// Move the keyboard to a display by way of its space; answered by [`Reply::Done`].
    AcquireDisplay { display_uuid: String, space: u64 },
}

/// The contents of an [`Ask`].
pub enum AskView {
    Connect,
    Displays,
    Workspaces { space: u64 },
    Windows { space: u64 },
    WindowInfo { window_id: WindowId },
    Policy,
    Route { windows: Seq<WindowData> },
    Subscribe,
    Now,
    Execute { command: CommandView },
    TryReceive,
    Receive { wait_nanos: u64 },
    RunScript { script: Seq<char> },
    Sleep { millis: u64 },
    AcquireDisplay { display_uuid: Seq<char>, space: u64 },
}

impl View for Ask {
    type V = AskView;

    open spec fn view(&self) -> AskView {
        match *self {
            Ask::Connect => AskView::Connect,
            Ask::Displays => AskView::Displays,
            Ask::Workspaces { space } => AskView::Workspaces { space },
            Ask::Windows { space } => AskView::Windows { space },
            Ask::WindowInfo { window_id } => AskView::WindowInfo { window_id },
            Ask::Policy => AskView::Policy,
            Ask::Route { windows } => AskView::Route { windows: windows@ },
            Ask::Subscribe => AskView::Subscribe,
            Ask::Now => AskView::Now,
            Ask::Execute { command } => AskView::Execute { command: command@ },
            Ask::TryReceive => AskView::TryReceive,
            Ask::Receive { wait_nanos } => AskView::Receive { wait_nanos },
            Ask::RunScript { script } => AskView::RunScript { script: script@ },
            Ask::Sleep { millis } => AskView::Sleep { millis },
            Ask::AcquireDisplay { display_uuid, space } => AskView::AcquireDisplay {
                display_uuid: display_uuid@,
                space,
            },
        }
    }
}

/// What a command asks for next: something of the outside, or an activity that takes an
/// unknown number of turns, each of which asks the outside.
#[derive(Debug, PartialEq, Eq)]
pub enum Request {
    Outside(Ask),
    /// Carry an operation out; answered by [`Reply::Done`].
    Transact(Operation),
    /// Wait for a display to show a space that Rift manages; answered by the displays as
    /// they are then, or by [`Reply::Nothing`].
    Watch { display_uuid: String },
}

/// The contents of a [`Request`].
pub enum RequestView {
    Outside(AskView),
    Transact(OperationView),
    Watch { display_uuid: Seq<char> },
}

impl View for Request {
    type V = RequestView;

    open spec fn view(&self) -> RequestView {
        match *self {
            Request::Outside(ask) => RequestView::Outside(ask@),
            Request::Transact(operation) => RequestView::Transact(operation@),
            Request::Watch { display_uuid } => RequestView::Watch { display_uuid: display_uuid@ },
        }
    }
}

/// The reply to a [`Request`]. Any request can be answered by [`Reply::Failed`].
#[derive(Debug, PartialEq, Eq)]
pub enum Reply {
    /// The connection stands; whether Rift's service answers on it.
    Connected { available: bool },
    Displays(Vec<DisplayData>),
    Workspaces(Vec<WorkspaceData>),
    Windows(Vec<WindowData>),
    WindowInfo(WindowData),
    Policy(Policy),
    Routed(Vec<RoutedWindow>),
    /// Nanoseconds since a fixed moment.
    Now(u64),
    /// The request was carried out.
    Done,
    /// An event came.
    Event(RiftEvent),
    /// No event was pending, or none came in time.
    Nothing,
    /// The event stream reported a failure.
    SubscriptionFailed(String),
    /// The event stream is closed.
    Disconnected,
    /// The request failed.
    Failed(ErgoError),
}

/// What a command does: it returns a value, fails, or asks and goes on with the reply.
pub enum Program<A> {
    Return(A),
    Fail(ErrorView),
    Ask(RequestView, spec_fn(Reply) -> Program<A>),
}

/// The first program, and with its value the second.
pub open spec fn bind<A, B>(program: Program<A>, next: spec_fn(A) -> Program<B>) -> Program<B>
    decreases program,
{
    match program {
        Program::Return(value) => next(value),
        Program::Fail(error) => Program::Fail(error),
        Program::Ask(request, resume) => Program::Ask(
            request,
            |reply: Reply| bind(resume(reply), next),
        ),
    }
}

/// The program with its failure handed over as a value.
pub open spec fn attempt<A>(program: Program<A>) -> Program<Result<A, ErrorView>>
    decreases program,
{
    match program {
        Program::Return(value) => Program::Return(Ok(value)),
        Program::Fail(error) => Program::Return(Err(error)),
        Program::Ask(request, resume) => Program::Ask(
            request,
            |reply: Reply| attempt(resume(reply)),
        ),
    }
}

/// The program that a decided result stands for.
pub open spec fn decided<A>(result: Result<A, ErrorView>) -> Program<A> {
    match result {
        Ok(value) => Program::Return(value),
        Err(error) => Program::Fail(error),
    }
}

/// How far a program comes over some replies, and which of them it leaves over.
pub enum Outcome<A> {
    Waiting(RequestView),
    Failed(ErrorView, Seq<Reply>),
    Finished(A, Seq<Reply>),
}

/// Follows a program along the replies.
pub open spec fn run<A>(program: Program<A>, replies: Seq<Reply>) -> Outcome<A>
    decreases replies.len(),
{
    match program {
        Program::Return(value) => Outcome::Finished(value, replies),
        Program::Fail(error) => Outcome::Failed(error, replies),
        Program::Ask(request, resume) => if replies.len() == 0 {
            Outcome::Waiting(request)
        } else {
            run(resume(replies[0]), replies.skip(1))
        },
    }
}

/// A program that returns reads no reply.
pub broadcast proof fn lemma_run_return<A>(value: A, replies: Seq<Reply>)
    ensures
        #[trigger] run(Program::Return(value), replies) == Outcome::Finished(value, replies),
{
}

/// A program that fails reads no reply.
pub broadcast proof fn lemma_run_fail<A>(error: ErrorView, replies: Seq<Reply>)
    ensures
        #[trigger] run(Program::<A>::Fail(error), replies) == Outcome::<A>::Failed(error, replies),
{
}

/// A program that asks reads one reply and goes on with it.
pub broadcast proof fn lemma_run_ask<A>(
    request: RequestView,
    resume: spec_fn(Reply) -> Program<A>,
    replies: Seq<Reply>,
)
    ensures
        #[trigger] run(Program::Ask(request, resume), replies) == (if replies.len() == 0 {
            Outcome::Waiting(request)
        } else {
            run(resume(replies[0]), replies.skip(1))
        }),
{
}

/// A bound program runs as its parts do, one after the other.
pub broadcast proof fn lemma_run_bind<A, B>(
    program: Program<A>,
    next: spec_fn(A) -> Program<B>,
    replies: Seq<Reply>,
)
    ensures
        #[trigger] run(bind(program, next), replies) == (match run(program, replies) {
            Outcome::Waiting(request) => Outcome::Waiting(request),
            Outcome::Failed(error, rest) => Outcome::Failed(error, rest),
            Outcome::Finished(value, rest) => run(next(value), rest),
        }),
    decreases replies.len(),
{
    match program {
        Program::Ask(request, resume) => {
            if replies.len() > 0 {
                lemma_run_bind(resume(replies[0]), next, replies.skip(1));
            }
        },
        _ => {},
    }
}

/// An attempted program runs as the program does, and ends where it fails.
pub broadcast proof fn lemma_run_attempt<A>(program: Program<A>, replies: Seq<Reply>)
    ensures
        #[trigger] run(attempt(program), replies) == (match run(program, replies) {
            Outcome::Waiting(request) => Outcome::Waiting(request),
            Outcome::Failed(error, rest) => Outcome::Finished(Err(error), rest),
            Outcome::Finished(value, rest) => Outcome::Finished(Ok(value), rest),
        }),
    decreases replies.len(),
{
    match program {
        Program::Ask(request, resume) => {
            if replies.len() > 0 {
                lemma_run_attempt(resume(replies[0]), replies.skip(1));
            }
        },
        _ => {},
    }
}

pub broadcast group group_run {
    lemma_run_return,
    lemma_run_fail,
    lemma_run_ask,
    lemma_run_bind,
    lemma_run_attempt,
}

/// Whether all that a program can ask for is allowed.
pub open spec fn asks_only<A>(program: Program<A>, allowed: spec_fn(RequestView) -> bool) -> bool
    decreases program,
{
    match program {
        Program::Return(_) => true,
        Program::Fail(_) => true,
        Program::Ask(request, resume) => allowed(request) && forall|reply: Reply|
            asks_only(#[trigger] resume(reply), allowed),
    }
}

/// Allows the requests to the outside.
pub open spec fn outside_requests() -> spec_fn(RequestView) -> bool {
    |request: RequestView| request is Outside
}

/// Allows the requests that only look: at Rift's state, at the policy or at the clock.
pub open spec fn looks() -> spec_fn(RequestView) -> bool {
    |request: RequestView|
        match request {
            RequestView::Outside(ask) => ask is Connect || ask is Displays || ask is Workspaces
                || ask is Windows || ask is WindowInfo || ask is Policy || ask is Route
                || ask is Now,
            _ => false,
        }
}

/// Allows the requests that look, and those that wait for an event.
pub open spec fn looks_and_waits() -> spec_fn(RequestView) -> bool {
    |request: RequestView|
        looks()(request) || match request {
            RequestView::Outside(ask) => ask is TryReceive || ask is Receive,
            _ => false,
        }
}

/// A program that returns asks for nothing.
pub broadcast proof fn lemma_return_asks_only<A>(
    value: A,
    allowed: spec_fn(RequestView) -> bool,
)
    ensures
        #[trigger] asks_only(Program::Return(value), allowed),
{
}

/// A program that fails asks for nothing.
pub broadcast proof fn lemma_fail_asks_only<A>(
    error: ErrorView,
    allowed: spec_fn(RequestView) -> bool,
)
    ensures
        #[trigger] asks_only(Program::<A>::Fail(error), allowed),
{
}

/// A program that asks for what is allowed and goes on so does no more.
pub broadcast proof fn lemma_ask_asks_only<A>(
    request: RequestView,
    resume: spec_fn(Reply) -> Program<A>,
    allowed: spec_fn(RequestView) -> bool,
)
    requires
        allowed(request),
        forall|reply: Reply| asks_only(#[trigger] resume(reply), allowed),
    ensures
        #[trigger] asks_only(Program::Ask(request, resume), allowed),
{
}

/// A bound program asks for what its parts do.
pub broadcast proof fn lemma_bind_asks_only<A, B>(
    program: Program<A>,
    next: spec_fn(A) -> Program<B>,
    allowed: spec_fn(RequestView) -> bool,
)
    requires
        asks_only(program, allowed),
        forall|value: A| asks_only(#[trigger] next(value), allowed),
    ensures
        #[trigger] asks_only(bind(program, next), allowed),
    decreases program,
{
    match program {
        Program::Ask(request, resume) => {
            let bound = bind(program, next)->Ask_1;
            assert forall|reply: Reply| asks_only(#[trigger] bound(reply), allowed) by {
                assert(bound(reply) == bind(resume(reply), next));
                lemma_bind_asks_only(resume(reply), next, allowed);
            }
        },
        _ => {},
    }
}

/// An attempted program asks for what the program does.
pub broadcast proof fn lemma_attempt_asks_only<A>(
    program: Program<A>,
    allowed: spec_fn(RequestView) -> bool,
)
    requires
        asks_only(program, allowed),
    ensures
        #[trigger] asks_only(attempt(program), allowed),
    decreases program,
{
    match program {
        Program::Ask(request, resume) => {
            let tried = attempt(program)->Ask_1;
            assert forall|reply: Reply| asks_only(#[trigger] tried(reply), allowed) by {
                assert(tried(reply) == attempt(resume(reply)));
                lemma_attempt_asks_only(resume(reply), allowed);
            }
        },
        _ => {},
    }
}

pub broadcast group group_asks_only {
    lemma_return_asks_only,
    lemma_fail_asks_only,
    lemma_ask_asks_only,
    lemma_bind_asks_only,
    lemma_attempt_asks_only,
}

/// What is allowed may be extended.
pub proof fn lemma_asks_only_of_more<A>(
    program: Program<A>,
    allowed: spec_fn(RequestView) -> bool,
    more: spec_fn(RequestView) -> bool,
)
    requires
        asks_only(program, allowed),
        forall|request: RequestView| #[trigger] allowed(request) ==> more(request),
    ensures
        asks_only(program, more),
    decreases program,
{
    match program {
        Program::Ask(request, resume) => {
            assert(allowed(request));
            assert forall|reply: Reply| asks_only(#[trigger] resume(reply), more) by {
                lemma_asks_only_of_more(resume(reply), allowed, more);
            }
        },
        _ => {},
    }
}

/// A program waits for what it is allowed to ask for.
pub proof fn lemma_waits_for_allowed<A>(
    program: Program<A>,
    allowed: spec_fn(RequestView) -> bool,
    replies: Seq<Reply>,
)
    requires
        asks_only(program, allowed),
    ensures
        run(program, replies) matches Outcome::Waiting(request) ==> allowed(request),
    decreases replies.len(),
{
    match program {
        Program::Ask(request, resume) => {
            if replies.len() > 0 {
                lemma_waits_for_allowed(resume(replies[0]), allowed, replies.skip(1));
            }
        },
        _ => {},
    }
}

/// The failure where a reply does not answer the request before it.
pub open spec fn out_of_turn() -> ErrorView {
    ErrorView { kind: ErrorKind::Foreign, message: "reply does not answer the request"@ }
}

/// Why a command does not go on: it needs a reply, or it has failed.
#[derive(Debug, PartialEq, Eq)]
pub enum Stop {
    Waiting(Request),
    Failed(ErgoError),
}

/// The contents of a [`Stop`].
pub enum StopView {
    Waiting(RequestView),
    Failed(ErrorView),
}

impl View for Stop {
    type V = StopView;

    open spec fn view(&self) -> StopView {
        match *self {
            Stop::Waiting(request) => StopView::Waiting(request@),
            Stop::Failed(error) => StopView::Failed(error@),
        }
    }
}

/// The contents of a value that a command came to, or of what stopped it.
pub open spec fn seen<T: View>(result: Result<T, Stop>) -> Result<T::V, StopView> {
    match result {
        Ok(value) => Ok(value@),
        Err(stop) => Err(stop@),
    }
}

/// The value that a command came to, taken as it is, or the contents of what stopped it.
pub open spec fn seen_value<T>(result: Result<T, Stop>) -> Result<T, StopView> {
    match result {
        Ok(value) => Ok(value),
        Err(stop) => Err(stop@),
    }
}

/// The value behind a reference that a command came to, or the contents of what stopped it.
pub open spec fn seen_as_is<T>(result: Result<&T, Stop>) -> Result<T, StopView> {
    match result {
        Ok(value) => Ok(*value),
        Err(stop) => Err(stop@),
    }
}

/// Whether a result is the one that the program comes to over the replies `before`, with
/// `after` left over.
pub open spec fn follows<A>(
    program: Program<A>,
    before: Seq<Reply>,
    after: Seq<Reply>,
    result: Result<A, StopView>,
) -> bool {
    match run(program, before) {
        Outcome::Waiting(request) => result == Err::<A, StopView>(StopView::Waiting(request)),
        Outcome::Failed(error, rest) => result == Err::<A, StopView>(StopView::Failed(error))
            && after == rest,
        Outcome::Finished(value, rest) => result == Ok::<A, StopView>(value) && after == rest,
    }
}

/// What a command has come to: a request whose reply it needs, or its end.
#[derive(Debug, PartialEq, Eq)]
pub enum Next {
    Ask(Request),
    Finished(Result<(), ErgoError>),
}

/// Whether this is what the program comes to over the replies.
pub open spec fn reaches(program: Program<()>, replies: Seq<Reply>, next: Next) -> bool {
    match run(program, replies) {
        Outcome::Waiting(request) => next matches Next::Ask(asked) && asked@ == request,
        Outcome::Failed(error, _) => next matches Next::Finished(Err(shown)) && shown@ == error,
        Outcome::Finished(_, _) => next matches Next::Finished(Ok(_)),
    }
}

/// What a command has come to, from its result.
pub fn conclude(result: Result<(), Stop>) -> (next: Next)
    ensures
        forall|program: Program<()>, replies: Seq<Reply>, rest: Seq<Reply>|
            #[trigger] follows(program, replies, rest, seen(result)) ==> reaches(
                program,
                replies,
                next,
            ),
{
    match result {
        Ok(()) => Next::Finished(Ok(())),
        Err(Stop::Waiting(request)) => Next::Ask(request),
        Err(Stop::Failed(error)) => Next::Finished(Err(error)),
    }
}

/// Hands a decided result to a command.
pub fn settled<T>(result: Result<T, ErgoError>) -> (settled: Result<T, Stop>)
    ensures
        result matches Ok(value) ==> settled == Ok::<T, Stop>(value),
        result matches Err(error) ==> settled == Err::<T, Stop>(Stop::Failed(error)),
{
    match result {
        Ok(value) => Ok(value),
        Err(error) => Err(Stop::Failed(error)),
    }
}

/// Rift and the rest of the outside as a command knows them: by the replies it has had,
/// of which it has read the first few.
pub struct Rift<'a> {
    replies: &'a Vec<Reply>,
    read: usize,
}

impl<'a> Rift<'a> {
    #[verifier::type_invariant]
    spec fn reads_within(self) -> bool {
        self.read <= self.replies@.len()
    }

    /// The replies not yet read.
    pub closed spec fn rest(&self) -> Seq<Reply> {
        self.replies@.skip(self.read as int)
    }

    /// Starts reading at the first reply.
    pub fn over(replies: &'a Vec<Reply>) -> (rift: Rift<'a>)
        ensures
            rift.rest() == replies@,
    {
        let rift = Rift { replies, read: 0 };
        assert(rift.rest() =~= replies@);
        rift
    }

    /// Reads the reply to the request, or stops where it is not there yet.
    pub fn ask(&mut self, request: Request) -> (reply: Result<&'a Reply, Stop>)
        ensures
            reply matches Ok(reply) ==> old(self).rest().len() > 0 && *reply == old(
                self,
            ).rest()[0] && final(self).rest() == old(self).rest().skip(1),
            reply matches Err(stop) ==> old(self).rest().len() == 0 && stop@ == StopView::Waiting(
                request@,
            ),
    {
        proof {
            use_type_invariant(&*self);
        }
        if self.read < self.replies.len() {
            let reply = &self.replies[self.read];
            self.read = self.read + 1;
            assert(self.rest() =~= old(self).rest().skip(1));
            Ok(reply)
        } else {
            Err(Stop::Waiting(request))
        }
    }
}

/// Reports a reply that does not answer the request before it.
pub fn misplaced() -> (stop: Stop)
    ensures
        stop@ == StopView::Failed(out_of_turn()),
{
    Stop::Failed(
        ErgoError {
            kind: ErrorKind::Foreign,
            message: "reply does not answer the request".to_owned(),
        },
    )
}

/// Reports a reply in place of the one that was asked for.
pub fn refused(reply: &Reply) -> (stop: Stop)
    ensures
        stop@ == StopView::Failed(refusal(*reply)),
{
    match reply {
        Reply::Failed(error) => Stop::Failed(error.clone()),
        _ => misplaced(),
    }
}

/// The failure that a reply stands for where another one was asked for.
pub open spec fn refusal(reply: Reply) -> ErrorView {
    match reply {
        Reply::Failed(error) => error@,
        _ => out_of_turn(),
    }
}

} // verus!
