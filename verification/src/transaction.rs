//! Commands to Rift that are followed until its state shows their effect.
//!
//! An [`Operation`] submits commands and waits: events of Rift say when to look, and a
//! [`Check`] of Rift's state says whether the wait is over. Every wait has a deadline of its
//! own, and the operations of a batch share a further one. An operation proceeds in turns;
//! each turn is a short dialogue that leads to the next [`Stage`] or to the end.
use crate::dialogue;
use crate::dialogue::{refused, Ask, AskView, Program, Reply, Request, RequestView, Rift, Stop, StopView};
use crate::error;
use crate::error::{state_error, timeout_error};
use crate::model::{CommandView, RiftCommand, RiftEvent, WindowId};
use crate::rift;
use crate::rift::{TargetContext, TargetView};
use crate::text;
use crate::text::{decimal_text, join2, join3, same_text};
use vstd::prelude::*;

verus! {

broadcast use dialogue::group_run;

/// How long a single wait lasts, in milliseconds.
pub const DEFAULT_STEP_TIMEOUT: u64 = 2_500;

/// What each item adds to the time of a batch, in milliseconds.
pub const BATCH_ITEM_BUDGET: u64 = 2_000;

/// What setting a batch up adds to its time, in milliseconds.
pub const BATCH_SETUP_TIMEOUT: u64 = 2_500;

/// The least time of a batch, in milliseconds.
pub const MIN_BATCH_TIMEOUT: u64 = 30_000;

/// How long to wait for an event before Rift's state is looked at, in nanoseconds.
pub const STATE_PROBE_INTERVAL_NANOS: u64 = 20_000_000;

/// How long a state has to last to count as stable, in nanoseconds.
pub const STABLE_STATE_NANOS: u64 = 350_000_000;

/// Nanoseconds in a millisecond.
pub const NANOS_PER_MILLI: u128 = 1_000_000;

/// The events that call for a look at Rift's state.
#[derive(Debug, PartialEq, Eq)]
pub enum EventExpectation {
    /// Events of a display.
    Display(String),
    /// Events of a workspace on a display.
    Workspace { display_uuid: String, workspace_name: String },
}

/// The contents of an [`EventExpectation`].
pub enum ExpectationView {
    Display(Seq<char>),
    Workspace { display_uuid: Seq<char>, workspace_name: Seq<char> },
}

impl View for EventExpectation {
    type V = ExpectationView;

    open spec fn view(&self) -> ExpectationView {
        match *self {
            EventExpectation::Display(display_uuid) => ExpectationView::Display(display_uuid@),
            EventExpectation::Workspace { display_uuid, workspace_name } =>
                ExpectationView::Workspace {
                    display_uuid: display_uuid@,
                    workspace_name: workspace_name@,
                },
        }
    }
}

/// Whether an event reports a transition of workspaces, windows or focus.
pub open spec fn is_transition(event: RiftEvent) -> bool {
    event is WorkspaceChanged || event is WindowsChanged || event is FocusedWindowChanged
}

/// The display of an event.
pub open spec fn display_of(event: RiftEvent) -> Option<Seq<char>> {
    match event {
        RiftEvent::WorkspaceChanged { display_uuid, .. } => text::optional_text(display_uuid),
        RiftEvent::WindowsChanged { display_uuid, .. } => text::optional_text(display_uuid),
        RiftEvent::FocusedWindowChanged { display_uuid, .. } => text::optional_text(display_uuid),
        RiftEvent::WindowTitleChanged { display_uuid } => text::optional_text(display_uuid),
        RiftEvent::StacksChanged { display_uuid } => text::optional_text(display_uuid),
    }
}

/// The workspace of a transition.
pub open spec fn workspace_of(event: RiftEvent) -> Option<Seq<char>> {
    match event {
        RiftEvent::WorkspaceChanged { workspace_name, .. } => Some(workspace_name@),
        RiftEvent::WindowsChanged { workspace_name, .. } => Some(workspace_name@),
        RiftEvent::FocusedWindowChanged { workspace_name, .. } => Some(workspace_name@),
        RiftEvent::WindowTitleChanged { .. } => None,
        RiftEvent::StacksChanged { .. } => None,
    }
}

/// Whether an event is one of those expected: a transition of exactly the display, and where
/// a workspace is named, of exactly the workspace.
pub open spec fn expects(expectation: ExpectationView, event: RiftEvent) -> bool {
    is_transition(event) && match expectation {
        ExpectationView::Display(display_uuid) => display_of(event) == Some(display_uuid),
        ExpectationView::Workspace { display_uuid, workspace_name } => display_of(event) == Some(
            display_uuid,
        ) && workspace_of(event) == Some(workspace_name),
    }
}

/// Whether an event reports a transition of workspaces, windows or focus.
pub fn is_transition_event(event: &RiftEvent) -> (transition: bool)
    ensures
        transition == is_transition(*event),
{
    match event {
        RiftEvent::WorkspaceChanged { .. } => true,
        RiftEvent::WindowsChanged { .. } => true,
        RiftEvent::FocusedWindowChanged { .. } => true,
        _ => false,
    }
}

/// The workspace of a transition.
pub fn event_workspace(event: &RiftEvent) -> (workspace: Option<&String>)
    ensures
        workspace matches Some(name) ==> workspace_of(*event) == Some(name@),
        workspace is None ==> workspace_of(*event) is None,
{
    match event {
        RiftEvent::WorkspaceChanged { workspace_name, .. } => Some(workspace_name),
        RiftEvent::WindowsChanged { workspace_name, .. } => Some(workspace_name),
        RiftEvent::FocusedWindowChanged { workspace_name, .. } => Some(workspace_name),
        RiftEvent::WindowTitleChanged { .. } => None,
        RiftEvent::StacksChanged { .. } => None,
    }
}

/// Whether an event is of this display.
fn event_is_of_display(event: &RiftEvent, expected: &str) -> (matches: bool)
    ensures
        matches == (display_of(*event) == Some(expected@)),
{
    let display_uuid = match event {
        RiftEvent::WorkspaceChanged { display_uuid, .. } => display_uuid,
        RiftEvent::WindowsChanged { display_uuid, .. } => display_uuid,
        RiftEvent::FocusedWindowChanged { display_uuid, .. } => display_uuid,
        RiftEvent::WindowTitleChanged { display_uuid } => display_uuid,
        RiftEvent::StacksChanged { display_uuid } => display_uuid,
    };
    match display_uuid {
        Some(display_uuid) => same_text(display_uuid, expected),
        None => false,
    }
}

impl EventExpectation {
    /// Whether an event is one of those expected.
    pub fn matches(&self, event: &RiftEvent) -> (matches: bool)
        ensures
            matches == expects(self@, *event),
    {
        if !is_transition_event(event) {
            return false;
        }
        match self {
            EventExpectation::Display(display_uuid) => event_is_of_display(event, display_uuid),
            EventExpectation::Workspace { display_uuid, workspace_name } => event_is_of_display(
                event,
                display_uuid,
            ) && match event_workspace(event) {
                Some(name) => same_text(name, workspace_name),
                None => false,
            },
        }
    }
}

/// One thing to hold of Rift's state.
#[derive(Debug, PartialEq, Eq)]
pub enum Condition {
    /// The destination's display has the keyboard.
    DisplayIsActive,
    /// The named workspace is active on the destination.
    WorkspaceIsActive,
    /// The window is in the named workspace.
    WindowIsAt(WindowId),
    /// The window is on the destination's display.
    WindowIsOnDisplay(WindowId),
    /// The window is in the named workspace, and focused.
    WindowIsFocusedAt(WindowId),
    /// The windows are in the named workspace and on the display.
    WindowsAreAt(Vec<WindowId>),
}

/// The contents of a [`Condition`].
pub enum ConditionView {
    DisplayIsActive,
    WorkspaceIsActive,
    WindowIsAt(WindowId),
    WindowIsOnDisplay(WindowId),
    WindowIsFocusedAt(WindowId),
    WindowsAreAt(Seq<WindowId>),
}

impl View for Condition {
    type V = ConditionView;

    open spec fn view(&self) -> ConditionView {
        match *self {
            Condition::DisplayIsActive => ConditionView::DisplayIsActive,
            Condition::WorkspaceIsActive => ConditionView::WorkspaceIsActive,
            Condition::WindowIsAt(id) => ConditionView::WindowIsAt(id),
            Condition::WindowIsOnDisplay(id) => ConditionView::WindowIsOnDisplay(id),
            Condition::WindowIsFocusedAt(id) => ConditionView::WindowIsFocusedAt(id),
            Condition::WindowsAreAt(ids) => ConditionView::WindowsAreAt(ids@),
        }
    }
}

/// What has to hold of Rift's state at a destination for a wait to be over: the conditions,
/// looked at in order up to the first that does not hold.
#[derive(Debug, PartialEq, Eq)]
pub struct Check {
    pub target: TargetContext,
    pub workspace_name: String,
    pub conditions: Vec<Condition>,
}

/// The contents of a [`Check`].
pub struct CheckView {
    pub target: TargetView,
    pub workspace_name: Seq<char>,
    pub conditions: Seq<ConditionView>,
}

/// The contents of the conditions.
pub open spec fn condition_views(conditions: Seq<Condition>) -> Seq<ConditionView> {
    Seq::new(conditions.len(), |i: int| conditions[i]@)
}

impl View for Check {
    type V = CheckView;

    open spec fn view(&self) -> CheckView {
        CheckView {
            target: self.target@,
            workspace_name: self.workspace_name@,
            conditions: condition_views(self.conditions@),
        }
    }
}

impl Check {
    /// A check of one condition.
    pub fn one(target: &TargetContext, workspace_name: &str, condition: Condition) -> (check: Check)
        ensures
            check@ == check_of(target@, workspace_name@, seq![condition@]),
    {
        let mut conditions: Vec<Condition> = Vec::new();
        conditions.push(condition);
        let check = Check {
            target: target.clone(),
            workspace_name: workspace_name.to_owned(),
            conditions,
        };
        assert(check@.conditions =~= seq![condition@]);
        check
    }

    /// A check of two conditions.
    pub fn both(
        target: &TargetContext,
        workspace_name: &str,
        first: Condition,
        second: Condition,
    ) -> (check: Check)
        ensures
            check@ == check_of(target@, workspace_name@, seq![first@, second@]),
    {
        let mut conditions: Vec<Condition> = Vec::new();
        conditions.push(first);
        conditions.push(second);
        let check = Check {
            target: target.clone(),
            workspace_name: workspace_name.to_owned(),
            conditions,
        };
        assert(check@.conditions =~= seq![first@, second@]);
        check
    }
}

/// The check of these conditions at a destination.
pub open spec fn check_of(
    target: TargetView,
    workspace_name: Seq<char>,
    conditions: Seq<ConditionView>,
) -> CheckView {
    CheckView { target, workspace_name, conditions }
}

/// Whether one condition holds.
pub open spec fn condition_holds(
    target: TargetView,
    workspace_name: Seq<char>,
    condition: ConditionView,
) -> Program<bool> {
    match condition {
        ConditionView::DisplayIsActive => rift::display_is_active(target.display_uuid),
        ConditionView::WorkspaceIsActive => rift::workspace_is_active(target, workspace_name),
        ConditionView::WindowIsAt(id) => rift::window_is_at(target, workspace_name, id),
        ConditionView::WindowIsOnDisplay(id) => rift::window_is_on_display(target, id),
        ConditionView::WindowIsFocusedAt(id) => rift::window_is_focused_at(
            target,
            workspace_name,
            id,
        ),
        ConditionView::WindowsAreAt(ids) => rift::windows_are_at(target, workspace_name, ids),
    }
}

/// Whether the conditions from this one on hold.
pub open spec fn check_holds_from(check: CheckView, at: int) -> Program<bool>
    decreases check.conditions.len() - at,
{
    if at < 0 || at >= check.conditions.len() {
        Program::Return(true)
    } else {
        dialogue::bind(
            condition_holds(check.target, check.workspace_name, check.conditions[at]),
            |holds: bool|
                if holds {
                    check_holds_from(check, at + 1)
                } else {
                    Program::Return(false)
                },
        )
    }
}

/// Whether a check holds.
#[verifier::opaque]
pub open spec fn check_holds(check: CheckView) -> Program<bool> {
    check_holds_from(check, 0)
}

impl Check {
    fn condition_holds(&self, rift: &mut Rift<'_>, condition: &Condition) -> (holds: Result<
        bool,
        Stop,
    >)
        ensures
            dialogue::follows(
                condition_holds(self@.target, self@.workspace_name, condition@),
                old(rift).rest(),
                final(rift).rest(),
                dialogue::seen(holds),
            ),
    {
        match condition {
            Condition::DisplayIsActive => rift.display_is_active(&self.target.display_uuid),
            Condition::WorkspaceIsActive => rift.workspace_is_active(
                &self.target,
                &self.workspace_name,
            ),
            Condition::WindowIsAt(id) => rift.window_is_at(
                &self.target,
                &self.workspace_name,
                *id,
            ),
            Condition::WindowIsOnDisplay(id) => rift.window_is_on_display(&self.target, *id),
            Condition::WindowIsFocusedAt(id) => rift.window_is_focused_at(
                &self.target,
                &self.workspace_name,
                *id,
            ),
            Condition::WindowsAreAt(ids) => rift.windows_are_at(
                &self.target,
                &self.workspace_name,
                ids,
            ),
        }
    }

    /// Whether the check holds.
    pub fn holds(&self, rift: &mut Rift<'_>) -> (holds: Result<bool, Stop>)
        ensures
            dialogue::follows(
                check_holds(self@),
                old(rift).rest(),
                final(rift).rest(),
                dialogue::seen(holds),
            ),
    {
        proof {
            reveal(check_holds);
        }
        let mut at: usize = 0;
        #[verifier::loop_isolation(false)]
        while at < self.conditions.len()
            invariant
                at <= self.conditions.len(),
                dialogue::run(check_holds(self@), old(rift).rest()) == dialogue::run(
                    check_holds_from(self@, at as int),
                    rift.rest(),
                ),
            decreases self.conditions.len() - at,
        {
            if !self.condition_holds(rift, &self.conditions[at])? {
                return Ok(false);
            }
            at = at + 1;
        }
        Ok(true)
    }
}

/// The limits within which operations are carried out.
#[derive(Clone, Copy, Debug, PartialEq, Eq, Structural)]
pub struct RiftTransaction {
    /// How long a single wait lasts, in milliseconds.
    pub step_timeout: u64,
    /// When the time of the batch is over, in nanoseconds on the clock.
    pub batch_deadline: Option<u128>,
}

/// How an operation proceeds.
#[derive(Clone, Copy, Debug, PartialEq, Eq, Structural)]
pub enum Pace {
    /// Submit, then wait for the check to hold.
    Step,
    /// Forget the events so far, submit, then wait for an expected event and for the check to
    /// hold.
    Confirmed,
    /// Submit nothing; wait for the check to hold without a break.
    Settle,
}

/// Commands to submit and what to wait for.
#[derive(Debug, PartialEq, Eq)]
pub struct Operation {
    pub transaction: RiftTransaction,
    pub pace: Pace,
    pub description: String,
    pub commands: Vec<RiftCommand>,
    pub expectation: EventExpectation,
    pub check: Check,
    /// How long to wait, in milliseconds.
    pub timeout: u64,
}

/// The contents of an [`Operation`].
pub struct OperationView {
    pub transaction: RiftTransaction,
    pub pace: Pace,
    pub description: Seq<char>,
    pub commands: Seq<CommandView>,
    pub expectation: ExpectationView,
    pub check: CheckView,
    pub timeout: u64,
}

/// The contents of the commands.
pub open spec fn command_views(commands: Seq<RiftCommand>) -> Seq<CommandView> {
    Seq::new(commands.len(), |i: int| commands[i]@)
}

impl View for Operation {
    type V = OperationView;

    open spec fn view(&self) -> OperationView {
        OperationView {
            transaction: self.transaction,
            pace: self.pace,
            description: self.description@,
            commands: command_views(self.commands@),
            expectation: self.expectation@,
            check: self.check@,
            timeout: self.timeout,
        }
    }
}

/// Has an operation carried out.
pub open spec fn transact(operation: OperationView) -> Program<()> {
    Program::Ask(
        RequestView::Transact(operation),
        |reply: Reply|
            match reply {
                Reply::Done => Program::Return(()),
                _ => Program::Fail(dialogue::refusal(reply)),
            },
    )
}

/// Submits a command and waits for the check to hold.
pub open spec fn step(
    transaction: RiftTransaction,
    description: Seq<char>,
    command: CommandView,
    expectation: ExpectationView,
    check: CheckView,
) -> Program<()> {
    transact(
        OperationView {
            transaction,
            pace: Pace::Step,
            description,
            commands: seq![command],
            expectation,
            check,
            timeout: transaction.step_timeout,
        },
    )
}

/// Submits a command and waits this long for an expected event and for the check to hold.
pub open spec fn confirmed_step(
    transaction: RiftTransaction,
    description: Seq<char>,
    command: CommandView,
    expectation: ExpectationView,
    check: CheckView,
    timeout: u64,
) -> Program<()> {
    transact(
        OperationView {
            transaction,
            pace: Pace::Confirmed,
            description,
            commands: seq![command],
            expectation,
            check,
            timeout,
        },
    )
}

/// Submits commands and waits for an expected event and for the check to hold.
pub open spec fn confirmed_phase(
    transaction: RiftTransaction,
    description: Seq<char>,
    commands: Seq<CommandView>,
    expectation: ExpectationView,
    check: CheckView,
) -> Program<()> {
    transact(
        OperationView {
            transaction,
            pace: Pace::Confirmed,
            description,
            commands,
            expectation,
            check,
            timeout: transaction.step_timeout,
        },
    )
}

/// Waits for the check to hold without a break.
pub open spec fn settle(
    transaction: RiftTransaction,
    description: Seq<char>,
    expectation: ExpectationView,
    check: CheckView,
) -> Program<()> {
    transact(
        OperationView {
            transaction,
            pace: Pace::Settle,
            description,
            commands: Seq::empty(),
            expectation,
            check,
            timeout: transaction.step_timeout,
        },
    )
}

/// The limits of a single command.
pub open spec fn single_limits() -> RiftTransaction {
    RiftTransaction { step_timeout: DEFAULT_STEP_TIMEOUT, batch_deadline: None }
}

/// The time of a batch, in milliseconds: what setting it up and its items take, and no less
/// than the least. Items past the range of 32 bits do not add to it.
pub open spec fn batch_time(item_count: nat) -> nat {
    let items: nat = if item_count <= u32::MAX {
        item_count
    } else {
        u32::MAX as nat
    };
    let time: nat = BATCH_SETUP_TIMEOUT as nat + BATCH_ITEM_BUDGET as nat * items;
    if time < MIN_BATCH_TIMEOUT as nat {
        MIN_BATCH_TIMEOUT as nat
    } else {
        time
    }
}

/// The limits of a batch of so many items that starts now.
pub open spec fn batch_limits(now: u64, item_count: nat) -> RiftTransaction {
    RiftTransaction {
        step_timeout: DEFAULT_STEP_TIMEOUT,
        batch_deadline: Some((now + batch_time(item_count) * NANOS_PER_MILLI) as u128),
    }
}

/// Begins a transaction for a single command.
pub open spec fn begin_single() -> Program<RiftTransaction> {
    dialogue::bind(
        rift::effect(AskView::Subscribe),
        |done: ()| Program::Return(single_limits()),
    )
}

/// Begins a transaction for a batch of so many items.
pub open spec fn begin_batch(item_count: nat) -> Program<RiftTransaction> {
    dialogue::bind(
        rift::now(),
        |now: u64|
            dialogue::bind(
                rift::effect(AskView::Subscribe),
                |done: ()| Program::Return(batch_limits(now, item_count)),
            ),
    )
}

/// When a wait is over: after its own time, or with the batch.
pub open spec fn wait_deadline(transaction: RiftTransaction, started: u64, timeout: u64) -> int {
    let own = started + timeout * NANOS_PER_MILLI;
    match transaction.batch_deadline {
        Some(batch) if batch < own => batch as int,
        _ => own,
    }
}

impl RiftTransaction {
    /// Begins a transaction for a single command.
    pub fn new(rift: &mut Rift<'_>) -> (transaction: Result<RiftTransaction, Stop>)
        ensures
            dialogue::follows(
                begin_single(),
                old(rift).rest(),
                final(rift).rest(),
                dialogue::seen_value(transaction),
            ),
    {
        RiftTransaction::with_limits(rift, DEFAULT_STEP_TIMEOUT, None)
    }

    /// Begins a transaction for a batch of so many items.
    pub fn for_batch(rift: &mut Rift<'_>, item_count: usize) -> (transaction: Result<
        RiftTransaction,
        Stop,
    >)
        ensures
            dialogue::follows(
                begin_batch(item_count as nat),
                old(rift).rest(),
                final(rift).rest(),
                dialogue::seen_value(transaction),
            ),
    {
        let now = rift.now()?;
        let time = RiftTransaction::batch_timeout(item_count);
        let deadline: u128 = now as u128 + time as u128 * NANOS_PER_MILLI;
        RiftTransaction::with_limits(rift, DEFAULT_STEP_TIMEOUT, Some(deadline))
    }

    fn with_limits(
        rift: &mut Rift<'_>,
        step_timeout: u64,
        batch_deadline: Option<u128>,
    ) -> (transaction: Result<RiftTransaction, Stop>)
        ensures
            dialogue::follows(
                dialogue::bind(
                    rift::effect(AskView::Subscribe),
                    |done: ()| Program::Return(RiftTransaction { step_timeout, batch_deadline }),
                ),
                old(rift).rest(),
                final(rift).rest(),
                dialogue::seen_value(transaction),
            ),
    {
        rift.subscribe()?;
        Ok(RiftTransaction { step_timeout, batch_deadline })
    }

    /// The time of a batch of so many items, in milliseconds.
    pub fn batch_timeout(item_count: usize) -> (millis: u64)
        ensures
            millis == batch_time(item_count as nat),
    {
        let items: u64 = if item_count as u64 <= u32::MAX as u64 {
            item_count as u64
        } else {
            u32::MAX as u64
        };
        let time: u64 = BATCH_SETUP_TIMEOUT + BATCH_ITEM_BUDGET * items;
        if time < MIN_BATCH_TIMEOUT {
            MIN_BATCH_TIMEOUT
        } else {
            time
        }
    }

    /// When a wait of this length is over.
    pub fn deadline(&self, started: u64, timeout: u64) -> (deadline: u128)
        ensures
            deadline == wait_deadline(*self, started, timeout),
    {
        let own: u128 = started as u128 + timeout as u128 * NANOS_PER_MILLI;
        match self.batch_deadline {
            Some(batch) if batch < own => batch,
            _ => own,
        }
    }

    /// Submits a command and waits for the check to hold.
    pub fn step(
        &self,
        rift: &mut Rift<'_>,
        description: &str,
        command: RiftCommand,
        expectation: EventExpectation,
        check: Check,
    ) -> (done: Result<(), Stop>)
        ensures
            dialogue::follows(
                step(*self, description@, command@, expectation@, check@),
                old(rift).rest(),
                final(rift).rest(),
                dialogue::seen(done),
            ),
    {
        let mut commands: Vec<RiftCommand> = Vec::new();
        commands.push(command);
        let operation = Operation {
            transaction: *self,
            pace: Pace::Step,
            description: description.to_owned(),
            commands,
            expectation,
            check,
            timeout: self.step_timeout,
        };
        assert(operation@.commands =~= seq![command@]);
        request(rift, operation)
    }

    /// Submits a command and waits this long for an expected event and for the check to hold.
    pub fn confirmed_step_with_timeout(
        &self,
        rift: &mut Rift<'_>,
        description: &str,
        command: RiftCommand,
        expectation: EventExpectation,
        check: Check,
        timeout: u64,
    ) -> (done: Result<(), Stop>)
        ensures
            dialogue::follows(
                confirmed_step(*self, description@, command@, expectation@, check@, timeout),
                old(rift).rest(),
                final(rift).rest(),
                dialogue::seen(done),
            ),
    {
        let mut commands: Vec<RiftCommand> = Vec::new();
        commands.push(command);
        let operation = Operation {
            transaction: *self,
            pace: Pace::Confirmed,
            description: description.to_owned(),
            commands,
            expectation,
            check,
            timeout,
        };
        assert(operation@.commands =~= seq![command@]);
        request(rift, operation)
    }

    /// Submits commands and waits for an expected event and for the check to hold.
    pub fn confirmed_phase(
        &self,
        rift: &mut Rift<'_>,
        description: &str,
        commands: Vec<RiftCommand>,
        expectation: EventExpectation,
        check: Check,
    ) -> (done: Result<(), Stop>)
        ensures
            dialogue::follows(
                confirmed_phase(
                    *self,
                    description@,
                    command_views(commands@),
                    expectation@,
                    check@,
                ),
                old(rift).rest(),
                final(rift).rest(),
                dialogue::seen(done),
            ),
    {
        request(
            rift,
            Operation {
                transaction: *self,
                pace: Pace::Confirmed,
                description: description.to_owned(),
                commands,
                expectation,
                check,
                timeout: self.step_timeout,
            },
        )
    }

    /// Waits for the check to hold without a break.
    pub fn settle(
        &self,
        rift: &mut Rift<'_>,
        description: &str,
        expectation: EventExpectation,
        check: Check,
    ) -> (done: Result<(), Stop>)
        ensures
            dialogue::follows(
                settle(*self, description@, expectation@, check@),
                old(rift).rest(),
                final(rift).rest(),
                dialogue::seen(done),
            ),
    {
        let operation = Operation {
            transaction: *self,
            pace: Pace::Settle,
            description: description.to_owned(),
            commands: Vec::new(),
            expectation,
            check,
            timeout: self.step_timeout,
        };
        assert(operation@.commands =~= Seq::<CommandView>::empty());
        request(rift, operation)
    }
}

/// Has an operation carried out.
fn request(rift: &mut Rift<'_>, operation: Operation) -> (done: Result<(), Stop>)
    ensures
        dialogue::follows(
            transact(operation@),
            old(rift).rest(),
            final(rift).rest(),
            dialogue::seen(done),
        ),
{
    let reply = rift.ask(Request::Transact(operation))?;
    match reply {
        Reply::Done => Ok(()),
        _ => Err(refused(reply)),
    }
}

// ---------------------------------------------------------------------------
// How an operation is carried out.
// ---------------------------------------------------------------------------

/// How far an operation has come.
#[derive(Clone, Copy, Debug, PartialEq, Eq, Structural)]
pub enum Stage {
    /// Nothing has been done.
    Opening,
    /// Pending events are being forgotten.
    Draining,
    /// The commands are submitted.
    Waiting { started: u64, deadline: u128, matching_event_seen: bool },
    /// The check is held against Rift's state; since when it has held.
    Settling { started: u64, deadline: u128, stable_since: Option<u64> },
}

/// What ended a wait.
#[derive(Clone, Copy, Debug, PartialEq, Eq, Structural)]
pub enum Completion {
    MatchingEvent,
    StateProbe,
    DeadlineValidation,
    StableState,
}

impl Completion {
    /// The words for what ended a wait.
    pub open spec fn words(self) -> Seq<char> {
        match self {
            Completion::MatchingEvent => "matching event"@,
            Completion::StateProbe => "state probe"@,
            Completion::DeadlineValidation => "deadline validation"@,
            Completion::StableState => "stable state"@,
        }
    }

    fn text(self) -> (text: &'static str)
        ensures
            text@ == self.words(),
    {
        match self {
            Completion::MatchingEvent => "matching event",
            Completion::StateProbe => "state probe",
            Completion::DeadlineValidation => "deadline validation",
            Completion::StableState => "stable state",
        }
    }
}

/// The whole milliseconds from one moment to another, none where the other is not later.
pub open spec fn elapsed_millis(started: u64, now: u64) -> nat {
    if now < started {
        0
    } else {
        ((now - started) / 1_000_000) as nat
    }
}

/// The line that reports the end of a wait.
pub open spec fn trace_line(
    description: Seq<char>,
    by: Completion,
    started: u64,
    now: u64,
) -> Seq<char> {
    "rift-ergo: "@ + description + " completed by "@ + by.words() + " in "@ + text::decimal(
        elapsed_millis(started, now),
    ) + " ms"@
}

/// Writes the line that reports the end of a wait.
pub fn trace_wait(description: &str, by: Completion, started: u64, now: u64) -> (line: String)
    ensures
        line@ == trace_line(description@, by, started, now),
{
    let millis: u64 = if now < started {
        0
    } else {
        (now - started) / 1_000_000
    };
    let mut line = join3("rift-ergo: ", description, " completed by ");
    line.append(by.text());
    line.append(" in ");
    line.append(&decimal_text(millis));
    line.append(" ms");
    line
}

/// What a turn leads to: a further turn, or the end of a wait that began at `started`.
#[derive(Clone, Copy, Debug, PartialEq, Eq, Structural)]
pub enum Turn {
    Again(Stage),
    Complete { by: Completion, started: u64 },
}

/// Takes an event from the stream.
pub open spec fn take_event(ask: AskView) -> Program<Option<RiftEvent>> {
    rift::outside(
        ask,
        |reply: Reply|
            match reply {
                Reply::Event(event) => Program::Return(Some(event)),
                Reply::Nothing => Program::Return(None),
                Reply::SubscriptionFailed(message) => Program::Fail(
                    error::state_failure("event subscription failed: "@ + message@),
                ),
                Reply::Disconnected => Program::Fail(
                    error::state_failure("event subscription disconnected"@),
                ),
                _ => Program::Fail(dialogue::refusal(reply)),
            },
    )
}

/// Refuses to begin once the time of the batch is over.
pub open spec fn ensure_budget(operation: OperationView) -> Program<()> {
    match operation.transaction.batch_deadline {
        None => Program::Return(()),
        Some(deadline) => dialogue::bind(
            rift::now(),
            |now: u64|
                if now >= deadline {
                    Program::Fail(
                        error::timeout_failure(
                            "batch timeout exhausted before "@ + operation.description,
                        ),
                    )
                } else {
                    Program::Return(())
                },
        ),
    }
}

/// Submits the commands from this one on.
pub open spec fn submit_from(commands: Seq<CommandView>, at: int) -> Program<()>
    decreases commands.len() - at,
{
    if at < 0 || at >= commands.len() {
        Program::Return(())
    } else {
        dialogue::bind(
            rift::effect(AskView::Execute { command: commands[at] }),
            |done: ()| submit_from(commands, at + 1),
        )
    }
}

/// Starts the clock, submits the commands and begins to wait.
pub open spec fn submit(operation: OperationView) -> Program<Turn> {
    dialogue::bind(
        rift::now(),
        |started: u64|
            dialogue::bind(
                submit_from(operation.commands, 0),
                |done: ()|
                    Program::Return(
                        Turn::Again(
                            Stage::Waiting {
                                started,
                                deadline: wait_deadline(
                                    operation.transaction,
                                    started,
                                    operation.timeout,
                                ) as u128,
                                matching_event_seen: false,
                            },
                        ),
                    ),
            ),
    )
}

/// Forgets one pending event, or goes on to submit where none is left.
pub open spec fn drain(operation: OperationView) -> Program<Turn> {
    dialogue::bind(
        take_event(AskView::TryReceive),
        |event: Option<RiftEvent>|
            if event is Some {
                Program::Return(Turn::Again(Stage::Draining))
            } else {
                submit(operation)
            },
    )
}

/// Starts the clock and looks at Rift's state for the first time.
pub open spec fn begin_to_settle(operation: OperationView) -> Program<Turn> {
    dialogue::bind(
        rift::now(),
        |started: u64|
            settled_since(
                operation,
                started,
                wait_deadline(operation.transaction, started, operation.timeout) as u128,
                None,
            ),
    )
}

/// Looks at Rift's state and notes since when the check has held.
pub open spec fn settled_since(
    operation: OperationView,
    started: u64,
    deadline: u128,
    stable_since: Option<u64>,
) -> Program<Turn> {
    dialogue::bind(
        check_holds(operation.check),
        |holds: bool|
            if !holds {
                Program::Return(
                    Turn::Again(Stage::Settling { started, deadline, stable_since: None }),
                )
            } else if stable_since is Some {
                Program::Return(Turn::Again(Stage::Settling { started, deadline, stable_since }))
            } else {
                dialogue::bind(
                    rift::now(),
                    |now: u64|
                        Program::Return(
                            Turn::Again(
                                Stage::Settling { started, deadline, stable_since: Some(now) },
                            ),
                        ),
                )
            },
    )
}

/// How long to wait for an event: the probe interval, or what is left until the deadline.
pub open spec fn wait_time(now: u64, deadline: u128) -> u64 {
    if deadline <= now {
        0
    } else if deadline - now < STATE_PROBE_INTERVAL_NANOS {
        (deadline - now) as u64
    } else {
        STATE_PROBE_INTERVAL_NANOS
    }
}

/// Waits for an event until it is time to look at Rift's state again.
pub open spec fn await_event(deadline: u128) -> Program<Option<RiftEvent>> {
    dialogue::bind(
        rift::now(),
        |now: u64| take_event(AskView::Receive { wait_nanos: wait_time(now, deadline) }),
    )
}

/// Looks at Rift's state: the wait is over where the check holds, and goes on else.
pub open spec fn probe(
    operation: OperationView,
    by: Completion,
    started: u64,
    otherwise: Stage,
) -> Program<Turn> {
    dialogue::bind(
        check_holds(operation.check),
        |holds: bool|
            if holds {
                Program::Return(Turn::Complete { by, started })
            } else {
                Program::Return(Turn::Again(otherwise))
            },
    )
}

/// One turn of waiting. A look at Rift's state follows an expected event, or the lack of any
/// event unless an expected one is still needed; and at the deadline there is a last look.
pub open spec fn wait_turn(
    operation: OperationView,
    started: u64,
    deadline: u128,
    matching_event_seen: bool,
) -> Program<Turn> {
    dialogue::bind(
        rift::now(),
        |now: u64|
            if now < deadline {
                dialogue::bind(
                    await_event(deadline),
                    |event: Option<RiftEvent>|
                        match event {
                            Some(event) => if expects(operation.expectation, event) {
                                probe(
                                    operation,
                                    Completion::MatchingEvent,
                                    started,
                                    Stage::Waiting { started, deadline, matching_event_seen: true },
                                )
                            } else {
                                Program::Return(
                                    Turn::Again(
                                        Stage::Waiting { started, deadline, matching_event_seen },
                                    ),
                                )
                            },
                            None => if operation.pace is Confirmed && !matching_event_seen {
                                Program::Return(
                                    Turn::Again(
                                        Stage::Waiting { started, deadline, matching_event_seen },
                                    ),
                                )
                            } else {
                                probe(
                                    operation,
                                    Completion::StateProbe,
                                    started,
                                    Stage::Waiting { started, deadline, matching_event_seen },
                                )
                            },
                        },
                )
            } else {
                dialogue::bind(
                    check_holds(operation.check),
                    |holds: bool|
                        if holds {
                            Program::Return(
                                Turn::Complete { by: Completion::DeadlineValidation, started },
                            )
                        } else {
                            Program::Fail(
                                error::timeout_failure(
                                    "timed out waiting for "@ + operation.description,
                                ),
                            )
                        },
                )
            },
    )
}

/// Whether a state has lasted long enough at a moment.
pub open spec fn is_stable(now: u64, since: u64) -> bool {
    now - since >= STABLE_STATE_NANOS
}

/// Whether the state has lasted long enough by now.
pub open spec fn stable_by_now(stable_since: Option<u64>) -> Program<bool> {
    match stable_since {
        None => Program::Return(false),
        Some(since) => dialogue::bind(
            rift::now(),
            |now: u64| Program::Return(is_stable(now, since)),
        ),
    }
}

/// One turn of settling. An expected event starts the count anew.
pub open spec fn settle_turn(
    operation: OperationView,
    started: u64,
    deadline: u128,
    stable_since: Option<u64>,
) -> Program<Turn> {
    dialogue::bind(
        rift::now(),
        |now: u64|
            if now < deadline {
                dialogue::bind(
                    stable_by_now(stable_since),
                    |stable: bool|
                        if stable {
                            Program::Return(
                                Turn::Complete { by: Completion::StableState, started },
                            )
                        } else {
                            dialogue::bind(
                                await_event(deadline),
                                |event: Option<RiftEvent>|
                                    match event {
                                        Some(event) => if expects(operation.expectation, event) {
                                            settled_since(operation, started, deadline, None)
                                        } else {
                                            Program::Return(
                                                Turn::Again(
                                                    Stage::Settling {
                                                        started,
                                                        deadline,
                                                        stable_since,
                                                    },
                                                ),
                                            )
                                        },
                                        None => settled_since(
                                            operation,
                                            started,
                                            deadline,
                                            stable_since,
                                        ),
                                    },
                            )
                        },
                )
            } else {
                Program::Fail(
                    error::timeout_failure(
                        "timed out waiting for stable "@ + operation.description,
                    ),
                )
            },
    )
}

/// The first turn of an operation.
pub open spec fn open_turn(operation: OperationView) -> Program<Turn> {
    dialogue::bind(
        ensure_budget(operation),
        |done: ()|
            match operation.pace {
                Pace::Step => submit(operation),
                Pace::Confirmed => drain(operation),
                Pace::Settle => begin_to_settle(operation),
            },
    )
}

/// One turn of an operation.
pub open spec fn turn(operation: OperationView, stage: Stage) -> Program<Turn> {
    match stage {
        Stage::Opening => open_turn(operation),
        Stage::Draining => drain(operation),
        Stage::Waiting { started, deadline, matching_event_seen } => wait_turn(
            operation,
            started,
            deadline,
            matching_event_seen,
        ),
        Stage::Settling { started, deadline, stable_since } => settle_turn(
            operation,
            started,
            deadline,
            stable_since,
        ),
    }
}

/// The contents of an event that was taken.
pub open spec fn seen_event(result: Result<Option<&RiftEvent>, Stop>) -> Result<
    Option<RiftEvent>,
    StopView,
> {
    match result {
        Ok(Some(event)) => Ok(Some(*event)),
        Ok(None) => Ok(None),
        Err(stop) => Err(stop@),
    }
}

fn receive<'a>(rift: &mut Rift<'a>, ask: Ask) -> (event: Result<Option<&'a RiftEvent>, Stop>)
    ensures
        dialogue::follows(
            take_event(ask@),
            old(rift).rest(),
            final(rift).rest(),
            seen_event(event),
        ),
{
    let reply = rift.ask(Request::Outside(ask))?;
    match reply {
        Reply::Event(event) => Ok(Some(event)),
        Reply::Nothing => Ok(None),
        Reply::SubscriptionFailed(message) => Err(
            Stop::Failed(state_error(join2("event subscription failed: ", message))),
        ),
        Reply::Disconnected => Err(
            Stop::Failed(state_error("event subscription disconnected".to_owned())),
        ),
        _ => Err(refused(reply)),
    }
}

fn receive_until<'a>(rift: &mut Rift<'a>, deadline: u128) -> (event: Result<
    Option<&'a RiftEvent>,
    Stop,
>)
    ensures
        dialogue::follows(
            await_event(deadline),
            old(rift).rest(),
            final(rift).rest(),
            seen_event(event),
        ),
{
    let now = rift.now()?;
    let wait_nanos: u64 = if deadline <= now as u128 {
        0
    } else {
        let remaining: u128 = deadline - now as u128;
        if remaining < STATE_PROBE_INTERVAL_NANOS as u128 {
            remaining as u64
        } else {
            STATE_PROBE_INTERVAL_NANOS
        }
    };
    receive(rift, Ask::Receive { wait_nanos })
}

impl Operation {
    fn ensure_budget(&self, rift: &mut Rift<'_>) -> (done: Result<(), Stop>)
        ensures
            dialogue::follows(
                ensure_budget(self@),
                old(rift).rest(),
                final(rift).rest(),
                dialogue::seen(done),
            ),
    {
        if let Some(deadline) = self.transaction.batch_deadline {
            let now = rift.now()?;
            if now as u128 >= deadline {
                return Err(
                    Stop::Failed(
                        timeout_error(join2("batch timeout exhausted before ", &self.description)),
                    ),
                );
            }
        }
        Ok(())
    }

    fn submit(&self, rift: &mut Rift<'_>) -> (turn: Result<Turn, Stop>)
        ensures
            dialogue::follows(
                submit(self@),
                old(rift).rest(),
                final(rift).rest(),
                dialogue::seen_value(turn),
            ),
    {
        let started = rift.now()?;
        let ghost begun = rift.rest();
        let mut at: usize = 0;
        #[verifier::loop_isolation(false)]
        while at < self.commands.len()
            invariant
                at <= self.commands.len(),
                dialogue::run(submit_from(self@.commands, 0), begun) == dialogue::run(
                    submit_from(self@.commands, at as int),
                    rift.rest(),
                ),
            decreases self.commands.len() - at,
        {
            rift.execute(self.commands[at].clone())?;
            at = at + 1;
        }
        Ok(
            Turn::Again(
                Stage::Waiting {
                    started,
                    deadline: self.transaction.deadline(started, self.timeout),
                    matching_event_seen: false,
                },
            ),
        )
    }

    fn drain_pending_events(&self, rift: &mut Rift<'_>) -> (turn: Result<Turn, Stop>)
        ensures
            dialogue::follows(
                drain(self@),
                old(rift).rest(),
                final(rift).rest(),
                dialogue::seen_value(turn),
            ),
    {
        match receive(rift, Ask::TryReceive)? {
            Some(_) => Ok(Turn::Again(Stage::Draining)),
            None => self.submit(rift),
        }
    }

    fn settled_since(
        &self,
        rift: &mut Rift<'_>,
        started: u64,
        deadline: u128,
        stable_since: Option<u64>,
    ) -> (turn: Result<Turn, Stop>)
        ensures
            dialogue::follows(
                settled_since(self@, started, deadline, stable_since),
                old(rift).rest(),
                final(rift).rest(),
                dialogue::seen_value(turn),
            ),
    {
        let stable_since = if !self.check.holds(rift)? {
            None
        } else if stable_since.is_some() {
            stable_since
        } else {
            Some(rift.now()?)
        };
        Ok(Turn::Again(Stage::Settling { started, deadline, stable_since }))
    }

    fn begin_to_settle(&self, rift: &mut Rift<'_>) -> (turn: Result<Turn, Stop>)
        ensures
            dialogue::follows(
                begin_to_settle(self@),
                old(rift).rest(),
                final(rift).rest(),
                dialogue::seen_value(turn),
            ),
    {
        let started = rift.now()?;
        let deadline = self.transaction.deadline(started, self.timeout);
        self.settled_since(rift, started, deadline, None)
    }

    fn probe(&self, rift: &mut Rift<'_>, by: Completion, started: u64, otherwise: Stage) -> (turn:
        Result<Turn, Stop>)
        ensures
            dialogue::follows(
                probe(self@, by, started, otherwise),
                old(rift).rest(),
                final(rift).rest(),
                dialogue::seen_value(turn),
            ),
    {
        if self.check.holds(rift)? {
            Ok(Turn::Complete { by, started })
        } else {
            Ok(Turn::Again(otherwise))
        }
    }

    fn wait_for_state(
        &self,
        rift: &mut Rift<'_>,
        started: u64,
        deadline: u128,
        matching_event_seen: bool,
    ) -> (turn: Result<Turn, Stop>)
        ensures
            dialogue::follows(
                wait_turn(self@, started, deadline, matching_event_seen),
                old(rift).rest(),
                final(rift).rest(),
                dialogue::seen_value(turn),
            ),
    {
        if (rift.now()? as u128) < deadline {
            let same = Stage::Waiting { started, deadline, matching_event_seen };
            match receive_until(rift, deadline)? {
                Some(event) => {
                    if self.expectation.matches(event) {
                        let seen = Stage::Waiting { started, deadline, matching_event_seen: true };
                        self.probe(rift, Completion::MatchingEvent, started, seen)
                    } else {
                        Ok(Turn::Again(same))
                    }
                },
                None => {
                    if self.pace == Pace::Confirmed && !matching_event_seen {
                        Ok(Turn::Again(same))
                    } else {
                        self.probe(rift, Completion::StateProbe, started, same)
                    }
                },
            }
        } else if self.check.holds(rift)? {
            Ok(Turn::Complete { by: Completion::DeadlineValidation, started })
        } else {
            Err(Stop::Failed(timeout_error(join2("timed out waiting for ", &self.description))))
        }
    }

    fn settle(
        &self,
        rift: &mut Rift<'_>,
        started: u64,
        deadline: u128,
        stable_since: Option<u64>,
    ) -> (turn: Result<Turn, Stop>)
        ensures
            dialogue::follows(
                settle_turn(self@, started, deadline, stable_since),
                old(rift).rest(),
                final(rift).rest(),
                dialogue::seen_value(turn),
            ),
    {
        if (rift.now()? as u128) < deadline {
            if let Some(since) = stable_since {
                let now = rift.now()?;
                if now >= since && now - since >= STABLE_STATE_NANOS {
                    return Ok(Turn::Complete { by: Completion::StableState, started });
                }
            }
            match receive_until(rift, deadline)? {
                Some(event) => {
                    if self.expectation.matches(event) {
                        self.settled_since(rift, started, deadline, None)
                    } else {
                        Ok(Turn::Again(Stage::Settling { started, deadline, stable_since }))
                    }
                },
                None => self.settled_since(rift, started, deadline, stable_since),
            }
        } else {
            Err(
                Stop::Failed(
                    timeout_error(join2("timed out waiting for stable ", &self.description)),
                ),
            )
        }
    }

    /// Takes one turn of the operation.
    pub fn turn(&self, rift: &mut Rift<'_>, stage: Stage) -> (taken: Result<Turn, Stop>)
        ensures
            dialogue::follows(
                turn(self@, stage),
                old(rift).rest(),
                final(rift).rest(),
                dialogue::seen_value(taken),
            ),
    {
        match stage {
            Stage::Opening => {
                self.ensure_budget(rift)?;
                match self.pace {
                    Pace::Step => self.submit(rift),
                    Pace::Confirmed => self.drain_pending_events(rift),
                    Pace::Settle => self.begin_to_settle(rift),
                }
            },
            Stage::Draining => self.drain_pending_events(rift),
            Stage::Waiting { started, deadline, matching_event_seen } => self.wait_for_state(
                rift,
                started,
                deadline,
                matching_event_seen,
            ),
            Stage::Settling { started, deadline, stable_since } => self.settle(
                rift,
                started,
                deadline,
                stable_since,
            ),
        }
    }
}

proof fn lemma_condition_looks(
    target: TargetView,
    workspace_name: Seq<char>,
    condition: ConditionView,
)
    ensures
        dialogue::asks_only(condition_holds(target, workspace_name, condition), dialogue::looks()),
{
    broadcast use dialogue::group_asks_only;

    match condition {
        ConditionView::WindowsAreAt(ids) => {
            rift::lemma_windows_are_at_looks(target, workspace_name, ids);
        },
        _ => {},
    }
}

proof fn lemma_check_looks_from(check: CheckView, at: int)
    ensures
        dialogue::asks_only(check_holds_from(check, at), dialogue::looks()),
    decreases check.conditions.len() - at,
{
    broadcast use dialogue::group_asks_only;

    if 0 <= at < check.conditions.len() {
        lemma_condition_looks(check.target, check.workspace_name, check.conditions[at]);
        lemma_check_looks_from(check, at + 1);
    }
}

/// A check does no more than look.
pub proof fn a_check_only_looks(check: CheckView)
    ensures
        dialogue::asks_only(check_holds(check), dialogue::looks()),
{
    reveal(check_holds);
    lemma_check_looks_from(check, 0);
}

proof fn lemma_submit_asks_outside(commands: Seq<CommandView>, at: int)
    ensures
        dialogue::asks_only(submit_from(commands, at), dialogue::outside_requests()),
    decreases commands.len() - at,
{
    broadcast use dialogue::group_asks_only;

    if 0 <= at < commands.len() {
        lemma_submit_asks_outside(commands, at + 1);
    }
}

/// A turn that waits or settles looks and waits, and has nothing executed.
pub proof fn waiting_changes_nothing(operation: OperationView, stage: Stage)
    requires
        stage is Waiting || stage is Settling,
    ensures
        dialogue::asks_only(turn(operation, stage), dialogue::looks_and_waits()),
{
    broadcast use dialogue::group_asks_only;

    a_check_only_looks(operation.check);
    dialogue::lemma_asks_only_of_more(
        check_holds(operation.check),
        dialogue::looks(),
        dialogue::looks_and_waits(),
    );
}

/// A turn asks the outside alone; it does not lead to a further operation.
pub proof fn a_turn_asks_the_outside_only(operation: OperationView, stage: Stage)
    ensures
        dialogue::asks_only(turn(operation, stage), dialogue::outside_requests()),
{
    broadcast use dialogue::group_asks_only;

    a_check_only_looks(operation.check);
    dialogue::lemma_asks_only_of_more(
        check_holds(operation.check),
        dialogue::looks(),
        dialogue::outside_requests(),
    );
    lemma_submit_asks_outside(operation.commands, 0);
    assert(dialogue::asks_only(submit(operation), dialogue::outside_requests()));
    assert(dialogue::asks_only(drain(operation), dialogue::outside_requests()));
    assert(dialogue::asks_only(begin_to_settle(operation), dialogue::outside_requests()));
}

} // verus!
