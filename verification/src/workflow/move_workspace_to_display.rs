//! Moving the windows of a workspace to the same workspace on a neighbouring display.
use crate::dialogue;
use crate::dialogue::{Next, Program, Reply, Rift, Stop};
use crate::error;
use crate::error::{is_timeout, state_error, ErrorView};
use crate::model;
use crate::model::{DisplayData, WindowData, WindowId};
use crate::rift;
use crate::rift::{FocusedWorkspace, FocusedWorkspaceView, TargetContext, TargetView};
use crate::text;
use crate::text::{decimal_text, join2, join3};
use crate::transaction;
use crate::transaction::{Check, Condition, ConditionView, RiftTransaction};
use crate::workflow;
use crate::workflow::placement;
use crate::workflow::{adjacent_display, DisplayDirection};
use vstd::prelude::*;

verus! {

broadcast use dialogue::group_run;

/// How often membership and focus are restored before that is given up.
pub const MAX_RECONCILIATION_ATTEMPTS: u64 = 3;

/// How often a single window is transferred on the fast path.
pub const SINGLETON_TRANSFER_ATTEMPTS: u64 = 2;

/// How long the first transfer of a single window may take, in milliseconds.
pub const SINGLETON_FAST_TRANSFER_TIMEOUT: u64 = 250;

/// How long focusing a single window may take, in milliseconds.
pub const SINGLETON_FOCUS_TIMEOUT: u64 = 500;

/// How long the transfer of a window may take, in milliseconds.
pub const WINDOW_TRANSFER_TIMEOUT: u64 = 1_000;

/// The steps of moving the windows of a workspace.
#[derive(Clone, Copy, Debug, PartialEq, Eq, Structural)]
pub enum MoveWorkspaceState {
    PrepareDestination,
    SubmitTransfers,
    ReassertWorkspace,
    FocusOriginalWindow,
    Verify,
    Settle,
    Complete,
}

/// An upper bound on the states that follow.
pub open spec fn states_left(state: MoveWorkspaceState) -> nat {
    match state {
        MoveWorkspaceState::PrepareDestination => 6,
        MoveWorkspaceState::SubmitTransfers => 5,
        MoveWorkspaceState::ReassertWorkspace => 4,
        MoveWorkspaceState::FocusOriginalWindow => 3,
        MoveWorkspaceState::Verify => 2,
        MoveWorkspaceState::Settle => 1,
        MoveWorkspaceState::Complete => 0,
    }
}

/// The program, with a timeout taken for an end.
pub open spec fn tolerating_timeout(program: Program<()>) -> Program<()> {
    dialogue::bind(
        dialogue::attempt(program),
        |result: Result<(), ErrorView>|
            match result {
                Ok(_) => Program::Return(()),
                Err(error) => if error.kind is TimedOut {
                    Program::Return(())
                } else {
                    Program::Fail(error)
                },
            },
    )
}

// ---------------------------------------------------------------------------
// One window.
// ---------------------------------------------------------------------------

/// The move of a single window.
pub struct SingletonView {
    pub transaction: RiftTransaction,
    pub target: TargetView,
    pub workspace_name: Seq<char>,
    pub window: WindowData,
}

/// How long an attempt to transfer the window may take.
pub open spec fn singleton_timeout(attempt: nat) -> u64 {
    if attempt == 1 {
        SINGLETON_FAST_TRANSFER_TIMEOUT
    } else {
        WINDOW_TRANSFER_TIMEOUT
    }
}

/// Transfers the window, in this and if need be in further attempts. Only a timeout calls for
/// a further one, and the last attempt reports it.
pub open spec fn singleton_transfer_from(work: SingletonView, attempt: nat) -> Program<()>
    decreases SINGLETON_TRANSFER_ATTEMPTS + 1 - attempt,
{
    if attempt > SINGLETON_TRANSFER_ATTEMPTS {
        Program::Fail(error::state_failure("singleton transfer attempts were exhausted"@))
    } else {
        dialogue::bind(
            dialogue::attempt(
                transaction::confirmed_step(
                    work.transaction,
                    "singleton physical transfer attempt "@ + text::decimal(attempt),
                    rift::transfer_of(work.target, work.window),
                    placement::of_workspace(work.target, work.workspace_name),
                    placement::checks_both(
                        work.target,
                        work.workspace_name,
                        ConditionView::WindowIsAt(work.window.id),
                        ConditionView::WindowIsOnDisplay(work.window.id),
                    ),
                    singleton_timeout(attempt),
                ),
            ),
            |result: Result<(), ErrorView>|
                match result {
                    Ok(_) => Program::Return(()),
                    Err(error) => if error.kind is TimedOut && attempt
                        < SINGLETON_TRANSFER_ATTEMPTS {
                        singleton_transfer_from(work, attempt + 1)
                    } else {
                        Program::Fail(error)
                    },
                },
        )
    }
}

/// Focuses the window; a timeout calls for one more transfer.
pub open spec fn singleton_focus(work: SingletonView) -> Program<()> {
    dialogue::bind(
        dialogue::attempt(
            transaction::confirmed_step(
                work.transaction,
                "singleton focus"@,
                rift::focus_of(work.window),
                placement::of_workspace(work.target, work.workspace_name),
                placement::checks(
                    work.target,
                    work.workspace_name,
                    ConditionView::WindowIsFocusedAt(work.window.id),
                ),
                SINGLETON_FOCUS_TIMEOUT,
            ),
        ),
        |result: Result<(), ErrorView>|
            match result {
                Ok(_) => Program::Return(()),
                Err(error) => if error.kind is TimedOut {
                    transaction::confirmed_step(
                        work.transaction,
                        "singleton focus recovery"@,
                        rift::transfer_of(work.target, work.window),
                        placement::of_workspace(work.target, work.workspace_name),
                        placement::checks_both(
                            work.target,
                            work.workspace_name,
                            ConditionView::WindowIsFocusedAt(work.window.id),
                            ConditionView::WindowIsOnDisplay(work.window.id),
                        ),
                        WINDOW_TRANSFER_TIMEOUT,
                    )
                } else {
                    Program::Fail(error)
                },
            },
    )
}

/// Moves a single window: prepares the destination, transfers the window, focuses it and
/// verifies where it is.
pub open spec fn singleton_move(work: SingletonView) -> Program<()> {
    dialogue::bind(
        placement::target_preparation(work.transaction, work.target, work.workspace_name),
        |prepared: ()|
            dialogue::bind(
                singleton_transfer_from(work, 1),
                |transferred: ()|
                    dialogue::bind(
                        singleton_focus(work),
                        |focused: ()|
                            placement::target_verification(
                                work.target,
                                work.workspace_name,
                                work.window,
                            ),
                    ),
            ),
    )
}

// ---------------------------------------------------------------------------
// The windows of a workspace.
// ---------------------------------------------------------------------------

/// The move of the windows of a workspace.
pub struct MoveWorkspaceView {
    pub transaction: RiftTransaction,
    pub target: TargetView,
    pub workspace_name: Seq<char>,
    pub windows: Seq<WindowData>,
    pub focused_window: WindowData,
}

/// Accepts the windows other than this one.
pub open spec fn other_than(id: WindowId) -> spec_fn(WindowData) -> bool {
    |window: WindowData| window.id != id
}

/// The windows in the order in which they are moved: the focused one last.
pub open spec fn ordered(work: MoveWorkspaceView) -> Seq<WindowData> {
    work.windows.filter(other_than(work.focused_window.id)).push(work.focused_window)
}

/// Those of the windows that are still to be moved, in the same order.
pub open spec fn pending(work: MoveWorkspaceView, ids: Seq<WindowId>) -> Seq<WindowData> {
    ordered(work).filter(model::is_one_of(ids))
}

/// Transfers one window to the destination's display. A timeout is left to what follows.
pub open spec fn display_transfer(
    work: MoveWorkspaceView,
    window: WindowData,
    purpose: Seq<char>,
) -> Program<()> {
    tolerating_timeout(
        transaction::confirmed_step(
            work.transaction,
            "window "@ + text::decimal(window.id.idx as nat) + purpose,
            rift::transfer_of(work.target, window),
            placement::of_display(work.target),
            placement::checks(
                work.target,
                work.workspace_name,
                ConditionView::WindowIsOnDisplay(window.id),
            ),
            WINDOW_TRANSFER_TIMEOUT,
        ),
    )
}

/// Transfers the windows from this one on.
pub open spec fn transfers_from(
    work: MoveWorkspaceView,
    windows: Seq<WindowData>,
    at: int,
) -> Program<()>
    decreases windows.len() - at,
{
    if at < 0 || at >= windows.len() {
        Program::Return(())
    } else {
        dialogue::bind(
            display_transfer(work, windows[at], " display transfer"@),
            |done: ()| transfers_from(work, windows, at + 1),
        )
    }
}

/// Transfers those of the windows from this one on that are not on the display.
pub open spec fn retransfers_from(
    work: MoveWorkspaceView,
    windows: Seq<WindowData>,
    at: int,
) -> Program<()>
    decreases windows.len() - at,
{
    if at < 0 || at >= windows.len() {
        Program::Return(())
    } else {
        dialogue::bind(
            rift::window_is_on_display(work.target, windows[at].id),
            |there: bool|
                if there {
                    retransfers_from(work, windows, at + 1)
                } else {
                    dialogue::bind(
                        display_transfer(work, windows[at], " display retry"@),
                        |done: ()| retransfers_from(work, windows, at + 1),
                    )
                },
        )
    }
}

/// The windows that are not where they are to go.
pub open spec fn missing(work: MoveWorkspaceView) -> Program<Seq<WindowId>> {
    rift::windows_missing_from_workspace(work.target, work.workspace_name, model::ids_of(work.windows))
}

/// Whether the windows are all where they are to go.
pub open spec fn all_there(work: MoveWorkspaceView) -> Program<bool> {
    rift::windows_are_at(work.target, work.workspace_name, model::ids_of(work.windows))
}

/// Whether the window that was focused is where it is to go, and focused.
pub open spec fn focus_restored(work: MoveWorkspaceView) -> Program<bool> {
    rift::window_is_focused_at(work.target, work.workspace_name, work.focused_window.id)
}

/// Moves windows to the workspace; whether all the windows are then there. A timeout counts
/// as a no.
pub open spec fn membership_reassertion(
    work: MoveWorkspaceView,
    windows: Seq<WindowData>,
    attempt: nat,
) -> Program<bool> {
    dialogue::bind(
        dialogue::attempt(
            transaction::confirmed_phase(
                work.transaction,
                "workspace membership reassertion attempt "@ + text::decimal(attempt),
                rift::placements_of(work.target, windows),
                placement::of_workspace(work.target, work.workspace_name),
                placement::checks(
                    work.target,
                    work.workspace_name,
                    ConditionView::WindowsAreAt(model::ids_of(windows)),
                ),
            ),
        ),
        |result: Result<(), ErrorView>|
            match result {
                Ok(_) => all_there(work),
                Err(error) => if error.kind is TimedOut {
                    Program::Return(false)
                } else {
                    Program::Fail(error)
                },
            },
    )
}

/// Moves the windows that are still to be moved, in this and if need be in further attempts.
pub open spec fn reassertion_from(
    work: MoveWorkspaceView,
    windows: Seq<WindowData>,
    attempt: nat,
) -> Program<()>
    decreases MAX_RECONCILIATION_ATTEMPTS + 1 - attempt,
{
    if attempt > MAX_RECONCILIATION_ATTEMPTS {
        Program::Fail(
            error::state_failure("workspace reconciliation did not converge after 3 attempts"@),
        )
    } else {
        dialogue::bind(
            retransfers_from(work, windows, 0),
            |retransferred: ()|
                dialogue::bind(
                    membership_reassertion(work, windows, attempt),
                    |there: bool|
                        if there {
                            Program::Return(())
                        } else {
                            dialogue::bind(
                                missing(work),
                                |ids: Seq<WindowId>|
                                    if pending(work, ids).len() == 0 {
                                        Program::Return(())
                                    } else {
                                        reassertion_from(work, pending(work, ids), attempt + 1)
                                    },
                            )
                        },
                ),
        )
    }
}

/// Moves the windows that are not where they are to go.
pub open spec fn reassertion(work: MoveWorkspaceView) -> Program<()> {
    dialogue::bind(
        missing(work),
        |ids: Seq<WindowId>|
            if pending(work, ids).len() == 0 {
                Program::Return(())
            } else {
                reassertion_from(work, pending(work, ids), 1)
            },
    )
}

/// Focuses the window that was focused, in this and if need be in further attempts.
pub open spec fn focus_restoration_from(work: MoveWorkspaceView, attempt: nat) -> Program<()>
    decreases MAX_RECONCILIATION_ATTEMPTS + 1 - attempt,
{
    if attempt > MAX_RECONCILIATION_ATTEMPTS {
        Program::Fail(
            error::state_failure("workspace focus restoration did not converge after 3 attempts"@),
        )
    } else {
        dialogue::bind(
            focus_restored(work),
            |restored: bool|
                if restored {
                    Program::Return(())
                } else {
                    dialogue::bind(
                        rift::window_is_at(
                            work.target,
                            work.workspace_name,
                            work.focused_window.id,
                        ),
                        |there: bool|
                            dialogue::bind(
                                if there {
                                    Program::Return(())
                                } else {
                                    reassertion(work)
                                },
                                |reasserted: ()|
                                    dialogue::bind(
                                        dialogue::attempt(focus_attempt(work, attempt)),
                                        |result: Result<(), ErrorView>|
                                            match result {
                                                Ok(_) => Program::Return(()),
                                                Err(error) => if error.kind is TimedOut {
                                                    focus_restoration_from(work, attempt + 1)
                                                } else {
                                                    Program::Fail(error)
                                                },
                                            },
                                    ),
                            ),
                    )
                },
        )
    }
}

/// One attempt to focus the window that was focused.
pub open spec fn focus_attempt(work: MoveWorkspaceView, attempt: nat) -> Program<()> {
    transaction::step(
        work.transaction,
        "workspace focus restoration attempt "@ + text::decimal(attempt),
        rift::focus_of(work.focused_window),
        placement::of_workspace(work.target, work.workspace_name),
        placement::checks(
            work.target,
            work.workspace_name,
            ConditionView::WindowIsFocusedAt(work.focused_window.id),
        ),
    )
}

/// Restores what is not as it should be.
pub open spec fn repair(work: MoveWorkspaceView) -> Program<()> {
    dialogue::bind(
        all_there(work),
        |there: bool|
            dialogue::bind(
                if there {
                    Program::Return(())
                } else {
                    reassertion(work)
                },
                |reasserted: ()|
                    dialogue::bind(
                        focus_restored(work),
                        |restored: bool|
                            if restored {
                                Program::Return(())
                            } else {
                                focus_restoration_from(work, 1)
                            },
                    ),
            ),
    )
}

/// Requires the windows to be where they are to go, and the window that was focused to be
/// focused.
pub open spec fn requirement(work: MoveWorkspaceView) -> Program<()> {
    dialogue::bind(
        all_there(work),
        |there: bool|
            if !there {
                Program::Fail(
                    error::state_failure(
                        "not every window reached workspace "@ + work.workspace_name + " on "@
                            + work.target.display_uuid,
                    ),
                )
            } else {
                dialogue::bind(
                    focus_restored(work),
                    |restored: bool|
                        if restored {
                            Program::Return(())
                        } else {
                            Program::Fail(
                                error::state_failure("original workspace focus was not restored"@),
                            )
                        },
                )
            },
    )
}

/// Restores what is not as it should be, then requires it.
pub open spec fn verification(work: MoveWorkspaceView) -> Program<()> {
    dialogue::bind(repair(work), |repaired: ()| requirement(work))
}

/// Waits for the windows and the focus to stay as they should be, then verifies them.
pub open spec fn settling(work: MoveWorkspaceView) -> Program<()> {
    dialogue::bind(
        transaction::settle(
            work.transaction,
            "workspace placement"@,
            placement::of_workspace(work.target, work.workspace_name),
            placement::checks_both(
                work.target,
                work.workspace_name,
                ConditionView::WindowsAreAt(model::ids_of(work.windows)),
                ConditionView::WindowIsFocusedAt(work.focused_window.id),
            ),
        ),
        |settled: ()| verification(work),
    )
}

/// What is left of the move from a state on.
pub open spec fn move_from(work: MoveWorkspaceView, state: MoveWorkspaceState) -> Program<()>
    decreases states_left(state),
{
    match state {
        MoveWorkspaceState::PrepareDestination => dialogue::bind(
            placement::target_preparation(work.transaction, work.target, work.workspace_name),
            |done: ()| move_from(work, MoveWorkspaceState::SubmitTransfers),
        ),
        MoveWorkspaceState::SubmitTransfers => dialogue::bind(
            transfers_from(work, ordered(work), 0),
            |done: ()| move_from(work, MoveWorkspaceState::ReassertWorkspace),
        ),
        MoveWorkspaceState::ReassertWorkspace => dialogue::bind(
            reassertion(work),
            |done: ()| move_from(work, MoveWorkspaceState::FocusOriginalWindow),
        ),
        MoveWorkspaceState::FocusOriginalWindow => dialogue::bind(
            focus_restoration_from(work, 1),
            |done: ()| move_from(work, MoveWorkspaceState::Verify),
        ),
        MoveWorkspaceState::Verify => dialogue::bind(
            verification(work),
            |done: ()| move_from(work, MoveWorkspaceState::Settle),
        ),
        MoveWorkspaceState::Settle => dialogue::bind(
            settling(work),
            |done: ()| move_from(work, MoveWorkspaceState::Complete),
        ),
        MoveWorkspaceState::Complete => Program::Return(()),
    }
}

/// Moves the windows as a batch.
pub open spec fn batch_move(
    target: TargetView,
    workspace_name: Seq<char>,
    source: FocusedWorkspaceView,
) -> Program<()> {
    dialogue::bind(
        transaction::begin_batch(source.workspace.windows@.len()),
        |transaction: RiftTransaction|
            move_from(
                MoveWorkspaceView {
                    transaction,
                    target,
                    workspace_name,
                    windows: source.workspace.windows@,
                    focused_window: source.focused_window,
                },
                MoveWorkspaceState::PrepareDestination,
            ),
    )
}

/// Tries the fast path for a single window; a timeout there leads to the full move, over the
/// destination as it is by then.
pub open spec fn singleton_or_batch_move(
    target: TargetView,
    workspace_name: Seq<char>,
    source: FocusedWorkspaceView,
) -> Program<()> {
    dialogue::bind(
        transaction::begin_single(),
        |transaction: RiftTransaction|
            dialogue::bind(
                dialogue::attempt(
                    singleton_move(
                        SingletonView {
                            transaction,
                            target,
                            workspace_name,
                            window: source.focused_window,
                        },
                    ),
                ),
                |result: Result<(), ErrorView>|
                    match result {
                        Ok(_) => Program::Return(()),
                        Err(error) => if error.kind is TimedOut {
                            dialogue::bind(
                                rift::displays(),
                                |refreshed: Seq<DisplayData>|
                                    dialogue::bind(
                                        rift::target_context(
                                            workspace_name,
                                            target.display_uuid,
                                            refreshed,
                                        ),
                                        |target: TargetView|
                                            batch_move(target, workspace_name, source),
                                    ),
                            )
                        } else {
                            Program::Fail(error)
                        },
                    },
            ),
    )
}

/// The focused workspace and the same workspace on a neighbouring display.
pub struct Departure {
    pub target: TargetView,
    pub source: FocusedWorkspaceView,
}

/// Finds the workspace on the neighbouring display.
pub open spec fn departure_to(
    neighbour: Option<DisplayData>,
    displays: Seq<DisplayData>,
    source: FocusedWorkspaceView,
) -> Program<Option<Departure>> {
    match neighbour {
        None => Program::Return(None),
        Some(display) => dialogue::bind(
            rift::target_context(source.workspace.name@, display.uuid@, displays),
            |target: TargetView| Program::Return(Some(Departure { target, source })),
        ),
    }
}

/// Finds the focused workspace and the same workspace on a neighbouring display; none where
/// there is no second display.
pub open spec fn departure(direction: DisplayDirection) -> Program<Option<Departure>> {
    dialogue::bind(
        rift::connect(),
        |connected: ()|
            dialogue::bind(
                rift::displays(),
                |displays: Seq<DisplayData>|
                    dialogue::bind(
                        rift::focused_workspace(displays),
                        |source: FocusedWorkspaceView|
                            dialogue::bind(
                                dialogue::decided(
                                    workflow::neighbour(displays, source.display_uuid, direction),
                                ),
                                |neighbour: Option<DisplayData>|
                                    departure_to(neighbour, displays, source),
                            ),
                    ),
            ),
    )
}

/// Moves the windows: a single one by the fast path, if that does.
pub open spec fn move_of(departure: Departure) -> Program<()> {
    if departure.source.workspace.windows@.len() == 1 {
        singleton_or_batch_move(
            departure.target,
            departure.source.workspace.name@,
            departure.source,
        )
    } else {
        batch_move(departure.target, departure.source.workspace.name@, departure.source)
    }
}

/// Moves the windows of the focused workspace to the same workspace on a neighbouring
/// display. Without a second display nothing is done.
pub open spec fn move_workspace_program(direction: DisplayDirection) -> Program<()> {
    dialogue::bind(
        departure(direction),
        |found: Option<Departure>|
            match found {
                None => Program::Return(()),
                Some(departure) => move_of(departure),
            },
    )
}

// ---------------------------------------------------------------------------
// The executable workflow.
// ---------------------------------------------------------------------------

/// Takes a timeout for an end.
fn tolerate_timeout(result: Result<(), Stop>) -> (tolerated: Result<(), Stop>)
    ensures
        match result {
            Err(Stop::Failed(error)) if error@.kind is TimedOut => tolerated == Ok::<(), Stop>(()),
            _ => tolerated == result,
        },
{
    match result {
        Err(Stop::Failed(error)) => if is_timeout(&error) {
            Ok(())
        } else {
            Err(Stop::Failed(error))
        },
        other => other,
    }
}

/// Moves the windows of the focused workspace to the same workspace on a neighbouring display.
pub fn move_workspace_to_display(direction: DisplayDirection, replies: &Vec<Reply>) -> (next: Next)
    ensures
        dialogue::reaches(move_workspace_program(direction), replies@, next),
{
    let mut rift = Rift::over(replies);
    let result = move_workspace(&mut rift, direction);
    dialogue::conclude(result)
}

fn move_workspace<'a>(rift: &mut Rift<'a>, direction: DisplayDirection) -> (done: Result<(), Stop>)
    ensures
        dialogue::follows(
            move_workspace_program(direction),
            old(rift).rest(),
            final(rift).rest(),
            dialogue::seen(done),
        ),
{
    rift.connect()?;
    let displays = rift.displays()?;
    let source = rift.focused_workspace(displays)?;
    let adjacent = match adjacent_display(displays, &source.display_uuid, direction) {
        Ok(adjacent) => adjacent,
        Err(error) => {
            return Err(Stop::Failed(error));
        },
    };
    let display = match adjacent {
        Some(display) => display,
        None => {
            return Ok(());
        },
    };
    let target = rift.target_context(&source.workspace.name, display.uuid.clone(), displays)?;
    if source.workspace.windows.len() == 1 {
        move_singleton_or_batch(rift, target, &source)
    } else {
        move_batch(rift, target, &source)
    }
}

/// Tries the fast path for a single window, and the full move where that takes too long.
fn move_singleton_or_batch(
    rift: &mut Rift<'_>,
    target: TargetContext,
    source: &FocusedWorkspace<'_>,
) -> (done: Result<(), Stop>)
    ensures
        dialogue::follows(
            singleton_or_batch_move(target@, source@.workspace.name@, source@),
            old(rift).rest(),
            final(rift).rest(),
            dialogue::seen(done),
        ),
{
    let transaction = RiftTransaction::new(rift)?;
    let moved = move_singleton(
        rift,
        transaction,
        &target,
        &source.workspace.name,
        source.focused_window,
    );
    match moved {
        Err(Stop::Failed(error)) => {
            if !is_timeout(&error) {
                return Err(Stop::Failed(error));
            }
            let refreshed = rift.displays()?;
            let target = rift.target_context(
                &source.workspace.name,
                target.display_uuid,
                refreshed,
            )?;
            move_batch(rift, target, source)
        },
        moved => moved,
    }
}

/// Moves the windows as a batch.
fn move_batch(rift: &mut Rift<'_>, target: TargetContext, source: &FocusedWorkspace<'_>) -> (done:
    Result<(), Stop>)
    ensures
        dialogue::follows(
            batch_move(target@, source@.workspace.name@, source@),
            old(rift).rest(),
            final(rift).rest(),
            dialogue::seen(done),
        ),
{
    let transaction = RiftTransaction::for_batch(rift, source.workspace.windows.len())?;
    let work = MoveWorkspaceWorkflow {
        transaction,
        target,
        workspace_name: &source.workspace.name,
        windows: &source.workspace.windows,
        focused_window: source.focused_window,
    };
    work.run(rift)
}

/// Moves a single window: prepares the destination, transfers the window, focuses it and
/// verifies where it is.
pub fn move_singleton(
    rift: &mut Rift<'_>,
    transaction: RiftTransaction,
    target: &TargetContext,
    workspace_name: &str,
    window: &WindowData,
) -> (done: Result<(), Stop>)
    ensures
        dialogue::follows(
            singleton_move(
                SingletonView {
                    transaction,
                    target: target@,
                    workspace_name: workspace_name@,
                    window: *window,
                },
            ),
            old(rift).rest(),
            final(rift).rest(),
            dialogue::seen(done),
        ),
{
    let ghost work = SingletonView {
        transaction,
        target: target@,
        workspace_name: workspace_name@,
        window: *window,
    };
    placement::prepare_target(rift, transaction, target, workspace_name)?;

    let ghost begun = rift.rest();
    let mut transferred = false;
    let mut attempt: u64 = 1;
    #[verifier::loop_isolation(false)]
    while !transferred
        invariant
            1 <= attempt <= SINGLETON_TRANSFER_ATTEMPTS,
            dialogue::run(singleton_transfer_from(work, 1), begun) == if transferred {
                dialogue::run(Program::Return(()), rift.rest())
            } else {
                dialogue::run(singleton_transfer_from(work, attempt as nat), rift.rest())
            },
        decreases SINGLETON_TRANSFER_ATTEMPTS - attempt + (if transferred { 0int } else { 1 }),
    {
        let timeout: u64 = if attempt == 1 {
            SINGLETON_FAST_TRANSFER_TIMEOUT
        } else {
            WINDOW_TRANSFER_TIMEOUT
        };
        let command = rift.transfer_window_command(target, window);
        let result = transaction.confirmed_step_with_timeout(
            rift,
            &join2("singleton physical transfer attempt ", &decimal_text(attempt)),
            command,
            placement::workspace_events(target, workspace_name),
            Check::both(
                target,
                workspace_name,
                Condition::WindowIsAt(window.id),
                Condition::WindowIsOnDisplay(window.id),
            ),
            timeout,
        );
        match result {
            Ok(()) => {
                transferred = true;
            },
            Err(Stop::Failed(error)) => {
                if is_timeout(&error) && attempt < SINGLETON_TRANSFER_ATTEMPTS {
                    attempt = attempt + 1;
                } else {
                    return Err(Stop::Failed(error));
                }
            },
            Err(stop) => {
                return Err(stop);
            },
        }
    }

    let command = rift.focus_window_command(window);
    let result = transaction.confirmed_step_with_timeout(
        rift,
        "singleton focus",
        command,
        placement::workspace_events(target, workspace_name),
        Check::one(target, workspace_name, Condition::WindowIsFocusedAt(window.id)),
        SINGLETON_FOCUS_TIMEOUT,
    );
    match result {
        Ok(()) => {},
        Err(Stop::Failed(error)) => {
            if !is_timeout(&error) {
                return Err(Stop::Failed(error));
            }
            let command = rift.transfer_window_command(target, window);
            transaction.confirmed_step_with_timeout(
                rift,
                "singleton focus recovery",
                command,
                placement::workspace_events(target, workspace_name),
                Check::both(
                    target,
                    workspace_name,
                    Condition::WindowIsFocusedAt(window.id),
                    Condition::WindowIsOnDisplay(window.id),
                ),
                WINDOW_TRANSFER_TIMEOUT,
            )?;
        },
        Err(stop) => {
            return Err(stop);
        },
    }

    placement::verify_target(rift, target, workspace_name, window)
}

/// The move of the windows of a workspace.
pub struct MoveWorkspaceWorkflow<'a> {
    pub transaction: RiftTransaction,
    pub target: TargetContext,
    pub workspace_name: &'a str,
    pub windows: &'a Vec<WindowData>,
    pub focused_window: &'a WindowData,
}

impl View for MoveWorkspaceWorkflow<'_> {
    type V = MoveWorkspaceView;

    open spec fn view(&self) -> MoveWorkspaceView {
        MoveWorkspaceView {
            transaction: self.transaction,
            target: self.target@,
            workspace_name: self.workspace_name@,
            windows: self.windows@,
            focused_window: *self.focused_window,
        }
    }
}

impl MoveWorkspaceWorkflow<'_> {
    /// Carries the move out, state by state.
    pub fn run(&self, rift: &mut Rift<'_>) -> (done: Result<(), Stop>)
        ensures
            dialogue::follows(
                move_from(self@, MoveWorkspaceState::PrepareDestination),
                old(rift).rest(),
                final(rift).rest(),
                dialogue::seen(done),
            ),
    {
        let mut state = MoveWorkspaceState::PrepareDestination;
        #[verifier::loop_isolation(false)]
        while state != MoveWorkspaceState::Complete
            invariant
                dialogue::run(
                    move_from(self@, MoveWorkspaceState::PrepareDestination),
                    old(rift).rest(),
                ) == dialogue::run(move_from(self@, state), rift.rest()),
            decreases states_left(state),
        {
            state =
            match state {
                MoveWorkspaceState::PrepareDestination => {
                    placement::prepare_target(
                        rift,
                        self.transaction,
                        &self.target,
                        self.workspace_name,
                    )?;
                    MoveWorkspaceState::SubmitTransfers
                },
                MoveWorkspaceState::SubmitTransfers => {
                    self.submit_transfers(rift)?;
                    MoveWorkspaceState::ReassertWorkspace
                },
                MoveWorkspaceState::ReassertWorkspace => {
                    self.reassert_workspace(rift)?;
                    MoveWorkspaceState::FocusOriginalWindow
                },
                MoveWorkspaceState::FocusOriginalWindow => {
                    self.focus_original_window(rift)?;
                    MoveWorkspaceState::Verify
                },
                MoveWorkspaceState::Verify => {
                    self.verify(rift)?;
                    MoveWorkspaceState::Settle
                },
                MoveWorkspaceState::Settle => {
                    self.settle(rift)?;
                    MoveWorkspaceState::Complete
                },
                MoveWorkspaceState::Complete => MoveWorkspaceState::Complete,
            };
        }
        Ok(())
    }

    fn transfer(&self, rift: &mut Rift<'_>, window: &WindowData, purpose: &str) -> (done: Result<
        (),
        Stop,
    >)
        ensures
            dialogue::follows(
                display_transfer(self@, *window, purpose@),
                old(rift).rest(),
                final(rift).rest(),
                dialogue::seen(done),
            ),
    {
        let command = rift.transfer_window_command(&self.target, window);
        let result = self.transaction.confirmed_step_with_timeout(
            rift,
            &join3("window ", &decimal_text(window.id.idx as u64), purpose),
            command,
            placement::display_events(&self.target),
            Check::one(
                &self.target,
                self.workspace_name,
                Condition::WindowIsOnDisplay(window.id),
            ),
            WINDOW_TRANSFER_TIMEOUT,
        );
        tolerate_timeout(result)
    }

    fn submit_transfers(&self, rift: &mut Rift<'_>) -> (done: Result<(), Stop>)
        ensures
            dialogue::follows(
                transfers_from(self@, ordered(self@), 0),
                old(rift).rest(),
                final(rift).rest(),
                dialogue::seen(done),
            ),
    {
        let windows = self.ordered_windows();
        let mut at: usize = 0;
        #[verifier::loop_isolation(false)]
        while at < windows.len()
            invariant
                at <= windows.len(),
                dialogue::run(transfers_from(self@, windows@, 0), old(rift).rest())
                    == dialogue::run(transfers_from(self@, windows@, at as int), rift.rest()),
            decreases windows.len() - at,
        {
            self.transfer(rift, &windows[at], " display transfer")?;
            at = at + 1;
        }
        Ok(())
    }

    fn focus_original_window(&self, rift: &mut Rift<'_>) -> (done: Result<(), Stop>)
        ensures
            dialogue::follows(
                focus_restoration_from(self@, 1),
                old(rift).rest(),
                final(rift).rest(),
                dialogue::seen(done),
            ),
    {
        let id = self.focused_window.id;
        let mut attempt: u64 = 1;
        #[verifier::loop_isolation(false)]
        while attempt <= MAX_RECONCILIATION_ATTEMPTS
            invariant
                1 <= attempt <= MAX_RECONCILIATION_ATTEMPTS + 1,
                dialogue::run(focus_restoration_from(self@, 1), old(rift).rest()) == dialogue::run(
                    focus_restoration_from(self@, attempt as nat),
                    rift.rest(),
                ),
            decreases MAX_RECONCILIATION_ATTEMPTS + 1 - attempt,
        {
            if rift.window_is_focused_at(&self.target, self.workspace_name, id)? {
                return Ok(());
            }
            if !rift.window_is_at(&self.target, self.workspace_name, id)? {
                self.reassert_workspace(rift)?;
            }
            let command = rift.focus_window_command(self.focused_window);
            let result = self.transaction.step(
                rift,
                &join2("workspace focus restoration attempt ", &decimal_text(attempt)),
                command,
                placement::workspace_events(&self.target, self.workspace_name),
                Check::one(&self.target, self.workspace_name, Condition::WindowIsFocusedAt(id)),
            );
            match result {
                Ok(()) => {
                    return Ok(());
                },
                Err(Stop::Failed(error)) => {
                    if !is_timeout(&error) {
                        return Err(Stop::Failed(error));
                    }
                },
                Err(stop) => {
                    return Err(stop);
                },
            }
            attempt = attempt + 1;
        }
        Err(
            Stop::Failed(
                state_error(
                    "workspace focus restoration did not converge after 3 attempts".to_owned(),
                ),
            ),
        )
    }

    fn reassert_workspace(&self, rift: &mut Rift<'_>) -> (done: Result<(), Stop>)
        ensures
            dialogue::follows(
                reassertion(self@),
                old(rift).rest(),
                final(rift).rest(),
                dialogue::seen(done),
            ),
    {
        let ids = self.window_ids();
        let missing = rift.windows_missing_from_workspace(
            &self.target,
            self.workspace_name,
            &ids,
        )?;
        let mut pending = self.pending_windows(&missing);
        if pending.len() == 0 {
            return Ok(());
        }
        let mut attempt: u64 = 1;
        #[verifier::loop_isolation(false)]
        while attempt <= MAX_RECONCILIATION_ATTEMPTS
            invariant
                1 <= attempt <= MAX_RECONCILIATION_ATTEMPTS + 1,
                dialogue::run(reassertion(self@), old(rift).rest()) == dialogue::run(
                    reassertion_from(self@, pending@, attempt as nat),
                    rift.rest(),
                ),
            decreases MAX_RECONCILIATION_ATTEMPTS + 1 - attempt,
        {
            self.retransfer_missing_windows(rift, &pending)?;
            if self.reassert_membership(rift, &pending, attempt)? {
                return Ok(());
            }
            let missing = rift.windows_missing_from_workspace(
                &self.target,
                self.workspace_name,
                &ids,
            )?;
            pending = self.pending_windows(&missing);
            if pending.len() == 0 {
                return Ok(());
            }
            attempt = attempt + 1;
        }
        Err(
            Stop::Failed(
                state_error("workspace reconciliation did not converge after 3 attempts".to_owned()),
            ),
        )
    }

    fn reassert_membership(
        &self,
        rift: &mut Rift<'_>,
        windows: &Vec<WindowData>,
        attempt: u64,
    ) -> (there: Result<bool, Stop>)
        ensures
            dialogue::follows(
                membership_reassertion(self@, windows@, attempt as nat),
                old(rift).rest(),
                final(rift).rest(),
                dialogue::seen(there),
            ),
    {
        let commands = rift.placement_commands(&self.target, windows);
        let result = self.transaction.confirmed_phase(
            rift,
            &join2("workspace membership reassertion attempt ", &decimal_text(attempt)),
            commands,
            placement::workspace_events(&self.target, self.workspace_name),
            Check::one(
                &self.target,
                self.workspace_name,
                Condition::WindowsAreAt(model::collect_ids(windows)),
            ),
        );
        match result {
            Ok(()) => rift.windows_are_at(&self.target, self.workspace_name, &self.window_ids()),
            Err(Stop::Failed(error)) => if is_timeout(&error) {
                Ok(false)
            } else {
                Err(Stop::Failed(error))
            },
            Err(stop) => Err(stop),
        }
    }

    fn retransfer_missing_windows(&self, rift: &mut Rift<'_>, windows: &Vec<WindowData>) -> (done:
        Result<(), Stop>)
        ensures
            dialogue::follows(
                retransfers_from(self@, windows@, 0),
                old(rift).rest(),
                final(rift).rest(),
                dialogue::seen(done),
            ),
    {
        let mut at: usize = 0;
        #[verifier::loop_isolation(false)]
        while at < windows.len()
            invariant
                at <= windows.len(),
                dialogue::run(retransfers_from(self@, windows@, 0), old(rift).rest())
                    == dialogue::run(retransfers_from(self@, windows@, at as int), rift.rest()),
            decreases windows.len() - at,
        {
            if !rift.window_is_on_display(&self.target, windows[at].id)? {
                self.transfer(rift, &windows[at], " display retry")?;
            }
            at = at + 1;
        }
        Ok(())
    }

    fn verify(&self, rift: &mut Rift<'_>) -> (done: Result<(), Stop>)
        ensures
            dialogue::follows(
                verification(self@),
                old(rift).rest(),
                final(rift).rest(),
                dialogue::seen(done),
            ),
    {
        let ids = self.window_ids();
        let id = self.focused_window.id;
        if !rift.windows_are_at(&self.target, self.workspace_name, &ids)? {
            self.reassert_workspace(rift)?;
        }
        if !rift.window_is_focused_at(&self.target, self.workspace_name, id)? {
            self.focus_original_window(rift)?;
        }
        if !rift.windows_are_at(&self.target, self.workspace_name, &ids)? {
            let mut message = join3(
                "not every window reached workspace ",
                self.workspace_name,
                " on ",
            );
            message.append(&self.target.display_uuid);
            return Err(Stop::Failed(state_error(message)));
        }
        if !rift.window_is_focused_at(&self.target, self.workspace_name, id)? {
            return Err(
                Stop::Failed(state_error("original workspace focus was not restored".to_owned())),
            );
        }
        Ok(())
    }

    fn settle(&self, rift: &mut Rift<'_>) -> (done: Result<(), Stop>)
        ensures
            dialogue::follows(
                settling(self@),
                old(rift).rest(),
                final(rift).rest(),
                dialogue::seen(done),
            ),
    {
        self.transaction.settle(
            rift,
            "workspace placement",
            placement::workspace_events(&self.target, self.workspace_name),
            Check::both(
                &self.target,
                self.workspace_name,
                Condition::WindowsAreAt(self.window_ids()),
                Condition::WindowIsFocusedAt(self.focused_window.id),
            ),
        )?;
        self.verify(rift)
    }

    fn window_ids(&self) -> (ids: Vec<WindowId>)
        ensures
            ids@ == model::ids_of(self@.windows),
    {
        model::collect_ids(self.windows)
    }

    /// The windows in the order in which they are moved: the focused one last.
    pub fn ordered_windows(&self) -> (windows: Vec<WindowData>)
        ensures
            windows@ == ordered(self@),
    {
        let ghost kept = other_than(self@.focused_window.id);
        let mut windows: Vec<WindowData> = Vec::new();
        let mut at: usize = 0;
        #[verifier::loop_isolation(false)]
        while at < self.windows.len()
            invariant
                at <= self.windows.len(),
                windows@ == self.windows@.take(at as int).filter(kept),
            decreases self.windows.len() - at,
        {
            let window = &self.windows[at];
            proof {
                model::lemma_filter_next(self.windows@, kept, at as int);
            }
            if window.id != self.focused_window.id {
                windows.push(window.clone());
            }
            at = at + 1;
        }
        assert(self.windows@.take(at as int) =~= self.windows@);
        windows.push(self.focused_window.clone());
        windows
    }

    /// Those of the windows that are still to be moved, in the same order.
    pub fn pending_windows(&self, ids: &Vec<WindowId>) -> (windows: Vec<WindowData>)
        ensures
            windows@ == pending(self@, ids@),
    {
        model::select_windows(&self.ordered_windows(), ids)
    }
}

} // verus!
