//! Placing one window: on the display it is on, or across displays.
use crate::dialogue;
use crate::dialogue::{Program, Rift, Stop};
use crate::error;
use crate::error::{state_error, ErrorView};
use crate::model::WindowData;
use crate::rift;
use crate::rift::{FocusedWindow, FocusedWindowView, LocationView, TargetContext, TargetView};
use crate::text::{join2, same_text};
use crate::transaction;
use crate::transaction::{
    Check, CheckView, Condition, ConditionView, EventExpectation, ExpectationView, RiftTransaction,
};
use vstd::prelude::*;

verus! {

broadcast use dialogue::group_run;

/// The steps of moving a window across displays.
#[derive(Clone, Copy, Debug, PartialEq, Eq, Structural)]
pub enum CrossDisplayState {
    PrepareDestination,
    SeedDestination,
    TransferWindow,
    FollowTransferredWindow,
    FocusTransferredWindow,
    Verify,
    Complete,
}

/// The events of a destination's display.
pub open spec fn of_display(target: TargetView) -> ExpectationView {
    ExpectationView::Display(target.display_uuid)
}

/// The events of the named workspace on a destination's display.
pub open spec fn of_workspace(target: TargetView, workspace_name: Seq<char>) -> ExpectationView {
    ExpectationView::Workspace { display_uuid: target.display_uuid, workspace_name }
}

/// Expects the events of a destination's display.
pub fn display_events(target: &TargetContext) -> (expectation: EventExpectation)
    ensures
        expectation@ == of_display(target@),
{
    EventExpectation::Display(target.display_uuid.clone())
}

/// Expects the events of the named workspace on a destination's display.
pub fn workspace_events(target: &TargetContext, workspace_name: &str) -> (expectation:
    EventExpectation)
    ensures
        expectation@ == of_workspace(target@, workspace_name@),
{
    EventExpectation::Workspace {
        display_uuid: target.display_uuid.clone(),
        workspace_name: workspace_name.to_owned(),
    }
}

/// The check of one condition at a destination.
pub open spec fn checks(
    target: TargetView,
    workspace_name: Seq<char>,
    condition: ConditionView,
) -> CheckView {
    transaction::check_of(target, workspace_name, seq![condition])
}

/// The check of two conditions at a destination.
pub open spec fn checks_both(
    target: TargetView,
    workspace_name: Seq<char>,
    first: ConditionView,
    second: ConditionView,
) -> CheckView {
    transaction::check_of(target, workspace_name, seq![first, second])
}

/// Whether the focused window is already where it is to go.
pub open spec fn is_at_target(
    focused: FocusedWindowView,
    target: TargetView,
    workspace_name: Seq<char>,
) -> bool {
    &&& focused.location.display_uuid == target.display_uuid
    &&& focused.location.workspace_name == workspace_name
    &&& focused.location.is_focused
}

/// Focuses a destination's display, unless it has the keyboard.
pub open spec fn focus_target_display(
    transaction: RiftTransaction,
    target: TargetView,
    workspace_name: Seq<char>,
) -> Program<()> {
    if target.display_is_active {
        Program::Return(())
    } else {
        transaction::step(
            transaction,
            "target display focus"@,
            rift::focus_destination(target),
            of_display(target),
            checks(target, workspace_name, ConditionView::DisplayIsActive),
        )
    }
}

/// Activates a destination's workspace, unless it is active.
pub open spec fn activate_target_workspace(
    transaction: RiftTransaction,
    target: TargetView,
    workspace_name: Seq<char>,
) -> Program<()> {
    if target.workspace_is_active {
        Program::Return(())
    } else {
        transaction::step(
            transaction,
            "target workspace activation"@,
            rift::activation_of(target),
            of_workspace(target, workspace_name),
            checks(target, workspace_name, ConditionView::WorkspaceIsActive),
        )
    }
}

/// Focuses a destination's display and activates its workspace, as far as needed.
pub open spec fn target_preparation(
    transaction: RiftTransaction,
    target: TargetView,
    workspace_name: Seq<char>,
) -> Program<()> {
    dialogue::bind(
        focus_target_display(transaction, target, workspace_name),
        |done: ()| activate_target_workspace(transaction, target, workspace_name),
    )
}

/// The move of one window across displays.
pub struct CrossDisplayView {
    pub transaction: RiftTransaction,
    pub target: TargetView,
    pub workspace_name: Seq<char>,
    pub window: WindowData,
}

/// Whether the destination's display cannot be focused as it is: Rift focuses a display by
/// a window on it, and there is none.
pub open spec fn has_no_focus_anchor(target: TargetView) -> bool {
    !target.display_is_active && target.focus_anchor is None
}

/// Transfers the window first and focuses the display by it.
pub open spec fn destination_seeding(work: CrossDisplayView) -> Program<()> {
    dialogue::bind(
        transaction::step(
            work.transaction,
            "window transfer to unfocusable display"@,
            rift::transfer_of(work.target, work.window),
            of_display(work.target),
            checks(
                work.target,
                work.workspace_name,
                ConditionView::WindowIsOnDisplay(work.window.id),
            ),
        ),
        |done: ()|
            transaction::step(
                work.transaction,
                "target display focus via transferred window"@,
                rift::focus_of(work.window),
                of_display(work.target),
                checks(work.target, work.workspace_name, ConditionView::DisplayIsActive),
            ),
    )
}

/// Transfers the window to the destination's display.
pub open spec fn window_transfer(work: CrossDisplayView) -> Program<()> {
    transaction::step(
        work.transaction,
        "window transfer"@,
        rift::transfer_of(work.target, work.window),
        of_workspace(work.target, work.workspace_name),
        checks(work.target, work.workspace_name, ConditionView::WindowIsAt(work.window.id)),
    )
}

/// Moves the transferred window to the workspace and follows it.
pub open spec fn transferred_window_follow(work: CrossDisplayView) -> Program<()> {
    transaction::step(
        work.transaction,
        "transferred window follow"@,
        rift::placement_of(work.target, work.window, true),
        of_workspace(work.target, work.workspace_name),
        checks_both(
            work.target,
            work.workspace_name,
            ConditionView::WorkspaceIsActive,
            ConditionView::WindowIsAt(work.window.id),
        ),
    )
}

/// Focuses the transferred window, unless it is focused.
pub open spec fn transferred_window_focus(work: CrossDisplayView) -> Program<()> {
    dialogue::bind(
        rift::window_is_focused_at(work.target, work.workspace_name, work.window.id),
        |focused: bool|
            if focused {
                Program::Return(())
            } else {
                transaction::step(
                    work.transaction,
                    "transferred window focus"@,
                    rift::focus_of(work.window),
                    of_workspace(work.target, work.workspace_name),
                    checks(
                        work.target,
                        work.workspace_name,
                        ConditionView::WindowIsFocusedAt(work.window.id),
                    ),
                )
            },
    )
}

/// What is left of the move from a state on.
pub open spec fn cross_display_from(work: CrossDisplayView, state: CrossDisplayState) -> Program<()>
    decreases states_left(state),
{
    match state {
        CrossDisplayState::PrepareDestination => if has_no_focus_anchor(work.target) {
            cross_display_from(work, CrossDisplayState::SeedDestination)
        } else {
            dialogue::bind(
                target_preparation(work.transaction, work.target, work.workspace_name),
                |done: ()| cross_display_from(work, CrossDisplayState::TransferWindow),
            )
        },
        CrossDisplayState::SeedDestination => dialogue::bind(
            destination_seeding(work),
            |done: ()| cross_display_from(work, CrossDisplayState::FollowTransferredWindow),
        ),
        CrossDisplayState::TransferWindow => dialogue::bind(
            window_transfer(work),
            |done: ()| cross_display_from(work, CrossDisplayState::FollowTransferredWindow),
        ),
        CrossDisplayState::FollowTransferredWindow => dialogue::bind(
            transferred_window_follow(work),
            |done: ()| cross_display_from(work, CrossDisplayState::FocusTransferredWindow),
        ),
        CrossDisplayState::FocusTransferredWindow => dialogue::bind(
            transferred_window_focus(work),
            |done: ()| cross_display_from(work, CrossDisplayState::Verify),
        ),
        CrossDisplayState::Verify => dialogue::bind(
            target_verification(work.target, work.workspace_name, work.window),
            |done: ()| cross_display_from(work, CrossDisplayState::Complete),
        ),
        CrossDisplayState::Complete => Program::Return(()),
    }
}

/// An upper bound on the states that follow.
pub open spec fn states_left(state: CrossDisplayState) -> nat {
    match state {
        CrossDisplayState::PrepareDestination => 6,
        CrossDisplayState::SeedDestination => 5,
        CrossDisplayState::TransferWindow => 4,
        CrossDisplayState::FollowTransferredWindow => 3,
        CrossDisplayState::FocusTransferredWindow => 2,
        CrossDisplayState::Verify => 1,
        CrossDisplayState::Complete => 0,
    }
}

/// Moves a window to another workspace of its display and follows it.
pub open spec fn within_display(
    transaction: RiftTransaction,
    target: TargetView,
    workspace_name: Seq<char>,
    window: WindowData,
) -> Program<()> {
    dialogue::bind(
        transaction::step(
            transaction,
            "window focus in target workspace"@,
            rift::placement_of(target, window, true),
            of_workspace(target, workspace_name),
            checks(target, workspace_name, ConditionView::WindowIsFocusedAt(window.id)),
        ),
        |done: ()| target_verification(target, workspace_name, window),
    )
}

/// Moves the focused window to a destination and follows it.
pub open spec fn window_follow(
    transaction: RiftTransaction,
    target: TargetView,
    workspace_name: Seq<char>,
    focused: FocusedWindowView,
) -> Program<()> {
    if focused.location.display_uuid == target.display_uuid {
        within_display(transaction, target, workspace_name, focused.window)
    } else {
        cross_display_from(
            CrossDisplayView { transaction, target, workspace_name, window: focused.window },
            CrossDisplayState::PrepareDestination,
        )
    }
}

/// Whether a location is the one wanted.
pub open spec fn is_wanted(
    location: LocationView,
    target: TargetView,
    workspace_name: Seq<char>,
) -> bool {
    &&& location.display_uuid == target.display_uuid
    &&& location.workspace_name == workspace_name
    &&& location.is_focused
}

/// The failure where a window ended in another place.
pub open spec fn mismatch(
    location: LocationView,
    target: TargetView,
    workspace_name: Seq<char>,
) -> ErrorView {
    error::state_failure(
        "final placement mismatch: expected "@ + workspace_name + " on "@ + target.display_uuid
            + ", got "@ + location.workspace_name + " on "@ + location.display_uuid,
    )
}

/// Requires a window to be in the named workspace of a destination, and focused.
pub open spec fn target_verification(
    target: TargetView,
    workspace_name: Seq<char>,
    window: WindowData,
) -> Program<()> {
    dialogue::bind(
        rift::window_location(target, window.id),
        |location: Option<LocationView>|
            match location {
                None => Program::Fail(error::state_failure("window disappeared after move"@)),
                Some(location) => if is_wanted(location, target, workspace_name) {
                    Program::Return(())
                } else {
                    Program::Fail(mismatch(location, target, workspace_name))
                },
            },
    )
}

/// Moves the focused window to a destination and follows it.
pub fn follow_window(
    rift: &mut Rift<'_>,
    transaction: RiftTransaction,
    target: TargetContext,
    workspace_name: &str,
    focused: FocusedWindow<'_>,
) -> (done: Result<(), Stop>)
    ensures
        dialogue::follows(
            window_follow(transaction, target@, workspace_name@, focused@),
            old(rift).rest(),
            final(rift).rest(),
            dialogue::seen(done),
        ),
{
    if same_text(&focused.location.display_uuid, &target.display_uuid) {
        move_within_display(rift, transaction, &target, workspace_name, focused.window)
    } else {
        let work = CrossDisplayWorkflow {
            transaction,
            target,
            workspace_name,
            window: focused.window,
        };
        work.run(rift)
    }
}

/// Whether the focused window is already where it is to go.
pub fn already_at_target(
    focused: &FocusedWindow<'_>,
    target: &TargetContext,
    workspace_name: &str,
) -> (there: bool)
    ensures
        there == is_at_target(focused@, target@, workspace_name@),
{
    same_text(&focused.location.display_uuid, &target.display_uuid) && same_text(
        &focused.location.workspace_name,
        workspace_name,
    ) && focused.location.is_focused
}

/// Focuses a destination's display and activates its workspace, as far as needed.
pub fn prepare_target(
    rift: &mut Rift<'_>,
    transaction: RiftTransaction,
    target: &TargetContext,
    workspace_name: &str,
) -> (done: Result<(), Stop>)
    ensures
        dialogue::follows(
            target_preparation(transaction, target@, workspace_name@),
            old(rift).rest(),
            final(rift).rest(),
            dialogue::seen(done),
        ),
{
    if !target.display_is_active {
        let command = rift.focus_destination_command(target);
        transaction.step(
            rift,
            "target display focus",
            command,
            display_events(target),
            Check::one(target, workspace_name, Condition::DisplayIsActive),
        )?;
    }
    if !target.workspace_is_active {
        let command = rift.activate_workspace_command(target);
        transaction.step(
            rift,
            "target workspace activation",
            command,
            workspace_events(target, workspace_name),
            Check::one(target, workspace_name, Condition::WorkspaceIsActive),
        )?;
    }
    Ok(())
}

/// The move of one window across displays.
pub struct CrossDisplayWorkflow<'a> {
    pub transaction: RiftTransaction,
    pub target: TargetContext,
    pub workspace_name: &'a str,
    pub window: &'a WindowData,
}

impl View for CrossDisplayWorkflow<'_> {
    type V = CrossDisplayView;

    open spec fn view(&self) -> CrossDisplayView {
        CrossDisplayView {
            transaction: self.transaction,
            target: self.target@,
            workspace_name: self.workspace_name@,
            window: *self.window,
        }
    }
}

impl CrossDisplayWorkflow<'_> {
    /// Carries the move out, state by state.
    pub fn run(&self, rift: &mut Rift<'_>) -> (done: Result<(), Stop>)
        ensures
            dialogue::follows(
                cross_display_from(self@, CrossDisplayState::PrepareDestination),
                old(rift).rest(),
                final(rift).rest(),
                dialogue::seen(done),
            ),
    {
        let mut state = CrossDisplayState::PrepareDestination;
        #[verifier::loop_isolation(false)]
        while state != CrossDisplayState::Complete
            invariant
                dialogue::run(
                    cross_display_from(self@, CrossDisplayState::PrepareDestination),
                    old(rift).rest(),
                ) == dialogue::run(cross_display_from(self@, state), rift.rest()),
            decreases states_left(state),
        {
            state =
            match state {
                CrossDisplayState::PrepareDestination => {
                    if self.destination_has_no_focus_anchor() {
                        CrossDisplayState::SeedDestination
                    } else {
                        prepare_target(
                            rift,
                            self.transaction,
                            &self.target,
                            self.workspace_name,
                        )?;
                        CrossDisplayState::TransferWindow
                    }
                },
                CrossDisplayState::SeedDestination => {
                    self.seed_destination(rift)?;
                    CrossDisplayState::FollowTransferredWindow
                },
                CrossDisplayState::TransferWindow => {
                    self.transfer_window(rift)?;
                    CrossDisplayState::FollowTransferredWindow
                },
                CrossDisplayState::FollowTransferredWindow => {
                    self.follow_transferred_window(rift)?;
                    CrossDisplayState::FocusTransferredWindow
                },
                CrossDisplayState::FocusTransferredWindow => {
                    self.focus_transferred_window(rift)?;
                    CrossDisplayState::Verify
                },
                CrossDisplayState::Verify => {
                    verify_target(rift, &self.target, self.workspace_name, self.window)?;
                    CrossDisplayState::Complete
                },
                CrossDisplayState::Complete => CrossDisplayState::Complete,
            };
        }
        Ok(())
    }

    /// Rift can only focus a display by focusing a window on it. Where the destination's active
    /// workspace is empty there is nothing to focus, and moving the mouse does nothing unless
    /// focus follows it, so preparing the destination would time out.
    fn destination_has_no_focus_anchor(&self) -> (lacks: bool)
        ensures
            lacks == has_no_focus_anchor(self@.target),
    {
        !self.target.display_is_active && self.target.focus_anchor.is_none()
    }

    /// Transferring a window names the display and does not need it to be active. The
    /// transferred window then serves as the anchor, and following it activates the workspace.
    fn seed_destination(&self, rift: &mut Rift<'_>) -> (done: Result<(), Stop>)
        ensures
            dialogue::follows(
                destination_seeding(self@),
                old(rift).rest(),
                final(rift).rest(),
                dialogue::seen(done),
            ),
    {
        let command = rift.transfer_window_command(&self.target, self.window);
        self.transaction.step(
            rift,
            "window transfer to unfocusable display",
            command,
            display_events(&self.target),
            Check::one(
                &self.target,
                self.workspace_name,
                Condition::WindowIsOnDisplay(self.window.id),
            ),
        )?;
        let command = rift.focus_window_command(self.window);
        self.transaction.step(
            rift,
            "target display focus via transferred window",
            command,
            display_events(&self.target),
            Check::one(&self.target, self.workspace_name, Condition::DisplayIsActive),
        )
    }

    fn transfer_window(&self, rift: &mut Rift<'_>) -> (done: Result<(), Stop>)
        ensures
            dialogue::follows(
                window_transfer(self@),
                old(rift).rest(),
                final(rift).rest(),
                dialogue::seen(done),
            ),
    {
        let command = rift.transfer_window_command(&self.target, self.window);
        self.transaction.step(
            rift,
            "window transfer",
            command,
            workspace_events(&self.target, self.workspace_name),
            Check::one(
                &self.target,
                self.workspace_name,
                Condition::WindowIsAt(self.window.id),
            ),
        )
    }

    fn follow_transferred_window(&self, rift: &mut Rift<'_>) -> (done: Result<(), Stop>)
        ensures
            dialogue::follows(
                transferred_window_follow(self@),
                old(rift).rest(),
                final(rift).rest(),
                dialogue::seen(done),
            ),
    {
        let command = rift.move_within_display_command(&self.target, self.window);
        self.transaction.step(
            rift,
            "transferred window follow",
            command,
            workspace_events(&self.target, self.workspace_name),
            Check::both(
                &self.target,
                self.workspace_name,
                Condition::WorkspaceIsActive,
                Condition::WindowIsAt(self.window.id),
            ),
        )
    }

    fn focus_transferred_window(&self, rift: &mut Rift<'_>) -> (done: Result<(), Stop>)
        ensures
            dialogue::follows(
                transferred_window_focus(self@),
                old(rift).rest(),
                final(rift).rest(),
                dialogue::seen(done),
            ),
    {
        if rift.window_is_focused_at(&self.target, self.workspace_name, self.window.id)? {
            return Ok(());
        }
        let command = rift.focus_window_command(self.window);
        self.transaction.step(
            rift,
            "transferred window focus",
            command,
            workspace_events(&self.target, self.workspace_name),
            Check::one(
                &self.target,
                self.workspace_name,
                Condition::WindowIsFocusedAt(self.window.id),
            ),
        )
    }
}

fn move_within_display(
    rift: &mut Rift<'_>,
    transaction: RiftTransaction,
    target: &TargetContext,
    workspace_name: &str,
    window: &WindowData,
) -> (done: Result<(), Stop>)
    ensures
        dialogue::follows(
            within_display(transaction, target@, workspace_name@, *window),
            old(rift).rest(),
            final(rift).rest(),
            dialogue::seen(done),
        ),
{
    let command = rift.move_within_display_command(target, window);
    transaction.step(
        rift,
        "window focus in target workspace",
        command,
        workspace_events(target, workspace_name),
        Check::one(target, workspace_name, Condition::WindowIsFocusedAt(window.id)),
    )?;
    verify_target(rift, target, workspace_name, window)
}

/// Requires a window to be in the named workspace of a destination, and focused.
pub fn verify_target(
    rift: &mut Rift<'_>,
    target: &TargetContext,
    workspace_name: &str,
    window: &WindowData,
) -> (done: Result<(), Stop>)
    ensures
        dialogue::follows(
            target_verification(target@, workspace_name@, *window),
            old(rift).rest(),
            final(rift).rest(),
            dialogue::seen(done),
        ),
{
    let location = match rift.window_location(target, window.id)? {
        Some(location) => location,
        None => {
            return Err(Stop::Failed(state_error("window disappeared after move".to_owned())));
        },
    };
    if !same_text(&location.display_uuid, &target.display_uuid) || !same_text(
        &location.workspace_name,
        workspace_name,
    ) || !location.is_focused {
        let mut message = join2("final placement mismatch: expected ", workspace_name);
        message.append(" on ");
        message.append(&target.display_uuid);
        message.append(", got ");
        message.append(&location.workspace_name);
        message.append(" on ");
        message.append(&location.display_uuid);
        return Err(Stop::Failed(state_error(message)));
    }
    Ok(())
}

} // verus!
