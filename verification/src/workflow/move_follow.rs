//! Moving the focused window to a workspace, wherever the policy puts it.
use crate::dialogue;
use crate::dialogue::{Next, Program, Reply, Rift, Stop};
use crate::error::ErrorView;
use crate::model::DisplayData;
use crate::policy;
use crate::rift;
use crate::rift::{FocusedWindowView, TargetView};
use crate::space_escape;
use crate::transaction;
use crate::transaction::RiftTransaction;
use crate::workflow::placement;
use vstd::prelude::*;

verus! {

broadcast use dialogue::group_run;

/// The focused window and the destination that the policy assigns the workspace.
pub struct Aim {
    pub target: TargetView,
    pub focused: FocusedWindowView,
}

/// Finds the destination on a display, and the focused window. The window is looked for before
/// the display is brought to a space that Rift manages, which moves the focus.
pub open spec fn aim_at(
    workspace_name: Seq<char>,
    display_uuid: Seq<char>,
    displays: Seq<DisplayData>,
) -> Program<Aim> {
    dialogue::bind(
        dialogue::attempt(rift::focused_window(displays)),
        |found: Result<FocusedWindowView, ErrorView>|
            dialogue::bind(
                space_escape::managed_space(display_uuid, displays),
                |refreshed: Seq<DisplayData>|
                    dialogue::bind(
                        rift::target_context(workspace_name, display_uuid, refreshed),
                        |target: TargetView|
                            dialogue::bind(
                                dialogue::decided(found),
                                |focused: FocusedWindowView|
                                    Program::Return(Aim { target, focused }),
                            ),
                    ),
            ),
    )
}

/// Finds the destination that the policy assigns a workspace, and the focused window.
pub open spec fn aim_for(workspace_name: Seq<char>) -> Program<Aim> {
    dialogue::bind(
        rift::connect(),
        |connected: ()|
            dialogue::bind(
                rift::displays(),
                |displays: Seq<DisplayData>|
                    dialogue::bind(
                        policy::display_for(workspace_name, displays),
                        |display_uuid: Seq<char>| aim_at(workspace_name, display_uuid, displays),
                    ),
            ),
    )
}

/// Moves the focused window to a workspace on the display that the policy assigns it, and
/// follows it. A window that is there is left alone.
pub open spec fn move_follow_program(workspace_name: Seq<char>) -> Program<()> {
    dialogue::bind(
        aim_for(workspace_name),
        |aim: Aim| follow_unless_there(workspace_name, aim.target, aim.focused),
    )
}

/// Moves the focused window to the destination and follows it, unless it is there.
pub open spec fn follow_unless_there(
    workspace_name: Seq<char>,
    target: TargetView,
    focused: FocusedWindowView,
) -> Program<()> {
    if placement::is_at_target(focused, target, workspace_name) {
        Program::Return(())
    } else {
        dialogue::bind(
            transaction::begin_single(),
            |transaction: RiftTransaction|
                placement::window_follow(transaction, target, workspace_name, focused),
        )
    }
}

/// Moves the focused window to a workspace on the display that the policy assigns it, and
/// follows it.
pub fn move_follow(workspace_name: &str, replies: &Vec<Reply>) -> (next: Next)
    ensures
        dialogue::reaches(move_follow_program(workspace_name@), replies@, next),
{
    let mut rift = Rift::over(replies);
    let result = follow(&mut rift, workspace_name);
    dialogue::conclude(result)
}

fn follow<'a>(rift: &mut Rift<'a>, workspace_name: &str) -> (done: Result<(), Stop>)
    ensures
        dialogue::follows(
            move_follow_program(workspace_name@),
            old(rift).rest(),
            final(rift).rest(),
            dialogue::seen(done),
        ),
{
    rift.connect()?;
    let displays = rift.displays()?;
    let target_display = policy::target_display(rift, workspace_name, displays)?;
    let found = match rift.focused_window(displays) {
        Err(Stop::Waiting(request)) => {
            return Err(Stop::Waiting(request));
        },
        found => found,
    };
    let displays = space_escape::ensure_managed_space(rift, &target_display, displays)?;
    let target = rift.target_context(workspace_name, target_display, displays)?;
    let focused = found?;
    if placement::already_at_target(&focused, &target, workspace_name) {
        return Ok(());
    }
    let transaction = RiftTransaction::new(rift)?;
    placement::follow_window(rift, transaction, target, workspace_name, focused)
}

} // verus!
