//! Showing a workspace where the policy puts it.
use crate::dialogue;
use crate::dialogue::{Next, Program, Reply, Rift, Stop};
use crate::model::DisplayData;
use crate::policy;
use crate::rift;
use crate::rift::TargetView;
use crate::space_escape;
use crate::transaction;
use crate::transaction::RiftTransaction;
use crate::workflow::placement;
use vstd::prelude::*;

verus! {

broadcast use dialogue::group_run;

/// Activates a workspace on the display that the policy assigns it.
pub open spec fn switch_workspace_program(workspace_name: Seq<char>) -> Program<()> {
    dialogue::bind(
        rift::connect(),
        |connected: ()|
            dialogue::bind(
                rift::displays(),
                |displays: Seq<DisplayData>|
                    dialogue::bind(
                        policy::display_for(workspace_name, displays),
                        |display_uuid: Seq<char>|
                            dialogue::bind(
                                activation(workspace_name, display_uuid, displays),
                                |refreshed: Seq<DisplayData>| Program::Return(()),
                            ),
                    ),
            ),
    )
}

/// Activates a workspace on a display, and returns the displays as they are then. First the
/// display is brought to a space that Rift manages. Where the workspace is active and the
/// display has the keyboard, nothing more is done.
#[verifier::opaque]
pub open spec fn activation(
    workspace_name: Seq<char>,
    display_uuid: Seq<char>,
    displays: Seq<DisplayData>,
) -> Program<Seq<DisplayData>> {
    dialogue::bind(
        space_escape::managed_space(display_uuid, displays),
        |displays: Seq<DisplayData>|
            dialogue::bind(
                rift::target_context(workspace_name, display_uuid, displays),
                |target: TargetView|
                    if target.display_is_active && target.workspace_is_active {
                        Program::Return(displays)
                    } else {
                        activation_of_target(workspace_name, target)
                    },
            ),
    )
}

/// Moves the keyboard to a destination's display and activates its workspace.
pub open spec fn activation_of_target(workspace_name: Seq<char>, target: TargetView) -> Program<
    Seq<DisplayData>,
> {
    dialogue::bind(
        space_escape::display_focus(target.display_uuid, target.space),
        |focused: ()|
            dialogue::bind(
                transaction::begin_single(),
                |transaction: RiftTransaction|
                    dialogue::bind(
                        placement::target_preparation(transaction, target, workspace_name),
                        |prepared: ()| rift::displays(),
                    ),
            ),
    )
}

/// Activates a workspace on the display that the policy assigns it.
pub fn switch_workspace(workspace_name: &str, replies: &Vec<Reply>) -> (next: Next)
    ensures
        dialogue::reaches(switch_workspace_program(workspace_name@), replies@, next),
{
    let mut rift = Rift::over(replies);
    let result = switch(&mut rift, workspace_name);
    dialogue::conclude(result)
}

fn switch<'a>(rift: &mut Rift<'a>, workspace_name: &str) -> (done: Result<(), Stop>)
    ensures
        dialogue::follows(
            switch_workspace_program(workspace_name@),
            old(rift).rest(),
            final(rift).rest(),
            dialogue::seen(done),
        ),
{
    rift.connect()?;
    let displays = rift.displays()?;
    let target_display = policy::target_display(rift, workspace_name, displays)?;
    activate_on_display(rift, workspace_name, &target_display, displays)?;
    Ok(())
}

/// Activates a workspace on a display, and returns the displays as they are then: getting
/// there can leave a fullscreen space and moves the focus, so the displays change.
pub fn activate_on_display<'a>(
    rift: &mut Rift<'a>,
    workspace_name: &str,
    display_uuid: &str,
    displays: &'a Vec<DisplayData>,
) -> (refreshed: Result<&'a Vec<DisplayData>, Stop>)
    ensures
        dialogue::follows(
            activation(workspace_name@, display_uuid@, displays@),
            old(rift).rest(),
            final(rift).rest(),
            dialogue::seen(refreshed),
        ),
{
    proof {
        reveal(activation);
    }
    let displays = space_escape::ensure_managed_space(rift, display_uuid, displays)?;
    let target = rift.target_context(workspace_name, display_uuid.to_owned(), displays)?;
    // A switch that is already satisfied can still shift the context, so it is not repeated.
    if target.display_is_active && target.workspace_is_active {
        return Ok(displays);
    }
    // No window is moved here, so an empty destination has no anchor to be focused by.
    space_escape::focus_display(rift, &target.display_uuid, target.space)?;
    let transaction = RiftTransaction::new(rift)?;
    placement::prepare_target(rift, transaction, &target, workspace_name)?;
    rift.displays()
}

} // verus!
