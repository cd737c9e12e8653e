//! Showing a workspace on every display.
use crate::dialogue;
use crate::dialogue::{Next, Program, Reply, Rift, Stop};
use crate::model;
use crate::model::DisplayData;
use crate::rift;
use crate::space_escape;
use crate::workflow::switch_workspace;
use crate::workflow::switch_workspace::activate_on_display;
use vstd::prelude::*;

verus! {

broadcast use dialogue::group_run;

/// Shows a workspace on every display, and gives the keyboard back to the display that had it.
pub open spec fn switch_workspace_both_program(workspace_name: Seq<char>) -> Program<()> {
    dialogue::bind(
        rift::connect(),
        |connected: ()|
            dialogue::bind(
                rift::displays(),
                |displays: Seq<DisplayData>|
                    dialogue::bind(
                        activation_from(workspace_name, uuids_of(displays), displays, 0),
                        |refreshed: Seq<DisplayData>|
                            return_of_keyboard(
                                model::first(displays, model::has_context()),
                                refreshed,
                            ),
                    ),
            ),
    )
}

/// The identifiers of the displays.
pub open spec fn uuids_of(displays: Seq<DisplayData>) -> Seq<Seq<char>> {
    Seq::new(displays.len(), |i: int| displays[i].uuid@)
}

/// Activates a workspace on the displays from this one on, each time over the displays as
/// they are by then.
pub open spec fn activation_from(
    workspace_name: Seq<char>,
    uuids: Seq<Seq<char>>,
    displays: Seq<DisplayData>,
    at: int,
) -> Program<Seq<DisplayData>>
    decreases uuids.len() - at,
{
    if at < 0 || at >= uuids.len() {
        Program::Return(displays)
    } else {
        dialogue::bind(
            switch_workspace::activation(workspace_name, uuids[at], displays),
            |refreshed: Seq<DisplayData>|
                activation_from(workspace_name, uuids, refreshed, at + 1),
        )
    }
}

/// The space that the display with this identifier shows, if it is there.
pub open spec fn space_now(displays: Seq<DisplayData>, display_uuid: Seq<char>) -> Option<u64> {
    match model::first(displays, model::has_uuid(display_uuid)) {
        None => None,
        Some(display) => model::space_of(display),
    }
}

/// Gives the keyboard back to the display that had it.
pub open spec fn return_of_keyboard(
    origin: Option<DisplayData>,
    displays: Seq<DisplayData>,
) -> Program<()> {
    match origin {
        None => Program::Return(()),
        Some(origin) => match space_now(displays, origin.uuid@) {
            None => Program::Return(()),
            Some(space) => space_escape::display_focus(origin.uuid@, space),
        },
    }
}

/// Shows a workspace on every display, and gives the keyboard back to the display that had it.
pub fn switch_workspace_both(workspace_name: &str, replies: &Vec<Reply>) -> (next: Next)
    ensures
        dialogue::reaches(switch_workspace_both_program(workspace_name@), replies@, next),
{
    let mut rift = Rift::over(replies);
    let result = switch_all(&mut rift, workspace_name);
    dialogue::conclude(result)
}

fn switch_all<'a>(rift: &mut Rift<'a>, workspace_name: &str) -> (done: Result<(), Stop>)
    ensures
        dialogue::follows(
            switch_workspace_both_program(workspace_name@),
            old(rift).rest(),
            final(rift).rest(),
            dialogue::seen(done),
        ),
{
    rift.connect()?;
    let reported = rift.displays()?;
    // The command changes what the other displays show; it does not ask to move there.
    let origin = model::find_context(reported);
    let ghost uuids = uuids_of(reported@);
    let ghost begun = rift.rest();
    let mut displays = reported;
    let mut at: usize = 0;
    #[verifier::loop_isolation(false)]
    while at < reported.len()
        invariant
            at <= reported.len(),
            dialogue::run(activation_from(workspace_name@, uuids, reported@, 0), begun)
                == dialogue::run(
                activation_from(workspace_name@, uuids, displays@, at as int),
                rift.rest(),
            ),
        decreases reported.len() - at,
    {
        displays = activate_on_display(rift, workspace_name, &reported[at].uuid, displays)?;
        at = at + 1;
    }
    let origin = match origin {
        Some(origin) => origin,
        None => {
            return Ok(());
        },
    };
    let space = match model::find_display(displays, &origin.uuid) {
        Some(at) => model::display_space(&displays[at]),
        None => None,
    };
    if let Some(space) = space {
        space_escape::focus_display(rift, &origin.uuid, space)?;
    }
    Ok(())
}

} // verus!
