//! Moving the focused window to a neighbouring display.
use crate::dialogue;
use crate::dialogue::{Next, Program, Reply, Rift, Stop};
use crate::model::DisplayData;
use crate::rift;
use crate::rift::{FocusedWindowView, TargetView};
use crate::transaction;
use crate::transaction::RiftTransaction;
use crate::workflow;
use crate::workflow::{adjacent_display, placement, DisplayDirection};
use vstd::prelude::*;

verus! {

broadcast use dialogue::group_run;

/// Moves the focused window to the active workspace of a neighbouring display, and follows
/// it. Without a second display nothing is done.
pub open spec fn move_window_program(direction: DisplayDirection) -> Program<()> {
    dialogue::bind(
        rift::connect(),
        |connected: ()|
            dialogue::bind(
                rift::displays(),
                |displays: Seq<DisplayData>|
                    dialogue::bind(
                        rift::focused_window(displays),
                        |focused: FocusedWindowView|
                            dialogue::bind(
                                dialogue::decided(
                                    workflow::neighbour(
                                        displays,
                                        focused.location.display_uuid,
                                        direction,
                                    ),
                                ),
                                |neighbour: Option<DisplayData>|
                                    match neighbour {
                                        None => Program::Return(()),
                                        Some(display) => move_window_onto(
                                            display,
                                            displays,
                                            focused,
                                        ),
                                    },
                            ),
                    ),
            ),
    )
}

/// Moves the focused window to the active workspace of a display, and follows it.
#[verifier::opaque]
pub open spec fn move_window_onto(
    display: DisplayData,
    displays: Seq<DisplayData>,
    focused: FocusedWindowView,
) -> Program<()> {
    dialogue::bind(
        rift::active_target_context(display.uuid@, displays),
        |named: (Seq<char>, TargetView)|
            dialogue::bind(
                transaction::begin_single(),
                |transaction: RiftTransaction|
                    placement::window_follow(transaction, named.1, named.0, focused),
            ),
    )
}

/// Moves the focused window to the active workspace of a neighbouring display, and follows it.
pub fn move_window_to_display(direction: DisplayDirection, replies: &Vec<Reply>) -> (next: Next)
    ensures
        dialogue::reaches(move_window_program(direction), replies@, next),
{
    let mut rift = Rift::over(replies);
    let result = move_window(&mut rift, direction);
    dialogue::conclude(result)
}

fn move_window<'a>(rift: &mut Rift<'a>, direction: DisplayDirection) -> (done: Result<(), Stop>)
    ensures
        dialogue::follows(
            move_window_program(direction),
            old(rift).rest(),
            final(rift).rest(),
            dialogue::seen(done),
        ),
{
    proof {
        reveal(move_window_onto);
    }
    rift.connect()?;
    let displays = rift.displays()?;
    let focused = rift.focused_window(displays)?;
    let adjacent = match adjacent_display(displays, &focused.location.display_uuid, direction) {
        Ok(adjacent) => adjacent,
        Err(error) => {
            return Err(Stop::Failed(error));
        },
    };
    let target_display = match adjacent {
        Some(display) => display,
        None => {
            return Ok(());
        },
    };
    let (workspace_name, target) = rift.active_target_context(
        target_display.uuid.clone(),
        displays,
    )?;
    let transaction = RiftTransaction::new(rift)?;
    placement::follow_window(rift, transaction, target, &workspace_name, focused)
}

} // verus!
