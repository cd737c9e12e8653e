//! The commands, as workflows over Rift's state.
pub mod move_follow;
pub mod move_window_to_display;
pub mod move_workspace_to_display;
pub mod placement;
pub mod rehome;
pub mod switch_workspace;
pub mod switch_workspace_both;

use crate::error;
use crate::error::{state_error, usage_error, ErgoError, ErrorView};
use crate::model;
use crate::model::DisplayData;
use crate::text::{join3, same_text};
use vstd::prelude::*;

pub use move_follow::move_follow;
pub use move_window_to_display::move_window_to_display;
pub use move_workspace_to_display::move_workspace_to_display;
pub use rehome::rehome;
pub use switch_workspace::switch_workspace;
pub use switch_workspace_both::switch_workspace_both;

verus! {

/// Which neighbour of a display is meant.
#[derive(Clone, Copy, Debug, PartialEq, Eq, Structural)]
pub enum DisplayDirection {
    Next,
    Previous,
}

/// The direction that a word stands for.
pub open spec fn direction_of(value: Seq<char>) -> Result<DisplayDirection, ErrorView> {
    if value == "next"@ {
        Ok(DisplayDirection::Next)
    } else if value == "prev"@ || value == "previous"@ {
        Ok(DisplayDirection::Previous)
    } else {
        Err(
            error::usage_failure(
                "invalid display direction: "@ + value + "; expected next or prev"@,
            ),
        )
    }
}

/// The contents of a direction, or of the failure to read it.
pub open spec fn seen_direction(result: Result<DisplayDirection, ErgoError>) -> Result<
    DisplayDirection,
    ErrorView,
> {
    match result {
        Ok(direction) => Ok(direction),
        Err(error) => Err(error@),
    }
}

impl DisplayDirection {
    /// Reads a direction.
    pub fn parse(value: &str) -> (direction: Result<DisplayDirection, ErgoError>)
        ensures
            seen_direction(direction) == direction_of(value@),
    {
        if same_text(value, "next") {
            Ok(DisplayDirection::Next)
        } else if same_text(value, "prev") || same_text(value, "previous") {
            Ok(DisplayDirection::Previous)
        } else {
            Err(
                usage_error(
                    &join3("invalid display direction: ", value, "; expected next or prev"),
                ),
            )
        }
    }

    /// The other direction.
    pub open spec fn reversed(self) -> DisplayDirection {
        match self {
            DisplayDirection::Next => DisplayDirection::Previous,
            DisplayDirection::Previous => DisplayDirection::Next,
        }
    }
}

/// Whether the display with this identifier stands here, and not before.
pub open spec fn stands_at(displays: Seq<DisplayData>, uuid: Seq<char>, at: int) -> bool {
    &&& 0 <= at < displays.len()
    &&& displays[at].uuid@ == uuid
    &&& forall|i: int| 0 <= i < at ==> (#[trigger] displays[i]).uuid@ != uuid
}

/// The position next to another one, around the end.
pub open spec fn step_around(at: int, direction: DisplayDirection, count: int) -> int {
    match direction {
        DisplayDirection::Next => (at + 1) % count,
        DisplayDirection::Previous => (at + count - 1) % count,
    }
}

/// The neighbour of a display, around the end; none where there is no second display.
pub open spec fn neighbour(
    displays: Seq<DisplayData>,
    source_uuid: Seq<char>,
    direction: DisplayDirection,
) -> Result<Option<DisplayData>, ErrorView> {
    if displays.len() < 2 {
        Ok(None)
    } else if exists|at: int| stands_at(displays, source_uuid, at) {
        let at = choose|at: int| stands_at(displays, source_uuid, at);
        Ok(Some(displays[step_around(at, direction, displays.len() as int)]))
    } else {
        Err(error::state_failure("source display disappeared"@))
    }
}

/// The contents of a display that was looked for, or of the failure to find it.
pub open spec fn seen_display(result: Result<Option<&DisplayData>, ErgoError>) -> Result<
    Option<DisplayData>,
    ErrorView,
> {
    match result {
        Ok(Some(display)) => Ok(Some(*display)),
        Ok(None) => Ok(None),
        Err(error) => Err(error@),
    }
}

/// The neighbour of a display, around the end; none where there is no second display.
pub fn adjacent_display<'d>(
    displays: &'d Vec<DisplayData>,
    source_uuid: &str,
    direction: DisplayDirection,
) -> (adjacent: Result<Option<&'d DisplayData>, ErgoError>)
    ensures
        seen_display(adjacent) == neighbour(displays@, source_uuid@, direction),
{
    let count = displays.len();
    if count < 2 {
        return Ok(None);
    }
    match model::find_display(displays, source_uuid) {
        None => {
            assert forall|at: int| !stands_at(displays@, source_uuid@, at) by {}
            Err(state_error("source display disappeared".to_owned()))
        },
        Some(at) => {
            assert(stands_at(displays@, source_uuid@, at as int));
            proof {
                let chosen = choose|at: int| stands_at(displays@, source_uuid@, at);
                assert(chosen == at as int);
            }
            let target: usize = match direction {
                DisplayDirection::Next => if at + 1 < count {
                    at + 1
                } else {
                    0
                },
                DisplayDirection::Previous => if at > 0 {
                    at - 1
                } else {
                    count - 1
                },
            };
            proof {
                let n = count as int;
                let i = at as int;
                match direction {
                    DisplayDirection::Next => {
                        if i + 1 < n {
                            vstd::arithmetic::div_mod::lemma_small_mod((i + 1) as nat, n as nat);
                        } else {
                            vstd::arithmetic::div_mod::lemma_mod_self_0(n);
                        }
                    },
                    DisplayDirection::Previous => {
                        if i > 0 {
                            assert((i + n - 1) % n == i - 1) by {
                                vstd::arithmetic::div_mod::lemma_mod_add_multiples_vanish(i - 1, n);
                                vstd::arithmetic::div_mod::lemma_small_mod(
                                    (i - 1) as nat,
                                    n as nat,
                                );
                            }
                        } else {
                            vstd::arithmetic::div_mod::lemma_small_mod((n - 1) as nat, n as nat);
                        }
                    },
                }
                assert(target == step_around(i, direction, n));
            }
            Ok(Some(&displays[target]))
        },
    }
}

} // verus!
