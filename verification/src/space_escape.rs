//! Recovery from macOS spaces that Rift does not manage.
//!
//! A window in native fullscreen has a space of its own. Rift does not manage it, so the
//! display reports no active space and every command that aims at the display fails before
//! it starts. Rift's focus commands cannot cross into such a space. Activating an application
//! with a window on one of the display's other spaces can: macOS then leaves the fullscreen
//! space to show that window.
use crate::dialogue;
use crate::dialogue::{refused, Ask, AskView, Outcome, Program, Reply, Request, RequestView, Rift, Stop, StopView};
use crate::model;
use crate::model::{DisplayData, WorkspaceData};
use crate::rift;
use crate::text;
use crate::text::{copy_optional, join3};
use crate::transaction::NANOS_PER_MILLI;
use vstd::prelude::*;

verus! {

broadcast use dialogue::group_run;

/// How long to wait for a display to leave its space, in milliseconds.
pub const ESCAPE_TIMEOUT: u64 = 1_500;

/// How long to pause between two looks at the displays, in milliseconds.
pub const PROBE_INTERVAL: u64 = 50;

/// The application by which a space can be shown: that of the first window of the first
/// occupied workspace there.
pub open spec fn anchor_among(workspaces: Seq<WorkspaceData>) -> Option<Seq<char>> {
    match model::first(workspaces, model::is_occupied()) {
        None => None,
        Some(workspace) => text::optional_text(workspace.windows@[0].bundle_id),
    }
}

/// The application by which a space can be shown.
pub open spec fn anchor_bundle_id(space: u64) -> Program<Option<Seq<char>>> {
    dialogue::bind(
        rift::workspaces(space),
        |workspaces: Seq<WorkspaceData>| Program::Return(anchor_among(workspaces)),
    )
}

/// The script that activates an application.
pub open spec fn activation_script(bundle_id: Seq<char>) -> Seq<char> {
    "tell application id \""@ + bundle_id + "\" to activate"@
}

/// Activates an application.
pub open spec fn activate_application(bundle_id: Seq<char>) -> Program<()> {
    rift::effect(AskView::RunScript { script: activation_script(bundle_id) })
}

/// Waits for a display to show a space that Rift manages.
pub open spec fn await_managed_space(display_uuid: Seq<char>) -> Program<
    Option<Seq<DisplayData>>,
> {
    Program::Ask(
        RequestView::Watch { display_uuid },
        |reply: Reply|
            match reply {
                Reply::Displays(displays) => Program::Return(Some(displays@)),
                Reply::Nothing => Program::Return(None),
                _ => Program::Fail(dialogue::refusal(reply)),
            },
    )
}

/// Tries the spaces from this one on, until one of their applications recovers the display.
pub open spec fn escape_from(
    display_uuid: Seq<char>,
    displays: Seq<DisplayData>,
    spaces: Seq<u64>,
    at: int,
) -> Program<Seq<DisplayData>>
    decreases spaces.len() - at,
{
    if at < 0 || at >= spaces.len() {
        Program::Return(displays)
    } else {
        dialogue::bind(
            anchor_bundle_id(spaces[at]),
            |anchor: Option<Seq<char>>|
                match anchor {
                    None => escape_from(display_uuid, displays, spaces, at + 1),
                    Some(bundle_id) => dialogue::bind(
                        activate_application(bundle_id),
                        |done: ()|
                            dialogue::bind(
                                await_managed_space(display_uuid),
                                |found: Option<Seq<DisplayData>>|
                                    match found {
                                        Some(refreshed) => Program::Return(refreshed),
                                        None => escape_from(
                                            display_uuid,
                                            displays,
                                            spaces,
                                            at + 1,
                                        ),
                                    },
                            ),
                    ),
                },
        )
    }
}

/// Has a display show a space that Rift manages, where that can be done. The displays are
/// returned as they are then; as they were where nothing had to be done or nothing helped.
pub open spec fn managed_space(display_uuid: Seq<char>, displays: Seq<DisplayData>) -> Program<
    Seq<DisplayData>,
> {
    match model::first(displays, model::has_uuid(display_uuid)) {
        None => Program::Return(displays),
        Some(display) => if model::space_of(display) is Some {
            Program::Return(displays)
        } else {
            escape_from(display_uuid, displays, display.inactive_space_ids@, 0)
        },
    }
}

/// Moves the keyboard to a display, unless it is there.
pub open spec fn display_focus(display_uuid: Seq<char>, space: u64) -> Program<()> {
    dialogue::bind(
        rift::display_is_active(display_uuid),
        |active: bool|
            if active {
                Program::Return(())
            } else {
                rift::effect(AskView::AcquireDisplay { display_uuid, space })
            },
    )
}

/// Has a display show a space that Rift manages, where that can be done, and returns the
/// displays as they are then. A display that shows one is left alone.
///
/// Escaping activates another application, which moves the focus to that display. Where no
/// application recovers the display, the displays are returned as they were.
pub fn ensure_managed_space<'a>(
    rift: &mut Rift<'a>,
    display_uuid: &str,
    displays: &'a Vec<DisplayData>,
) -> (refreshed: Result<&'a Vec<DisplayData>, Stop>)
    ensures
        dialogue::follows(
            managed_space(display_uuid@, displays@),
            old(rift).rest(),
            final(rift).rest(),
            dialogue::seen(refreshed),
        ),
{
    let display = match model::find_display(displays, display_uuid) {
        Some(at) => &displays[at],
        None => {
            return Ok(displays);
        },
    };
    if model::display_space(display).is_some() {
        return Ok(displays);
    }
    let spaces = &display.inactive_space_ids;
    let mut at: usize = 0;
    #[verifier::loop_isolation(false)]
    while at < spaces.len()
        invariant
            at <= spaces.len(),
            dialogue::run(managed_space(display_uuid@, displays@), old(rift).rest())
                == dialogue::run(
                escape_from(display_uuid@, displays@, spaces@, at as int),
                rift.rest(),
            ),
        decreases spaces.len() - at,
    {
        if let Some(anchor) = find_anchor_bundle_id(rift, spaces[at])? {
            rift.perform(Ask::RunScript { script: script_to_activate(&anchor) })?;
            if let Some(refreshed) = watch(rift, display_uuid)? {
                return Ok(refreshed);
            }
        }
        at = at + 1;
    }
    Ok(displays)
}

/// Writes the script that activates an application. The bundle identifier is used since the
/// names of processes vary.
pub fn script_to_activate(bundle_id: &str) -> (script: String)
    ensures
        script@ == activation_script(bundle_id@),
{
    join3("tell application id \"", bundle_id, "\" to activate")
}

/// The contents of a text that was looked for.
pub open spec fn seen_anchor(result: Result<Option<String>, Stop>) -> Result<
    Option<Seq<char>>,
    StopView,
> {
    match result {
        Ok(anchor) => Ok(text::optional_text(anchor)),
        Err(stop) => Err(stop@),
    }
}

/// The application by which a space can be shown. Rift reports workspaces in the configured
/// order, so the earliest occupied one is taken and no particular application has to be open.
pub fn find_anchor_bundle_id(rift: &mut Rift<'_>, space: u64) -> (anchor: Result<
    Option<String>,
    Stop,
>)
    ensures
        dialogue::follows(
            anchor_bundle_id(space),
            old(rift).rest(),
            final(rift).rest(),
            seen_anchor(anchor),
        ),
{
    let workspaces = rift.workspaces(space)?;
    match model::find_occupied(workspaces) {
        None => Ok(None),
        Some(workspace) => {
            proof {
                model::lemma_first_accepted(workspaces@, model::is_occupied());
            }
            Ok(copy_optional(&workspace.windows[0].bundle_id))
        },
    }
}

/// The contents of displays that were waited for.
pub open spec fn seen_displays(result: Result<Option<&Vec<DisplayData>>, Stop>) -> Result<
    Option<Seq<DisplayData>>,
    StopView,
> {
    match result {
        Ok(Some(displays)) => Ok(Some(displays@)),
        Ok(None) => Ok(None),
        Err(stop) => Err(stop@),
    }
}

fn watch<'a>(rift: &mut Rift<'a>, display_uuid: &str) -> (found: Result<
    Option<&'a Vec<DisplayData>>,
    Stop,
>)
    ensures
        dialogue::follows(
            await_managed_space(display_uuid@),
            old(rift).rest(),
            final(rift).rest(),
            seen_displays(found),
        ),
{
    let reply = rift.ask(Request::Watch { display_uuid: display_uuid.to_owned() })?;
    match reply {
        Reply::Displays(displays) => Ok(Some(displays)),
        Reply::Nothing => Ok(None),
        _ => Err(refused(reply)),
    }
}

/// Moves the keyboard to a display, unless it is there.
pub fn focus_display(rift: &mut Rift<'_>, display_uuid: &str, space: u64) -> (done: Result<
    (),
    Stop,
>)
    ensures
        dialogue::follows(
            display_focus(display_uuid@, space),
            old(rift).rest(),
            final(rift).rest(),
            dialogue::seen(done),
        ),
{
    if rift.display_is_active(display_uuid)? {
        return Ok(());
    }
    rift.perform(Ask::AcquireDisplay { display_uuid: display_uuid.to_owned(), space })
}

// ---------------------------------------------------------------------------
// How a display is waited for.
// ---------------------------------------------------------------------------

/// How far a wait for a display has come.
#[derive(Clone, Copy, Debug, PartialEq, Eq, Structural)]
pub enum WatchStage {
    Opening,
    Watching { deadline: u128 },
}

/// What a turn of the wait leads to.
#[derive(Clone, Copy, Debug, PartialEq, Eq, Structural)]
pub enum WatchTurn {
    Again(WatchStage),
    /// The displays just reported show the display on a managed space.
    Escaped,
    /// The time is over.
    GaveUp,
}

/// Whether a display shows a space that Rift manages.
pub open spec fn is_managed(displays: Seq<DisplayData>, display_uuid: Seq<char>) -> bool {
    match model::first(displays, model::has_uuid(display_uuid)) {
        None => false,
        Some(display) => model::space_of(display) is Some,
    }
}

/// One turn of the wait: while there is time, a pause and a look at the displays.
pub open spec fn watch_turn(display_uuid: Seq<char>, stage: WatchStage) -> Program<WatchTurn> {
    match stage {
        WatchStage::Opening => dialogue::bind(
            rift::now(),
            |now: u64|
                Program::Return(
                    WatchTurn::Again(
                        WatchStage::Watching {
                            deadline: (now + ESCAPE_TIMEOUT * NANOS_PER_MILLI) as u128,
                        },
                    ),
                ),
        ),
        WatchStage::Watching { deadline } => dialogue::bind(
            rift::now(),
            |now: u64|
                if now < deadline {
                    dialogue::bind(
                        rift::effect(AskView::Sleep { millis: PROBE_INTERVAL }),
                        |done: ()|
                            dialogue::bind(
                                rift::displays(),
                                |displays: Seq<DisplayData>|
                                    Program::Return(
                                        if is_managed(displays, display_uuid) {
                                            WatchTurn::Escaped
                                        } else {
                                            WatchTurn::Again(stage)
                                        },
                                    ),
                            ),
                    )
                } else {
                    Program::Return(WatchTurn::GaveUp)
                },
        ),
    }
}

/// Takes one turn of the wait for a display.
pub fn take_watch_turn(rift: &mut Rift<'_>, display_uuid: &str, stage: WatchStage) -> (taken: Result<
    WatchTurn,
    Stop,
>)
    ensures
        dialogue::follows(
            watch_turn(display_uuid@, stage),
            old(rift).rest(),
            final(rift).rest(),
            dialogue::seen_value(taken),
        ),
{
    match stage {
        WatchStage::Opening => {
            let now = rift.now()?;
            let deadline: u128 = now as u128 + ESCAPE_TIMEOUT as u128 * NANOS_PER_MILLI;
            Ok(WatchTurn::Again(WatchStage::Watching { deadline }))
        },
        WatchStage::Watching { deadline } => {
            if (rift.now()? as u128) < deadline {
                rift.perform(Ask::Sleep { millis: PROBE_INTERVAL })?;
                let displays = rift.displays()?;
                let managed = match model::find_display(displays, display_uuid) {
                    Some(at) => model::display_space(&displays[at]).is_some(),
                    None => false,
                };
                if managed {
                    Ok(WatchTurn::Escaped)
                } else {
                    Ok(WatchTurn::Again(stage))
                }
            } else {
                Ok(WatchTurn::GaveUp)
            }
        },
    }
}

/// A turn of the wait asks the outside alone.
pub proof fn a_watch_turn_asks_the_outside_only(display_uuid: Seq<char>, stage: WatchStage)
    ensures
        dialogue::asks_only(watch_turn(display_uuid, stage), dialogue::outside_requests()),
{
    broadcast use dialogue::group_asks_only;

}

/// Where a turn finds that the display has left its space, the third reply of the turn holds
/// the displays that show it.
pub proof fn an_escape_is_shown_by_the_displays(
    display_uuid: Seq<char>,
    stage: WatchStage,
    replies: Seq<Reply>,
)
    requires
        dialogue::run(watch_turn(display_uuid, stage), replies) matches Outcome::Finished(turn, _)
            && turn is Escaped,
    ensures
        replies.len() > 2,
        replies[2] matches Reply::Displays(displays) && is_managed(displays@, display_uuid),
{
}

} // verus!
