//! Which command line means which command, and which command does what.
use crate::cli;
use crate::cli::{Invocation, InvocationView};
use crate::dialogue::Program;
use crate::error;
use crate::error::{ErrorKind, ErrorView};
use crate::laws::queries;
use crate::model::DisplayData;
use crate::workflow;
use crate::workflow::{
    move_follow, move_window_to_display, move_workspace_to_display, rehome, switch_workspace,
    switch_workspace_both, DisplayDirection,
};
use vstd::prelude::*;

verus! {

/// The words by which commands are called differ.
proof fn lemma_words()
    ensures
        "move-follow"@.len() == 11,
        "switch-workspace"@.len() == 16,
        "switch-workspace-both"@.len() == 21,
        "move-window-to-display"@.len() == 22,
        "move-workspace-to-display"@.len() == 25,
        "rehome"@.len() == 6,
        "-h"@.len() == 2,
        "--help"@.len() == 6,
        "help"@.len() == 4,
        "rehome"@ != "--help"@,
        "next"@.len() == 4,
        "prev"@.len() == 4,
        "previous"@.len() == 8,
        "next"@ != "prev"@,
{
    reveal_strlit("move-follow");
    reveal_strlit("switch-workspace");
    reveal_strlit("switch-workspace-both");
    reveal_strlit("move-window-to-display");
    reveal_strlit("move-workspace-to-display");
    reveal_strlit("rehome");
    reveal_strlit("-h");
    reveal_strlit("--help");
    reveal_strlit("help");
    reveal_strlit("next");
    reveal_strlit("prev");
    reveal_strlit("previous");
    assert("rehome"@[0] != "--help"@[0]);
    assert("next"@[0] != "prev"@[0]);
}

/// Whether a word means this direction: `next`, and `prev` or `previous`.
pub open spec fn means_direction(word: Seq<char>, direction: DisplayDirection) -> bool {
    match direction {
        DisplayDirection::Next => word == "next"@,
        DisplayDirection::Previous => word == "prev"@ || word == "previous"@,
    }
}

/// Each direction is read from its own words, and from no others; any other word is reported with
/// the usage.
pub proof fn a_direction_is_read_from_its_words(word: Seq<char>, direction: DisplayDirection)
    ensures
        workflow::direction_of(word) == Ok::<DisplayDirection, ErrorView>(direction)
            <==> means_direction(word, direction),
        workflow::direction_of(word) matches Err(failure) ==> failure.kind
            == ErrorKind::InvalidInput && failure.message == "invalid display direction: "@ + word
            + "; expected next or prev"@ + "\n"@ + error::usage_text(),
{
    lemma_words();
}

/// Whether arguments are this word and one more.
pub open spec fn is_call(args: Seq<Seq<char>>, word: Seq<char>, argument: Seq<char>) -> bool {
    args.len() == 2 && args[0] == word && args[1] == argument
}

/// Each command that takes a workspace is called by its word and the workspace, and by nothing
/// else.
pub proof fn workspace_commands_are_called_by_word_and_workspace(
    args: Seq<Seq<char>>,
    workspace_name: Seq<char>,
)
    ensures
        cli::invocation_of(args) == Ok::<InvocationView, ErrorView>(
            InvocationView::MoveFollow { workspace_name },
        ) <==> is_call(args, "move-follow"@, workspace_name),
        cli::invocation_of(args) == Ok::<InvocationView, ErrorView>(
            InvocationView::SwitchWorkspace { workspace_name },
        ) <==> is_call(args, "switch-workspace"@, workspace_name),
        cli::invocation_of(args) == Ok::<InvocationView, ErrorView>(
            InvocationView::SwitchWorkspaceBoth { workspace_name },
        ) <==> is_call(args, "switch-workspace-both"@, workspace_name),
        cli::invocation_of(args) == Ok::<InvocationView, ErrorView>(
            InvocationView::Rehome { source: Some(workspace_name) },
        ) <==> is_call(args, "rehome"@, workspace_name),
        cli::invocation_of(args) == Ok::<InvocationView, ErrorView>(
            InvocationView::Rehome { source: None },
        ) <==> args.len() == 1 && args[0] == "rehome"@,
{
    lemma_words();
}

/// Each command that takes a direction is called by its word and a word for the direction, and by
/// nothing else.
pub proof fn display_commands_are_called_by_word_and_direction(
    args: Seq<Seq<char>>,
    direction: DisplayDirection,
)
    ensures
        cli::invocation_of(args) == Ok::<InvocationView, ErrorView>(
            InvocationView::MoveWindowToDisplay { direction },
        ) <==> args.len() == 2 && args[0] == "move-window-to-display"@ && means_direction(
            args[1],
            direction,
        ),
        cli::invocation_of(args) == Ok::<InvocationView, ErrorView>(
            InvocationView::MoveWorkspaceToDisplay { direction },
        ) <==> args.len() == 2 && args[0] == "move-workspace-to-display"@ && means_direction(
            args[1],
            direction,
        ),
{
    lemma_words();
}

/// On its words each display command has the direction that the word means.
pub proof fn each_word_gives_each_display_command_its_direction()
    ensures
        cli::invocation_of(seq!["move-window-to-display"@, "next"@]) == Ok::<
            InvocationView,
            ErrorView,
        >(InvocationView::MoveWindowToDisplay { direction: DisplayDirection::Next }),
        cli::invocation_of(seq!["move-window-to-display"@, "prev"@]) == Ok::<
            InvocationView,
            ErrorView,
        >(InvocationView::MoveWindowToDisplay { direction: DisplayDirection::Previous }),
        cli::invocation_of(seq!["move-window-to-display"@, "previous"@]) == Ok::<
            InvocationView,
            ErrorView,
        >(InvocationView::MoveWindowToDisplay { direction: DisplayDirection::Previous }),
        cli::invocation_of(seq!["move-workspace-to-display"@, "next"@]) == Ok::<
            InvocationView,
            ErrorView,
        >(InvocationView::MoveWorkspaceToDisplay { direction: DisplayDirection::Next }),
        cli::invocation_of(seq!["move-workspace-to-display"@, "prev"@]) == Ok::<
            InvocationView,
            ErrorView,
        >(InvocationView::MoveWorkspaceToDisplay { direction: DisplayDirection::Previous }),
        cli::invocation_of(seq!["move-workspace-to-display"@, "previous"@]) == Ok::<
            InvocationView,
            ErrorView,
        >(InvocationView::MoveWorkspaceToDisplay { direction: DisplayDirection::Previous }),
{
    lemma_words();
}

/// Help is called by one of its words, whatever follows, and by nothing else.
pub proof fn help_is_called_by_its_words(args: Seq<Seq<char>>)
    ensures
        cli::invocation_of(args) == Ok::<InvocationView, ErrorView>(InvocationView::Help)
            <==> args.len() > 0 && (args[0] == "-h"@ || args[0] == "--help"@ || args[0]
            == "help"@),
{
    lemma_words();
}

/// The failure for a command line that is not understood.
pub open spec fn complaint(message: Seq<char>) -> ErrorView {
    ErrorView {
        kind: ErrorKind::InvalidInput,
        message: message + "\n"@ + "usage:\n  rift-ergo move-follow <workspace-name>\n  rift-ergo switch-workspace <workspace-name>\n  rift-ergo switch-workspace-both <workspace-name>\n  rift-ergo move-window-to-display <next|prev>\n  rift-ergo move-workspace-to-display <next|prev>\n  rift-ergo rehome [workspace-name]"@,
    }
}

/// Whether a word calls a command that takes a workspace.
pub open spec fn takes_workspace(word: Seq<char>) -> bool {
    word == "move-follow"@ || word == "switch-workspace"@ || word == "switch-workspace-both"@
}

/// Whether a word calls a command that takes a direction.
pub open spec fn takes_direction(word: Seq<char>) -> bool {
    word == "move-window-to-display"@ || word == "move-workspace-to-display"@
}

/// What is missing from a command line, or too much in it, is named.
pub proof fn what_is_wrong_with_a_command_line_is_named(args: Seq<Seq<char>>)
    ensures
        args.len() == 0 ==> cli::invocation_of(args) == Err::<InvocationView, ErrorView>(
            complaint("missing command"@),
        ),
        args.len() == 1 && takes_workspace(args[0]) ==> cli::invocation_of(args) == Err::<
            InvocationView,
            ErrorView,
        >(complaint("missing workspace"@)),
        args.len() == 1 && takes_direction(args[0]) ==> cli::invocation_of(args) == Err::<
            InvocationView,
            ErrorView,
        >(complaint("missing display direction"@)),
        args.len() > 2 && (takes_workspace(args[0]) || args[0] == "rehome"@)
            ==> cli::invocation_of(args) == Err::<InvocationView, ErrorView>(
            complaint("too many arguments"@),
        ),
        args.len() > 2 && takes_direction(args[0]) && (exists|direction: DisplayDirection|
            means_direction(args[1], direction)) ==> cli::invocation_of(args) == Err::<
            InvocationView,
            ErrorView,
        >(complaint("too many arguments"@)),
        args.len() >= 2 && takes_direction(args[0]) && !means_direction(
            args[1],
            DisplayDirection::Next,
        ) && !means_direction(args[1], DisplayDirection::Previous) ==> cli::invocation_of(args)
            == Err::<InvocationView, ErrorView>(
            complaint("invalid display direction: "@ + args[1] + "; expected next or prev"@),
        ),
        args.len() > 0 && !takes_workspace(args[0]) && !takes_direction(args[0]) && args[0]
            != "rehome"@ && args[0] != "-h"@ && args[0] != "--help"@ && args[0] != "help"@
            ==> cli::invocation_of(args) == Err::<InvocationView, ErrorView>(
            complaint("unknown command: "@ + args[0]),
        ),
{
    lemma_words();
}

/// Each command does what it is called for.
pub proof fn each_command_does_its_own_work(
    workspace_name: Seq<char>,
    direction: DisplayDirection,
    source: Option<Seq<char>>,
)
    ensures
        cli::program_of(InvocationView::MoveFollow { workspace_name })
            == move_follow::move_follow_program(workspace_name),
        cli::program_of(InvocationView::SwitchWorkspace { workspace_name })
            == switch_workspace::switch_workspace_program(workspace_name),
        cli::program_of(InvocationView::SwitchWorkspaceBoth { workspace_name })
            == switch_workspace_both::switch_workspace_both_program(workspace_name),
        cli::program_of(InvocationView::MoveWindowToDisplay { direction })
            == move_window_to_display::move_window_program(direction),
        cli::program_of(InvocationView::MoveWorkspaceToDisplay { direction })
            == move_workspace_to_display::move_workspace_program(direction),
        cli::program_of(InvocationView::Rehome { source }) == rehome::rehome_program(source),
        cli::program_of(InvocationView::Help) == Program::Return(()),
{
}

/// The contents of a command are those of its fields.
pub proof fn a_command_holds_what_it_says(
    name: String,
    direction: DisplayDirection,
    source: Option<String>,
)
    ensures
        (Invocation::MoveFollow { workspace_name: name })@ == (InvocationView::MoveFollow {
            workspace_name: name@,
        }),
        (Invocation::SwitchWorkspace { workspace_name: name })@ == (
        InvocationView::SwitchWorkspace { workspace_name: name@ }),
        (Invocation::SwitchWorkspaceBoth { workspace_name: name })@ == (
        InvocationView::SwitchWorkspaceBoth { workspace_name: name@ }),
        (Invocation::MoveWindowToDisplay { direction })@ == (InvocationView::MoveWindowToDisplay {
            direction,
        }),
        (Invocation::MoveWorkspaceToDisplay { direction })@ == (
        InvocationView::MoveWorkspaceToDisplay { direction }),
        source matches Some(source) ==> (Invocation::Rehome { source: Some(source) })@ == (
        InvocationView::Rehome { source: Some(source@) }),
        (Invocation::Rehome { source: None })@ == (InvocationView::Rehome { source: None }),
        Invocation::Help@ == InvocationView::Help,
{
}

/// The place after or before another one in a row that goes around.
pub open spec fn place_beside(at: int, direction: DisplayDirection, count: int) -> int {
    match direction {
        DisplayDirection::Next => if at == count - 1 {
            0
        } else {
            at + 1
        },
        DisplayDirection::Previous => if at == 0 {
            count - 1
        } else {
            at - 1
        },
    }
}

/// Fewer than two displays have no neighbours. Else the neighbour of a display is the one after or
/// before the place where it first stands, around the end; and a display that stands nowhere has
/// disappeared.
pub proof fn the_neighbour_stands_beside_the_display(
    displays: Seq<DisplayData>,
    source_uuid: Seq<char>,
    direction: DisplayDirection,
)
    ensures
        displays.len() < 2 <==> workflow::neighbour(displays, source_uuid, direction) == Ok::<
            Option<DisplayData>,
            ErrorView,
        >(None),
        forall|at: int| #[trigger]
            queries::is_display(displays, source_uuid, at) && displays.len() >= 2
                ==> workflow::neighbour(displays, source_uuid, direction) == Ok::<
                Option<DisplayData>,
                ErrorView,
            >(Some(displays[place_beside(at, direction, displays.len() as int)])),
        displays.len() >= 2 && (forall|i: int|
            0 <= i < displays.len() ==> (#[trigger] displays[i]).uuid@ != source_uuid)
            ==> workflow::neighbour(displays, source_uuid, direction) == Err::<
            Option<DisplayData>,
            ErrorView,
        >(ErrorView { kind: ErrorKind::Other, message: "source display disappeared"@ }),
{
    assert forall|at: int| #[trigger]
        queries::is_display(displays, source_uuid, at) && displays.len()
            >= 2 implies workflow::neighbour(displays, source_uuid, direction) == Ok::<
        Option<DisplayData>,
        ErrorView,
    >(Some(displays[place_beside(at, direction, displays.len() as int)])) by {
        assert(workflow::stands_at(displays, source_uuid, at));
        let n = displays.len() as int;
        if at == n - 1 {
            vstd::arithmetic::div_mod::lemma_mod_self_0(n);
        } else {
            vstd::arithmetic::div_mod::lemma_small_mod((at + 1) as nat, n as nat);
        }
        if at == 0 {
            vstd::arithmetic::div_mod::lemma_small_mod((n - 1) as nat, n as nat);
        } else {
            vstd::arithmetic::div_mod::lemma_mod_add_multiples_vanish(at - 1, n);
            vstd::arithmetic::div_mod::lemma_small_mod((at - 1) as nat, n as nat);
        }
    }
}

} // verus!
