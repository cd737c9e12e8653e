//! The command line: which command is meant, and what it does.
use crate::dialogue;
use crate::dialogue::{Next, Program, Reply};
use crate::error;
use crate::error::{usage_error, ErgoError, ErrorView};
use crate::text;
use crate::text::{join2, same_text};
use crate::workflow;
use crate::workflow::DisplayDirection;
use vstd::prelude::*;

verus! {

/// A command with its arguments.
#[derive(Debug, PartialEq, Eq)]
pub enum Invocation {
    MoveFollow { workspace_name: String },
    SwitchWorkspace { workspace_name: String },
    SwitchWorkspaceBoth { workspace_name: String },
    MoveWindowToDisplay { direction: DisplayDirection },
    MoveWorkspaceToDisplay { direction: DisplayDirection },
    Rehome { source: Option<String> },
    Help,
}

/// The contents of an [`Invocation`].
pub enum InvocationView {
    MoveFollow { workspace_name: Seq<char> },
    SwitchWorkspace { workspace_name: Seq<char> },
    SwitchWorkspaceBoth { workspace_name: Seq<char> },
    MoveWindowToDisplay { direction: DisplayDirection },
    MoveWorkspaceToDisplay { direction: DisplayDirection },
    Rehome { source: Option<Seq<char>> },
    Help,
}

impl View for Invocation {
    type V = InvocationView;

    open spec fn view(&self) -> InvocationView {
        match *self {
            Invocation::MoveFollow { workspace_name } => InvocationView::MoveFollow {
                workspace_name: workspace_name@,
            },
            Invocation::SwitchWorkspace { workspace_name } => InvocationView::SwitchWorkspace {
                workspace_name: workspace_name@,
            },
            Invocation::SwitchWorkspaceBoth { workspace_name } =>
                InvocationView::SwitchWorkspaceBoth { workspace_name: workspace_name@ },
            Invocation::MoveWindowToDisplay { direction } => InvocationView::MoveWindowToDisplay {
                direction,
            },
            Invocation::MoveWorkspaceToDisplay { direction } =>
                InvocationView::MoveWorkspaceToDisplay { direction },
            Invocation::Rehome { source } => InvocationView::Rehome {
                source: text::optional_text(source),
            },
            Invocation::Help => InvocationView::Help,
        }
    }
}

/// The characters of the arguments.
pub open spec fn argument_texts(args: Seq<String>) -> Seq<Seq<char>> {
    Seq::new(args.len(), |i: int| args[i]@)
}

/// The one argument of a command that takes a workspace.
pub open spec fn only_workspace(args: Seq<Seq<char>>) -> Result<Seq<char>, ErrorView> {
    if args.len() < 2 {
        Err(error::usage_failure("missing workspace"@))
    } else if args.len() > 2 {
        Err(error::usage_failure("too many arguments"@))
    } else {
        Ok(args[1])
    }
}

/// The one argument of a command that takes a direction.
pub open spec fn only_direction(args: Seq<Seq<char>>) -> Result<DisplayDirection, ErrorView> {
    if args.len() < 2 {
        Err(error::usage_failure("missing display direction"@))
    } else {
        match workflow::direction_of(args[1]) {
            Err(error) => Err(error),
            Ok(direction) => if args.len() > 2 {
                Err(error::usage_failure("too many arguments"@))
            } else {
                Ok(direction)
            },
        }
    }
}

/// The optional argument of a command that takes a workspace or none.
pub open spec fn optional_workspace(args: Seq<Seq<char>>) -> Result<Option<Seq<char>>, ErrorView> {
    if args.len() > 2 {
        Err(error::usage_failure("too many arguments"@))
    } else if args.len() == 2 {
        Ok(Some(args[1]))
    } else {
        Ok(None)
    }
}

/// The command that the arguments stand for.
pub open spec fn invocation_of(args: Seq<Seq<char>>) -> Result<InvocationView, ErrorView> {
    if args.len() == 0 {
        Err(error::usage_failure("missing command"@))
    } else if args[0] == "move-follow"@ {
        match only_workspace(args) {
            Ok(workspace_name) => Ok(InvocationView::MoveFollow { workspace_name }),
            Err(error) => Err(error),
        }
    } else if args[0] == "switch-workspace"@ {
        match only_workspace(args) {
            Ok(workspace_name) => Ok(InvocationView::SwitchWorkspace { workspace_name }),
            Err(error) => Err(error),
        }
    } else if args[0] == "switch-workspace-both"@ {
        match only_workspace(args) {
            Ok(workspace_name) => Ok(InvocationView::SwitchWorkspaceBoth { workspace_name }),
            Err(error) => Err(error),
        }
    } else if args[0] == "move-window-to-display"@ {
        match only_direction(args) {
            Ok(direction) => Ok(InvocationView::MoveWindowToDisplay { direction }),
            Err(error) => Err(error),
        }
    } else if args[0] == "move-workspace-to-display"@ {
        match only_direction(args) {
            Ok(direction) => Ok(InvocationView::MoveWorkspaceToDisplay { direction }),
            Err(error) => Err(error),
        }
    } else if args[0] == "rehome"@ {
        match optional_workspace(args) {
            Ok(source) => Ok(InvocationView::Rehome { source }),
            Err(error) => Err(error),
        }
    } else if args[0] == "-h"@ || args[0] == "--help"@ || args[0] == "help"@ {
        Ok(InvocationView::Help)
    } else {
        Err(error::usage_failure("unknown command: "@ + args[0]))
    }
}

/// What a command does.
pub open spec fn program_of(invocation: InvocationView) -> Program<()> {
    match invocation {
        InvocationView::MoveFollow { workspace_name } =>
            workflow::move_follow::move_follow_program(workspace_name),
        InvocationView::SwitchWorkspace { workspace_name } =>
            workflow::switch_workspace::switch_workspace_program(workspace_name),
        InvocationView::SwitchWorkspaceBoth { workspace_name } =>
            workflow::switch_workspace_both::switch_workspace_both_program(workspace_name),
        InvocationView::MoveWindowToDisplay { direction } =>
            workflow::move_window_to_display::move_window_program(direction),
        InvocationView::MoveWorkspaceToDisplay { direction } =>
            workflow::move_workspace_to_display::move_workspace_program(direction),
        InvocationView::Rehome { source } => workflow::rehome::rehome_program(source),
        InvocationView::Help => Program::Return(()),
    }
}

/// The contents of a command, or of the failure to read it.
pub open spec fn seen_invocation(result: Result<Invocation, ErgoError>) -> Result<
    InvocationView,
    ErrorView,
> {
    match result {
        Ok(invocation) => Ok(invocation@),
        Err(error) => Err(error@),
    }
}

fn require_no_more_arguments(args: &Vec<String>, read: usize) -> (checked: Result<(), ErgoError>)
    ensures
        checked is Ok <==> args.len() <= read,
        checked matches Err(error) ==> error@ == error::usage_failure("too many arguments"@),
{
    if args.len() > read {
        return Err(usage_error("too many arguments"));
    }
    Ok(())
}

/// The contents of a workspace argument, or of the failure to read it.
pub open spec fn seen_workspace(result: Result<String, ErgoError>) -> Result<Seq<char>, ErrorView> {
    match result {
        Ok(name) => Ok(name@),
        Err(error) => Err(error@),
    }
}

fn parse_workspace(args: &Vec<String>) -> (workspace_name: Result<String, ErgoError>)
    ensures
        seen_workspace(workspace_name) == only_workspace(argument_texts(args@)),
{
    if args.len() < 2 {
        return Err(usage_error("missing workspace"));
    }
    require_no_more_arguments(args, 2)?;
    Ok(args[1].clone())
}

fn parse_display_direction(args: &Vec<String>) -> (direction: Result<DisplayDirection, ErgoError>)
    ensures
        workflow::seen_direction(direction) == only_direction(argument_texts(args@)),
{
    if args.len() < 2 {
        return Err(usage_error("missing display direction"));
    }
    let direction = DisplayDirection::parse(&args[1])?;
    require_no_more_arguments(args, 2)?;
    Ok(direction)
}

/// Reads the arguments that follow the program's name.
pub fn parse(args: &Vec<String>) -> (invocation: Result<Invocation, ErgoError>)
    ensures
        seen_invocation(invocation) == invocation_of(argument_texts(args@)),
{
    if args.len() == 0 {
        return Err(usage_error("missing command"));
    }
    let command = &args[0];
    if same_text(command, "move-follow") {
        Ok(Invocation::MoveFollow { workspace_name: parse_workspace(args)? })
    } else if same_text(command, "switch-workspace") {
        Ok(Invocation::SwitchWorkspace { workspace_name: parse_workspace(args)? })
    } else if same_text(command, "switch-workspace-both") {
        Ok(Invocation::SwitchWorkspaceBoth { workspace_name: parse_workspace(args)? })
    } else if same_text(command, "move-window-to-display") {
        Ok(Invocation::MoveWindowToDisplay { direction: parse_display_direction(args)? })
    } else if same_text(command, "move-workspace-to-display") {
        Ok(Invocation::MoveWorkspaceToDisplay { direction: parse_display_direction(args)? })
    } else if same_text(command, "rehome") {
        require_no_more_arguments(args, 2)?;
        let source = if args.len() == 2 {
            Some(args[1].clone())
        } else {
            None
        };
        Ok(Invocation::Rehome { source })
    } else if same_text(command, "-h") || same_text(command, "--help") || same_text(
        command,
        "help",
    ) {
        Ok(Invocation::Help)
    } else {
        Err(usage_error(&join2("unknown command: ", command)))
    }
}

/// What a command has come to over the replies so far.
pub fn run(invocation: &Invocation, replies: &Vec<Reply>) -> (next: Next)
    ensures
        dialogue::reaches(program_of(invocation@), replies@, next),
{
    match invocation {
        Invocation::MoveFollow { workspace_name } => workflow::move_follow(workspace_name, replies),
        Invocation::SwitchWorkspace { workspace_name } => workflow::switch_workspace(
            workspace_name,
            replies,
        ),
        Invocation::SwitchWorkspaceBoth { workspace_name } => workflow::switch_workspace_both(
            workspace_name,
            replies,
        ),
        Invocation::MoveWindowToDisplay { direction } => workflow::move_window_to_display(
            *direction,
            replies,
        ),
        Invocation::MoveWorkspaceToDisplay { direction } => workflow::move_workspace_to_display(
            *direction,
            replies,
        ),
        Invocation::Rehome { source } => match source {
            Some(name) => workflow::rehome(Some(name), replies),
            None => workflow::rehome(None, replies),
        },
        Invocation::Help => Next::Finished(Ok(())),
    }
}

} // verus!
