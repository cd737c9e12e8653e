use rift_ergo::cli::{parse, run, Invocation};
use rift_ergo::dialogue::{Ask, Next, Request};
use rift_ergo::error::{usage, ErrorKind};
use rift_ergo::workflow::DisplayDirection;

fn args(words: &[&str]) -> Vec<String> {
    words.iter().map(|word| word.to_string()).collect()
}

fn accepted(words: &[&str]) -> Invocation {
    parse(&args(words)).unwrap()
}

fn refused(words: &[&str]) -> String {
    let error = parse(&args(words)).unwrap_err();
    assert_eq!(error.kind, ErrorKind::InvalidInput);
    let (message, rest) = error.message.split_once('\n').unwrap();
    assert_eq!(rest, usage());
    message.to_string()
}

#[test]
fn commands_are_recognised() {
    assert_eq!(
        accepted(&["move-follow", "W"]),
        Invocation::MoveFollow { workspace_name: "W".into() }
    );
    assert_eq!(
        accepted(&["switch-workspace", "W"]),
        Invocation::SwitchWorkspace { workspace_name: "W".into() }
    );
    assert_eq!(
        accepted(&["switch-workspace-both", "W"]),
        Invocation::SwitchWorkspaceBoth { workspace_name: "W".into() }
    );
    assert_eq!(
        accepted(&["move-window-to-display", "next"]),
        Invocation::MoveWindowToDisplay { direction: DisplayDirection::Next }
    );
    assert_eq!(
        accepted(&["move-workspace-to-display", "prev"]),
        Invocation::MoveWorkspaceToDisplay { direction: DisplayDirection::Previous }
    );
    assert_eq!(
        accepted(&["move-workspace-to-display", "previous"]),
        Invocation::MoveWorkspaceToDisplay { direction: DisplayDirection::Previous }
    );
    assert_eq!(accepted(&["rehome"]), Invocation::Rehome { source: None });
    assert_eq!(accepted(&["rehome", "W"]), Invocation::Rehome { source: Some("W".into()) });
}

#[test]
fn help_is_given_whatever_follows() {
    for word in ["-h", "--help", "help"] {
        assert_eq!(accepted(&[word]), Invocation::Help);
        assert_eq!(accepted(&[word, "more", "and", "more"]), Invocation::Help);
    }
    assert_eq!(run(&Invocation::Help, &vec![]), Next::Finished(Ok(())));
}

#[test]
fn misuse_is_refused_with_the_usage() {
    assert_eq!(refused(&[]), "missing command");
    assert_eq!(refused(&["fly"]), "unknown command: fly");
    for command in ["move-follow", "switch-workspace", "switch-workspace-both"] {
        assert_eq!(refused(&[command]), "missing workspace");
        assert_eq!(refused(&[command, "W", "X"]), "too many arguments");
    }
    for command in ["move-window-to-display", "move-workspace-to-display"] {
        assert_eq!(refused(&[command]), "missing display direction");
        assert_eq!(refused(&[command, "next", "X"]), "too many arguments");
        assert_eq!(
            refused(&[command, "up"]),
            "invalid display direction: up; expected next or prev"
        );
        assert_eq!(
            refused(&[command, "up", "X"]),
            "invalid display direction: up; expected next or prev"
        );
    }
    assert_eq!(refused(&["rehome", "W", "X"]), "too many arguments");
}

#[test]
fn the_usage_lists_the_commands() {
    assert_eq!(
        usage(),
        "usage:
  rift-ergo move-follow <workspace-name>
  rift-ergo switch-workspace <workspace-name>
  rift-ergo switch-workspace-both <workspace-name>
  rift-ergo move-window-to-display <next|prev>
  rift-ergo move-workspace-to-display <next|prev>
  rift-ergo rehome [workspace-name]"
    );
}

#[test]
fn every_command_first_asks_to_connect() {
    for words in [
        vec!["move-follow", "W"],
        vec!["switch-workspace", "W"],
        vec!["switch-workspace-both", "W"],
        vec!["move-window-to-display", "next"],
        vec!["move-workspace-to-display", "next"],
        vec!["rehome"],
        vec!["rehome", "W"],
    ] {
        assert_eq!(
            run(&accepted(&words), &vec![]),
            Next::Ask(Request::Outside(Ask::Connect))
        );
    }
}
