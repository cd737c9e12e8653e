use rift_ergo::dialogue::{Ask, Next, Reply, Request, Rift, Stop};
use rift_ergo::error::{ErgoError, ErrorKind};
use rift_ergo::geometry::{Coordinate, Extent, FrameValidation, Rect};
use rift_ergo::model::{DisplayData, WindowData, WindowId, WorkspaceData};
use rift_ergo::names::NameMap;
use rift_ergo::policy::{Policy, Profile, RoutedWindow, WindowHome};
use rift_ergo::rift::TargetContext;
use rift_ergo::transaction::RiftTransaction;
use rift_ergo::workflow::move_workspace_to_display::MoveWorkspaceWorkflow;
use rift_ergo::workflow::placement::verify_target;
use rift_ergo::workflow::rehome;
use rift_ergo::workflow::rehome::group_by_destination;

fn side() -> Extent {
    Extent {
        start: Coordinate::from_bits(0.0f64.to_bits()),
        center: Coordinate::from_bits(50.0f64.to_bits()),
        end: Coordinate::from_bits(100.0f64.to_bits()),
    }
}

fn frame() -> Rect {
    Rect { horizontal: side(), vertical: side() }
}

fn window(idx: u32, is_focused: bool) -> WindowData {
    WindowData {
        id: WindowId { pid: 1, idx },
        window_server_id: None,
        is_focused,
        frame: frame(),
        bundle_id: None,
    }
}

fn workspace(name: &str, windows: &[u32]) -> WorkspaceData {
    WorkspaceData {
        index: 4,
        name: name.into(),
        layout_mode: "stack".into(),
        is_active: true,
        windows: windows.iter().map(|idx| window(*idx, false)).collect(),
    }
}

fn holding(windows: &[u32]) -> Reply {
    Reply::Workspaces(vec![workspace("A", &[]), workspace("W", windows)])
}

fn info(idx: u32, is_focused: bool) -> Reply {
    Reply::WindowInfo(window(idx, is_focused))
}

fn target() -> TargetContext {
    TargetContext {
        display_uuid: "ext".into(),
        space: 2,
        workspace_index: 4,
        display_is_active: true,
        workspace_is_active: true,
        focus_anchor: None,
        frame_validation: FrameValidation::MembershipOnly,
    }
}

fn failure(message: &str) -> Stop {
    Stop::Failed(ErgoError { kind: ErrorKind::Other, message: message.into() })
}

fn verify(replies: Vec<Reply>) -> Result<(), Stop> {
    verify_target(&mut Rift::over(&replies), &target(), "W", &window(1, false))
}

#[test]
fn a_window_in_place_is_verified() {
    assert_eq!(verify(vec![holding(&[1]), info(1, true)]), Ok(()));
}

#[test]
fn a_window_out_of_place_is_not() {
    assert_eq!(verify(vec![holding(&[2])]), Err(failure("window disappeared after move")));
    let astray = vec![Reply::Workspaces(vec![workspace("A", &[1])]), info(1, true)];
    assert_eq!(
        verify(astray),
        Err(failure("final placement mismatch: expected W on ext, got A on ext"))
    );
    assert_eq!(
        verify(vec![holding(&[1]), info(1, false)]),
        Err(failure("final placement mismatch: expected W on ext, got W on ext"))
    );
}

#[test]
fn verification_asks_for_what_it_lacks() {
    let ask = Ask::Workspaces { space: 2 };
    assert_eq!(verify(vec![]), Err(Stop::Waiting(Request::Outside(ask))));
    let ask = Ask::WindowInfo { window_id: WindowId { pid: 1, idx: 1 } };
    assert_eq!(verify(vec![holding(&[1])]), Err(Stop::Waiting(Request::Outside(ask))));
}

/// The replies up to the last check of a move of the windows 5 and 1, of which 1 is focused.
fn replies_up_to_the_requirement() -> Vec<Reply> {
    vec![
        // The two transfers.
        Reply::Done,
        Reply::Done,
        // Nothing is missing.
        holding(&[5, 1]),
        info(5, false),
        info(1, true),
        // The window is focused.
        holding(&[5, 1]),
        info(1, true),
        info(1, true),
        // All is as it should be, so there is nothing to restore.
        holding(&[5, 1]),
        info(5, false),
        info(1, true),
        holding(&[5, 1]),
        info(1, true),
        info(1, true),
    ]
}

fn move_windows(replies: &Vec<Reply>) -> Result<(), Stop> {
    let windows = vec![window(5, false), window(1, true)];
    let focused = window(1, true);
    let work = MoveWorkspaceWorkflow {
        transaction: RiftTransaction { step_timeout: 2_500, batch_deadline: None },
        target: target(),
        workspace_name: "W",
        windows: &windows,
        focused_window: &focused,
    };
    work.run(&mut Rift::over(replies))
}

#[test]
fn a_window_that_left_again_is_reported() {
    let mut replies = replies_up_to_the_requirement();
    replies.push(holding(&[1]));
    assert_eq!(
        move_windows(&replies),
        Err(failure("not every window reached workspace W on ext"))
    );
}

#[test]
fn a_focus_that_left_again_is_reported() {
    let mut replies = replies_up_to_the_requirement();
    replies.extend([holding(&[5, 1]), info(5, false), info(1, false)]);
    replies.extend([holding(&[5, 1]), info(1, false), info(1, false)]);
    assert_eq!(
        move_windows(&replies),
        Err(failure("original workspace focus was not restored"))
    );
}

#[test]
fn a_moved_workspace_is_settled_and_verified_again() {
    let mut replies = replies_up_to_the_requirement();
    let complete = || {
        vec![
            holding(&[5, 1]),
            info(5, false),
            info(1, true),
            holding(&[5, 1]),
            info(1, true),
            info(1, true),
        ]
    };
    replies.extend(complete());
    assert!(matches!(
        move_windows(&replies),
        Err(Stop::Waiting(Request::Transact(operation)))
            if operation.description == "workspace placement"
    ));
    replies.push(Reply::Done);
    replies.extend(complete());
    assert!(matches!(move_windows(&replies), Err(Stop::Waiting(_))));
    replies.extend(complete());
    assert_eq!(move_windows(&replies), Ok(()));
}

#[test]
fn the_windows_are_ordered_with_the_focused_one_last() {
    let windows = vec![window(1, true), window(5, false), window(2, false)];
    let focused = window(1, true);
    let work = MoveWorkspaceWorkflow {
        transaction: RiftTransaction { step_timeout: 2_500, batch_deadline: None },
        target: target(),
        workspace_name: "W",
        windows: &windows,
        focused_window: &focused,
    };
    let indices = |windows: Vec<WindowData>| {
        windows.iter().map(|window| window.id.idx).collect::<Vec<_>>()
    };
    assert_eq!(indices(work.ordered_windows()), vec![5, 2, 1]);
    let wanted = vec![WindowId { pid: 1, idx: 1 }, WindowId { pid: 1, idx: 5 }];
    assert_eq!(indices(work.pending_windows(&wanted)), vec![5, 1]);
    assert!(work.pending_windows(&vec![]).is_empty());
}

fn routed(idx: u32, display_uuid: &str, workspace_name: &str) -> RoutedWindow {
    RoutedWindow {
        window: window(idx, false),
        home: WindowHome {
            display_uuid: display_uuid.into(),
            workspace_name: workspace_name.into(),
            label: format!("app {idx}"),
        },
    }
}

#[test]
fn windows_are_grouped_by_home_in_order() {
    let groups = group_by_destination(&vec![
        routed(1, "ext", "W"),
        routed(2, "built", "W"),
        routed(3, "ext", "W"),
        routed(4, "ext", "A"),
        routed(5, "built", "W"),
    ]);
    let shape = groups
        .iter()
        .map(|group| {
            (
                group.display_uuid.as_str(),
                group.workspace_name.as_str(),
                group.windows.iter().map(|routed| routed.window.id.idx).collect::<Vec<_>>(),
            )
        })
        .collect::<Vec<_>>();
    assert_eq!(
        shape,
        vec![("ext", "W", vec![1, 3]), ("built", "W", vec![2, 5]), ("ext", "A", vec![4])]
    );
    assert!(group_by_destination(&vec![]).is_empty());
}

fn displays() -> Reply {
    Reply::Displays(vec![DisplayData {
        uuid: "ext".into(),
        name: None,
        frame: frame(),
        space: Some(2),
        is_active_context: true,
        active_space_ids: vec![],
        inactive_space_ids: vec![],
    }])
}

#[test]
fn windows_that_are_not_at_home_in_the_end_are_named() {
    let policy = Policy {
        display_aliases: NameMap::new(),
        profiles: vec![Profile {
            name: "any".into(),
            required_display_aliases: vec![],
            fallback_display: None,
            workspace_displays: NameMap::new(),
        }],
    };
    let mut replies = vec![
        Reply::Connected { available: true },
        displays(),
        Reply::Policy(policy),
        // The focused workspace.
        Reply::Windows(vec![window(1, true), window(2, false)]),
        Reply::Workspaces(vec![workspace("A", &[1, 2]), workspace("W", &[])]),
        Reply::Routed(vec![routed(1, "ext", "W"), routed(2, "ext", "W")]),
        // The windows are not at home.
        displays(),
        holding(&[]),
        holding(&[]),
        // The batch begins.
        Reply::Now(0),
        Reply::Done,
        // The windows are on the display, but not in the workspace.
        displays(),
        holding(&[]),
        Reply::Workspaces(vec![workspace("A", &[1, 2])]),
        info(1, true),
        info(1, true),
        Reply::Workspaces(vec![workspace("A", &[1, 2])]),
        info(2, true),
        info(2, true),
        holding(&[]),
    ];
    match rehome::rehome(None, &replies) {
        Next::Ask(Request::Transact(operation)) => {
            assert_eq!(operation.description, "workspace placement for W");
            assert_eq!(operation.commands.len(), 2);
        }
        next => panic!("{next:?}"),
    }
    // The operation is done, the source shown again, and the windows are gone.
    replies.extend([Reply::Done, displays()]);
    replies.push(Reply::Workspaces(vec![workspace("A", &[1, 2])]));
    replies.extend([displays(), holding(&[1, 2]), holding(&[1])]);
    replies.push(info(1, false));
    let message = "rehome verification failed for app 1, app 2: expected workspace W on ext";
    assert_eq!(
        rehome::rehome(None, &replies),
        Next::Finished(Err(ErgoError { kind: ErrorKind::Other, message: message.into() }))
    );
}
