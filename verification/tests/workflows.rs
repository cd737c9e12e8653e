use std::collections::VecDeque;

use rift_ergo::cli::Invocation;
use rift_ergo::dialogue::{Ask, Reply};
use rift_ergo::error::{ErgoError, ErrorKind};
use rift_ergo::geometry::{Coordinate, Extent, Rect};
use rift_ergo::model::{
    DisplayData, RiftCommand, RiftEvent, WindowData, WindowId, WorkspaceData,
};
use rift_ergo::names::NameMap;
use rift_ergo::policy::{DisplayAlias, Policy, Profile, RoutedWindow, WindowHome};
use rift_ergo::session::{Progress, Session};
use rift_ergo::workflow::DisplayDirection;

const PID: i32 = 42;

/// A workspace on a simulated display, with the indices of its windows.
struct Workspace {
    name: &'static str,
    windows: Vec<u32>,
}

/// A simulated display: a column of workspaces, one of them shown.
struct Screen {
    uuid: &'static str,
    space: u64,
    active: usize,
    workspaces: Vec<Workspace>,
    fullscreen: bool,
}

/// Rift, its events and the clock, simulated.
struct World {
    screens: Vec<Screen>,
    context: usize,
    focused: u32,
    clock: u64,
    subscribed: bool,
    events: VecDeque<RiftEvent>,
    executed: Vec<RiftCommand>,
    scripts: Vec<String>,
    acquired: Vec<String>,
    waits: Vec<String>,
    /// How many of the next commands are lost.
    lost: usize,
    /// How many of the next focus commands are lost.
    lost_focus: usize,
    /// Events are not sent.
    silent: bool,
    available: bool,
    homes: Vec<(u32, &'static str, &'static str)>,
    assigned: Vec<(&'static str, &'static str)>,
    fail: Option<fn(&Ask) -> Option<Reply>>,
}

fn coordinate(value: f64) -> Coordinate {
    Coordinate::from_bits(value.to_bits())
}

fn extent(start: f64, size: f64) -> Extent {
    Extent {
        start: coordinate(start),
        center: coordinate(start + size / 2.0),
        end: coordinate(start + size),
    }
}

fn id(idx: u32) -> WindowId {
    WindowId { pid: PID, idx }
}

fn transfer(uuid: &str, idx: u32) -> RiftCommand {
    RiftCommand::MoveWindowToDisplay { display_uuid: uuid.into(), window_index: idx }
}

fn focus(idx: u32) -> RiftCommand {
    RiftCommand::FocusWindow { window_id: id(idx), window_server_id: Some(1000 + idx) }
}

fn switch(index: usize) -> RiftCommand {
    RiftCommand::SwitchToWorkspace { workspace_index: index }
}

fn place(index: usize, follow: bool, idx: u32) -> RiftCommand {
    RiftCommand::MoveWindowToWorkspace { workspace_index: index, follow, window_index: idx }
}

fn timed_out() -> ErgoError {
    ErgoError { kind: ErrorKind::TimedOut, message: "slow".into() }
}

impl World {
    /// Two displays with the workspaces A and W each; A is shown on both.
    fn new(windows: [[Vec<u32>; 2]; 2], focused: u32) -> World {
        let [[a, b], [c, d]] = windows;
        let screen = |uuid, space, first, second| Screen {
            uuid,
            space,
            active: 0,
            workspaces: vec![
                Workspace { name: "A", windows: first },
                Workspace { name: "W", windows: second },
            ],
            fullscreen: false,
        };
        World {
            screens: vec![screen("built", 1, a, b), screen("ext", 2, c, d)],
            context: 0,
            focused,
            clock: 0,
            subscribed: false,
            events: VecDeque::new(),
            executed: vec![],
            scripts: vec![],
            acquired: vec![],
            waits: vec![],
            lost: 0,
            lost_focus: 0,
            silent: false,
            available: true,
            homes: vec![],
            assigned: vec![],
            fail: None,
        }
    }

    fn place_of(&self, idx: u32) -> Option<(usize, usize)> {
        for (s, screen) in self.screens.iter().enumerate() {
            for (w, workspace) in screen.workspaces.iter().enumerate() {
                if workspace.windows.contains(&idx) {
                    return Some((s, w));
                }
            }
        }
        None
    }

    fn window(&self, idx: u32) -> WindowData {
        let (screen, _) = self.place_of(idx).unwrap();
        WindowData {
            id: id(idx),
            window_server_id: Some(1000 + idx),
            is_focused: self.focused == idx,
            frame: Rect {
                horizontal: extent(f64::from(idx) * 5000.0, 800.0),
                vertical: extent(1000.0 * screen as f64 + 10.0, 900.0),
            },
            bundle_id: Some(format!("app.{idx}")),
        }
    }

    fn workspaces(&self, space: u64) -> Vec<WorkspaceData> {
        let screen = self.screens.iter().find(|screen| screen.space == space).unwrap();
        screen
            .workspaces
            .iter()
            .enumerate()
            .map(|(index, workspace)| WorkspaceData {
                index,
                name: workspace.name.into(),
                layout_mode: "scrolling".into(),
                is_active: screen.active == index,
                windows: workspace.windows.iter().map(|idx| self.window(*idx)).collect(),
            })
            .collect()
    }

    fn displays(&self) -> Vec<DisplayData> {
        self.screens
            .iter()
            .enumerate()
            .map(|(at, screen)| DisplayData {
                uuid: screen.uuid.into(),
                name: None,
                frame: Rect {
                    horizontal: extent(0.0, 1000.0),
                    vertical: extent(1000.0 * at as f64, 1000.0),
                },
                space: None,
                is_active_context: self.context == at,
                active_space_ids: if screen.fullscreen { vec![] } else { vec![screen.space] },
                inactive_space_ids: if screen.fullscreen { vec![screen.space] } else { vec![] },
            })
            .collect()
    }

    fn tell(&mut self, screen: usize, workspace: usize) {
        if !self.silent {
            self.events.push_back(RiftEvent::WindowsChanged {
                workspace_name: self.screens[screen].workspaces[workspace].name.into(),
                display_uuid: Some(self.screens[screen].uuid.into()),
            });
        }
    }

    fn take(&mut self, idx: u32) {
        for screen in &mut self.screens {
            for workspace in &mut screen.workspaces {
                workspace.windows.retain(|window| *window != idx);
            }
        }
    }

    fn execute(&mut self, command: &RiftCommand) {
        if self.lost > 0 {
            self.lost -= 1;
            return;
        }
        match command {
            RiftCommand::MoveMouseToDisplay { .. } => {}
            RiftCommand::FocusWindow { window_id, .. } => {
                if self.lost_focus > 0 {
                    self.lost_focus -= 1;
                    return;
                }
                let (screen, workspace) = self.place_of(window_id.idx).unwrap();
                self.focused = window_id.idx;
                self.context = screen;
                self.screens[screen].active = workspace;
                self.tell(screen, workspace);
            }
            RiftCommand::MoveWindowToDisplay { display_uuid, window_index } => {
                let screen =
                    self.screens.iter().position(|screen| screen.uuid == display_uuid).unwrap();
                let workspace = self.screens[screen].active;
                self.take(*window_index);
                self.screens[screen].workspaces[workspace].windows.push(*window_index);
                self.tell(screen, workspace);
            }
            RiftCommand::SwitchToWorkspace { workspace_index } => {
                let screen = self.context;
                self.screens[screen].active = *workspace_index;
                self.tell(screen, *workspace_index);
            }
            RiftCommand::MoveWindowToWorkspace { workspace_index, follow, window_index } => {
                let (screen, _) = self.place_of(*window_index).unwrap();
                self.take(*window_index);
                self.screens[screen].workspaces[*workspace_index].windows.push(*window_index);
                if *follow {
                    self.screens[screen].active = *workspace_index;
                    self.context = screen;
                    self.focused = *window_index;
                }
                self.tell(screen, *workspace_index);
            }
        }
    }

    fn policy(&self) -> Policy {
        let mut display_aliases = NameMap::new();
        for screen in &self.screens {
            display_aliases.insert(
                screen.uuid.into(),
                DisplayAlias { uuid: Some(screen.uuid.into()), name: Some("none".into()) },
            );
        }
        let mut workspace_displays = NameMap::new();
        for (workspace, display) in &self.assigned {
            workspace_displays.insert(workspace.to_string(), display.to_string());
        }
        Policy {
            display_aliases,
            profiles: vec![Profile {
                name: "home".into(),
                required_display_aliases: vec![],
                fallback_display: None,
                workspace_displays,
            }],
        }
    }

    fn event(&mut self) -> Reply {
        match self.events.pop_front() {
            Some(event) => Reply::Event(event),
            None => Reply::Nothing,
        }
    }

    fn perform(&mut self, ask: &Ask) -> Reply {
        if let Some(fail) = self.fail {
            if let Some(reply) = fail(ask) {
                return reply;
            }
        }
        match ask {
            Ask::Connect => Reply::Connected { available: self.available },
            Ask::Displays => Reply::Displays(self.displays()),
            Ask::Workspaces { space } => Reply::Workspaces(self.workspaces(*space)),
            Ask::Windows { space } => Reply::Windows(
                self.workspaces(*space).into_iter().flat_map(|w| w.windows).collect(),
            ),
            Ask::WindowInfo { window_id } => Reply::WindowInfo(self.window(window_id.idx)),
            Ask::Policy => Reply::Policy(self.policy()),
            Ask::Route { windows } => Reply::Routed(
                windows
                    .iter()
                    .filter_map(|window| {
                        let home = self.homes.iter().find(|home| home.0 == window.id.idx)?;
                        Some(RoutedWindow {
                            window: window.clone(),
                            home: WindowHome {
                                display_uuid: home.1.into(),
                                workspace_name: home.2.into(),
                                label: format!("app {}", home.0),
                            },
                        })
                    })
                    .collect(),
            ),
            Ask::Subscribe => {
                self.subscribed = true;
                Reply::Done
            }
            Ask::Now => {
                self.clock += 1_000;
                Reply::Now(self.clock)
            }
            Ask::Execute { command } => {
                assert!(self.subscribed);
                self.executed.push(command.clone());
                self.execute(command);
                Reply::Done
            }
            Ask::TryReceive => self.event(),
            Ask::Receive { wait_nanos } => {
                if self.events.is_empty() {
                    self.clock += wait_nanos;
                }
                self.event()
            }
            Ask::RunScript { script } => {
                self.scripts.push(script.clone());
                Reply::Done
            }
            Ask::Sleep { millis } => {
                self.clock += millis * 1_000_000;
                Reply::Done
            }
            Ask::AcquireDisplay { display_uuid, .. } => {
                self.acquired.push(display_uuid.clone());
                self.context =
                    self.screens.iter().position(|screen| screen.uuid == display_uuid).unwrap();
                Reply::Done
            }
        }
    }

    fn run(&mut self, invocation: Invocation) -> Result<(), ErgoError> {
        let mut session = Session::start(invocation);
        for _ in 0..20_000 {
            let (next, progress) = session.step();
            session = match progress {
                Progress::Ask(ask) => {
                    let reply = self.perform(&ask);
                    next.answer(reply)
                }
                Progress::Moved => next,
                Progress::Waited { description, .. } => {
                    self.waits.push(description);
                    next
                }
                Progress::Finished(result) => return result,
            };
        }
        panic!("the command does not end");
    }

    fn members(&self, screen: usize, workspace: usize) -> Vec<u32> {
        self.screens[screen].workspaces[workspace].windows.clone()
    }
}

fn move_follow(name: &str) -> Invocation {
    Invocation::MoveFollow { workspace_name: name.into() }
}

fn move_workspace() -> Invocation {
    Invocation::MoveWorkspaceToDisplay { direction: DisplayDirection::Next }
}

fn move_window() -> Invocation {
    Invocation::MoveWindowToDisplay { direction: DisplayDirection::Next }
}

fn message(result: Result<(), ErgoError>) -> String {
    result.unwrap_err().message
}

#[test]
fn move_follow_within_a_display_is_one_native_move() {
    let mut world = World::new([[vec![1, 2], vec![]], [vec![3], vec![]]], 1);
    world.assigned = vec![("W", "built")];
    assert_eq!(world.run(move_follow("W")), Ok(()));
    assert_eq!(world.executed, vec![place(1, true, 1)]);
    assert_eq!(world.members(0, 1), vec![1]);
    assert_eq!(world.focused, 1);
    assert_eq!(world.waits, vec!["window focus in target workspace"]);
}

#[test]
fn move_follow_across_displays_prepares_transfers_follows() {
    let mut world = World::new([[vec![1, 2], vec![]], [vec![3], vec![]]], 1);
    world.assigned = vec![("W", "ext")];
    assert_eq!(world.run(move_follow("W")), Ok(()));
    assert_eq!(
        world.executed,
        vec![focus(3), switch(1), transfer("ext", 1), place(1, true, 1)]
    );
    assert_eq!(world.members(1, 1), vec![1]);
    assert_eq!((world.focused, world.context), (1, 1));
}

#[test]
fn move_follow_without_an_anchor_sends_the_window_ahead() {
    let mut world = World::new([[vec![1, 2], vec![]], [vec![], vec![3]]], 1);
    world.assigned = vec![("W", "ext")];
    assert_eq!(world.run(move_follow("W")), Ok(()));
    assert_eq!(world.executed, vec![transfer("ext", 1), focus(1), place(1, true, 1)]);
    assert_eq!(world.members(1, 1), vec![3, 1]);
    assert_eq!(
        world.waits,
        vec![
            "window transfer to unfocusable display",
            "target display focus via transferred window",
            "transferred window follow"
        ]
    );
}

#[test]
fn move_follow_leaves_a_window_that_is_there() {
    let mut world = World::new([[vec![1], vec![]], [vec![], vec![]]], 1);
    world.assigned = vec![("A", "built")];
    assert_eq!(world.run(move_follow("A")), Ok(()));
    assert!(world.executed.is_empty());
    assert!(!world.subscribed);
}

#[test]
fn move_follow_without_a_way_out_fails_as_before() {
    let mut world = World::new([[vec![1, 2], vec![]], [vec![3], vec![]]], 1);
    world.assigned = vec![("W", "ext")];
    world.screens[1].fullscreen = true;
    // Nothing leaves the space, so the command fails as it would without the attempt.
    assert_eq!(
        message(world.run(move_follow("W"))),
        "target display has no active macOS space"
    );
    assert_eq!(world.scripts, vec!["tell application id \"app.3\" to activate"]);
    assert!(world.clock >= 1_500_000_000);
    assert!(world.clock < 1_600_000_000);
}

#[test]
fn move_follow_moves_the_window_that_was_focused_before_the_escape() {
    let mut world = World::new([[vec![1, 2], vec![]], [vec![3], vec![]]], 1);
    world.assigned = vec![("W", "ext")];
    world.screens[1].fullscreen = true;
    let mut session = Session::start(move_follow("W"));
    let result = loop {
        let (next, progress) = session.step();
        session = match progress {
            Progress::Ask(ask) => {
                let reply = world.perform(&ask);
                if let Ask::RunScript { .. } = ask {
                    // The application comes to the front, and with it its window.
                    world.screens[1].fullscreen = false;
                    world.context = 1;
                    world.focused = 3;
                }
                next.answer(reply)
            }
            Progress::Finished(result) => break result,
            _ => next,
        };
    };
    assert_eq!(result, Ok(()));
    assert_eq!(world.executed, vec![switch(1), transfer("ext", 1), place(1, true, 1)]);
    assert_eq!(world.members(1, 1), vec![1]);
}

#[test]
fn a_command_that_rift_ignores_times_out() {
    let mut world = World::new([[vec![1, 2], vec![]], [vec![3], vec![]]], 1);
    world.assigned = vec![("W", "built")];
    world.lost = 1;
    let error = world.run(move_follow("W")).unwrap_err();
    assert_eq!(error.kind, ErrorKind::TimedOut);
    assert_eq!(error.message, "timed out waiting for window focus in target workspace");
    assert!(world.clock >= 2_500_000_000);
    assert!(world.clock < 2_600_000_000);
}

#[test]
fn a_step_does_without_events() {
    let mut world = World::new([[vec![1, 2], vec![]], [vec![3], vec![]]], 1);
    world.assigned = vec![("W", "built")];
    world.silent = true;
    assert_eq!(world.run(move_follow("W")), Ok(()));
    assert!(world.clock >= 20_000_000);
    assert!(world.clock < 40_000_000);
}

#[test]
fn failures_of_the_outside_end_the_command() {
    fn broken(ask: &Ask) -> Option<Reply> {
        matches!(ask, Ask::Workspaces { .. }).then(|| {
            Reply::Failed(ErgoError { kind: ErrorKind::Foreign, message: "broken pipe".into() })
        })
    }
    fn closed(ask: &Ask) -> Option<Reply> {
        matches!(ask, Ask::Receive { .. }).then_some(Reply::Disconnected)
    }
    fn failed(ask: &Ask) -> Option<Reply> {
        matches!(ask, Ask::Receive { .. }).then(|| Reply::SubscriptionFailed("gone".into()))
    }
    fn confused(ask: &Ask) -> Option<Reply> {
        matches!(ask, Ask::Displays).then_some(Reply::Done)
    }
    fn homeless(ask: &Ask) -> Option<Reply> {
        matches!(ask, Ask::Policy).then(|| {
            Reply::Failed(ErgoError { kind: ErrorKind::NotFound, message: "HOME is not set".into() })
        })
    }
    let cases: [(fn(&Ask) -> Option<Reply>, ErrorKind, &str); 5] = [
        (broken, ErrorKind::Foreign, "broken pipe"),
        (closed, ErrorKind::Other, "event subscription disconnected"),
        (failed, ErrorKind::Other, "event subscription failed: gone"),
        (confused, ErrorKind::Foreign, "reply does not answer the request"),
        (homeless, ErrorKind::NotFound, "HOME is not set"),
    ];
    for (fail, kind, text) in cases {
        let mut world = World::new([[vec![1, 2], vec![]], [vec![3], vec![]]], 1);
        world.assigned = vec![("W", "built")];
        world.fail = Some(fail);
        let error = world.run(move_follow("W")).unwrap_err();
        assert_eq!((error.kind, error.message.as_str()), (kind, text));
    }
}

#[test]
fn states_that_do_not_allow_the_command_are_reported() {
    let mut away = World::new([[vec![1], vec![]], [vec![], vec![]]], 1);
    away.available = false;
    let error = away.run(move_follow("W")).unwrap_err();
    assert_eq!(error.kind, ErrorKind::NotConnected);
    assert_eq!(error.message, "Rift's Mach service is unavailable");

    let mut unfocused = World::new([[vec![1], vec![]], [vec![], vec![]]], 9);
    unfocused.assigned = vec![("W", "ext")];
    assert_eq!(message(unfocused.run(move_follow("W"))), "no focused Rift-managed window");

    let mut unknown = World::new([[vec![1], vec![]], [vec![], vec![]]], 1);
    unknown.assigned = vec![("Q", "ext")];
    assert_eq!(message(unknown.run(move_follow("Q"))), "unknown workspace: Q");

    let mut gone = World::new([[vec![1], vec![]], [vec![], vec![]]], 1);
    assert_eq!(
        message(gone.run(move_follow("W"))),
        "profile home has no display for workspace W"
    );

    let mut hidden = World::new([[vec![1], vec![]], [vec![], vec![]]], 1);
    hidden.screens[1].fullscreen = true;
    assert_eq!(message(hidden.run(move_window())), "target display has no active macOS space");

    let mut idle = World::new([[vec![1], vec![]], [vec![], vec![]]], 1);
    idle.screens[1].active = 5;
    assert_eq!(
        message(idle.run(move_window())),
        "target display has no active Rift workspace"
    );
}

#[test]
fn a_window_that_is_never_focused_is_reported() {
    fn unfocused(ask: &Ask) -> Option<Reply> {
        match ask {
            Ask::WindowInfo { .. } => Some(Reply::WindowInfo(WindowData {
                id: id(1),
                window_server_id: None,
                is_focused: false,
                frame: Rect { horizontal: extent(0.0, 1.0), vertical: extent(0.0, 1.0) },
                bundle_id: None,
            })),
            _ => None,
        }
    }
    let mut world = World::new([[vec![1, 2], vec![]], [vec![3], vec![]]], 1);
    world.assigned = vec![("W", "ext")];
    world.fail = Some(unfocused);
    let error = world.run(move_follow("W")).unwrap_err();
    assert_eq!(error.kind, ErrorKind::TimedOut);
    assert_eq!(error.message, "timed out waiting for transferred window focus");
}

#[test]
fn move_window_goes_to_the_active_workspace_of_the_neighbour() {
    let mut world = World::new([[vec![1, 2], vec![]], [vec![3], vec![]]], 1);
    assert_eq!(world.run(move_window()), Ok(()));
    assert_eq!(world.executed, vec![focus(3), transfer("ext", 1), place(0, true, 1)]);
    assert_eq!(world.members(1, 0), vec![3, 1]);
    assert_eq!(world.focused, 1);
}

#[test]
fn with_one_display_nothing_moves() {
    for invocation in [move_window(), move_workspace()] {
        let mut world = World::new([[vec![1, 2], vec![]], [vec![], vec![]]], 1);
        world.screens.truncate(1);
        assert_eq!(world.run(invocation), Ok(()));
        assert!(world.executed.is_empty());
        assert!(!world.subscribed);
    }
}

#[test]
fn a_single_window_takes_the_fast_path() {
    let mut world = World::new([[vec![1], vec![]], [vec![3], vec![]]], 1);
    assert_eq!(world.run(move_workspace()), Ok(()));
    assert_eq!(world.executed, vec![focus(3), transfer("ext", 1), focus(1)]);
    assert_eq!(world.members(1, 0), vec![3, 1]);
    assert_eq!((world.focused, world.context), (1, 1));
    assert_eq!(
        world.waits,
        vec!["target display focus", "singleton physical transfer attempt 1", "singleton focus"]
    );
}

#[test]
fn the_fast_path_transfers_once_more() {
    let mut world = World::new([[vec![1], vec![]], [vec![3], vec![]]], 1);
    world.context = 1;
    world.lost = 1;
    assert_eq!(world.run(move_workspace()), Ok(()));
    assert_eq!(world.executed, vec![transfer("ext", 1), transfer("ext", 1), focus(1)]);
    assert!(world.clock >= 250_000_000);
    assert!(world.clock < 300_000_000);
    assert_eq!(
        world.waits,
        vec!["singleton physical transfer attempt 2", "singleton focus"]
    );
}

#[test]
fn a_confirmed_step_without_events_is_looked_at_once_its_time_is_over() {
    let mut world = World::new([[vec![1], vec![]], [vec![3], vec![]]], 1);
    world.context = 1;
    world.silent = true;
    assert_eq!(world.run(move_workspace()), Ok(()));
    assert_eq!(world.executed, vec![transfer("ext", 1), focus(1)]);
    // A quarter of a second for the transfer, and half a second for the focus.
    assert!(world.clock >= 750_000_000);
    assert!(world.clock < 800_000_000);
}

#[test]
fn settling_starts_anew_with_every_event() {
    let mut world = World::new([[vec![5, 1], vec![]], [vec![3], vec![]]], 1);
    world.context = 1;
    let mut session = Session::start(move_workspace());
    let mut disturbed = 0;
    let result = loop {
        let settling = world.waits.len() == 2;
        let (next, progress) = session.step();
        session = match progress {
            Progress::Ask(Ask::Receive { .. }) if settling && disturbed < 3 => {
                disturbed += 1;
                world.clock += 300_000_000;
                next.answer(Reply::Event(RiftEvent::WindowsChanged {
                    workspace_name: "A".into(),
                    display_uuid: Some("ext".into()),
                }))
            }
            Progress::Ask(ask) => {
                let reply = world.perform(&ask);
                next.answer(reply)
            }
            Progress::Waited { description, .. } => {
                world.waits.push(description);
                next
            }
            Progress::Moved => next,
            Progress::Finished(result) => break result,
        };
    };
    assert_eq!(result, Ok(()));
    assert_eq!(disturbed, 3);
    assert_eq!(world.waits.last().unwrap(), "workspace placement");
    assert!(world.clock >= 3 * 300_000_000 + 350_000_000);
}

#[test]
fn the_fast_path_gives_way_to_the_full_move() {
    let mut world = World::new([[vec![1], vec![]], [vec![3], vec![]]], 1);
    world.context = 1;
    world.lost = 2;
    assert_eq!(world.run(move_workspace()), Ok(()));
    assert_eq!(
        world.executed,
        vec![transfer("ext", 1), transfer("ext", 1), transfer("ext", 1)]
    );
    assert_eq!(world.members(1, 0), vec![3, 1]);
    assert_eq!(world.focused, 1);
    assert_eq!(world.waits.last().unwrap(), "workspace placement");
}

#[test]
fn the_windows_of_a_workspace_move_with_the_focused_one_last() {
    let mut world = World::new([[vec![5, 1, 2], vec![]], [vec![3], vec![]]], 1);
    assert_eq!(world.run(move_workspace()), Ok(()));
    assert_eq!(
        world.executed,
        vec![
            focus(3),
            transfer("ext", 5),
            transfer("ext", 2),
            transfer("ext", 1),
            focus(1)
        ]
    );
    assert_eq!(world.members(1, 0), vec![3, 5, 2, 1]);
    assert_eq!((world.focused, world.context), (1, 1));
    assert_eq!(
        world.waits,
        vec![
            "target display focus",
            "window 5 display transfer",
            "window 2 display transfer",
            "window 1 display transfer",
            "workspace focus restoration attempt 1",
            "workspace placement"
        ]
    );
    // Settling takes 350 milliseconds.
    assert!(world.clock >= 350_000_000);
}

#[test]
fn a_window_that_is_lost_on_the_way_is_sent_again() {
    let mut world = World::new([[vec![5, 1, 2], vec![]], [vec![3], vec![]]], 1);
    world.context = 1;
    world.lost = 1;
    assert_eq!(world.run(move_workspace()), Ok(()));
    assert_eq!(
        world.executed,
        vec![
            transfer("ext", 5),
            transfer("ext", 2),
            transfer("ext", 1),
            transfer("ext", 5),
            place(0, false, 5)
        ]
    );
    assert_eq!(world.members(1, 0), vec![3, 2, 1, 5]);
    assert!(world.waits.contains(&"window 5 display retry".to_string()));
    assert!(world
        .waits
        .contains(&"workspace membership reassertion attempt 1".to_string()));
}

#[test]
fn windows_that_never_arrive_are_given_up() {
    let mut world = World::new([[vec![5, 1], vec![]], [vec![3], vec![]]], 1);
    world.context = 1;
    world.lost = usize::MAX;
    let error = world.run(move_workspace()).unwrap_err();
    assert_eq!(error.kind, ErrorKind::Other);
    assert_eq!(error.message, "workspace reconciliation did not converge after 3 attempts");
    // Two transfers, and in each of three attempts two more and two moves to the workspace.
    assert_eq!(world.executed.len(), 2 + 3 * 4);
}

#[test]
fn a_focus_that_is_never_restored_is_given_up() {
    let mut world = World::new([[vec![5, 1], vec![]], [vec![3], vec![]]], 1);
    world.context = 1;
    world.lost_focus = usize::MAX;
    world.focused = 1;
    fn unfocused(ask: &Ask) -> Option<Reply> {
        match ask {
            Ask::WindowInfo { window_id } => Some(Reply::WindowInfo(WindowData {
                id: *window_id,
                window_server_id: None,
                is_focused: false,
                frame: Rect { horizontal: extent(0.0, 1.0), vertical: extent(1500.0, 1.0) },
                bundle_id: None,
            })),
            _ => None,
        }
    }
    world.fail = Some(unfocused);
    let error = world.run(move_workspace()).unwrap_err();
    assert_eq!(error.message, "workspace focus restoration did not converge after 3 attempts");
    let focused = world.executed.iter().filter(|command| **command == focus(1)).count();
    assert_eq!(focused, 3);
}

#[test]
fn a_batch_that_is_out_of_time_submits_nothing_more() {
    let mut world = World::new([[vec![5, 1], vec![]], [vec![3], vec![]]], 1);
    world.context = 1;
    // The first reading of the clock starts the batch, all others come far too late.
    let mut session = Session::start(move_workspace());
    let mut readings = 0;
    let error = loop {
        let (next, progress) = session.step();
        session = match progress {
            Progress::Ask(Ask::Now) => {
                readings += 1;
                next.answer(Reply::Now(if readings == 1 { 0 } else { 30_000_000_000 }))
            }
            Progress::Ask(ask) => {
                let reply = world.perform(&ask);
                next.answer(reply)
            }
            Progress::Finished(result) => break result.unwrap_err(),
            _ => next,
        };
    };
    // The transfers are given up one by one; the first operation that may not be is reported.
    assert_eq!(error.message, "workspace reconciliation did not converge after 3 attempts");
    assert!(world.executed.is_empty());
}

#[test]
fn a_timeout_of_the_outside_counts_as_one() {
    fn slow(ask: &Ask) -> Option<Reply> {
        matches!(ask, Ask::Execute { .. }).then(|| Reply::Failed(timed_out()))
    }
    let mut world = World::new([[vec![5, 1], vec![]], [vec![3], vec![]]], 1);
    world.context = 1;
    world.fail = Some(slow);
    assert_eq!(
        message(world.run(move_workspace())),
        "workspace reconciliation did not converge after 3 attempts"
    );
}

#[test]
fn rehome_sends_windows_to_their_homes() {
    let mut world = World::new([[vec![1, 2, 5], vec![]], [vec![3], vec![]]], 1);
    world.homes = vec![(1, "ext", "W"), (2, "built", "A"), (5, "ext", "W")];
    assert_eq!(world.run(Invocation::Rehome { source: None }), Ok(()));
    assert_eq!(world.members(1, 1), vec![1, 5]);
    assert_eq!(world.members(0, 0), vec![2]);
    assert_eq!(
        world.executed,
        vec![
            focus(3),
            switch(1),
            transfer("ext", 1),
            transfer("ext", 5),
            focus(2)
        ]
    );
    // The source is shown again.
    assert_eq!(world.context, 0);
}

#[test]
fn rehome_leaves_windows_at_home_and_windows_without_one() {
    let mut home = World::new([[vec![1, 2], vec![]], [vec![3], vec![]]], 1);
    home.homes = vec![(1, "built", "A")];
    assert_eq!(home.run(Invocation::Rehome { source: None }), Ok(()));
    assert!(home.executed.is_empty() && !home.subscribed);

    let mut without = World::new([[vec![1, 2], vec![]], [vec![3], vec![]]], 1);
    assert_eq!(without.run(Invocation::Rehome { source: None }), Ok(()));
    assert!(without.executed.is_empty() && !without.subscribed);
}

#[test]
fn rehome_shows_the_named_workspace_first() {
    let mut world = World::new([[vec![1], vec![]], [vec![3], vec![4]]], 1);
    world.assigned = vec![("W", "ext")];
    world.homes = vec![(4, "ext", "A")];
    assert_eq!(world.run(Invocation::Rehome { source: Some("W".into()) }), Ok(()));
    assert_eq!(world.members(1, 0), vec![3, 4]);
    assert_eq!(world.executed[..2], [focus(3), switch(1)]);
    assert_eq!((world.context, world.screens[1].active), (1, 1));
}

#[test]
fn rehome_reports_windows_that_do_not_arrive() {
    fn stubborn(ask: &Ask) -> Option<Reply> {
        match ask {
            Ask::WindowInfo { window_id } => Some(Reply::WindowInfo(WindowData {
                id: *window_id,
                window_server_id: None,
                is_focused: false,
                frame: Rect { horizontal: extent(0.0, 1.0), vertical: extent(9000.0, 1.0) },
                bundle_id: None,
            })),
            _ => None,
        }
    }
    let mut world = World::new([[vec![1, 2], vec![]], [vec![3], vec![]]], 1);
    world.homes = vec![(1, "ext", "A"), (2, "ext", "A")];
    world.fail = Some(stubborn);
    let error = world.run(Invocation::Rehome { source: None }).unwrap_err();
    assert_eq!(error.kind, ErrorKind::TimedOut);
    assert_eq!(error.message, "timed out waiting for display placement for workspace A");
}

#[test]
fn switch_workspace_shows_it_where_it_belongs() {
    let mut world = World::new([[vec![1], vec![]], [vec![3], vec![]]], 1);
    world.assigned = vec![("W", "ext")];
    let invocation = Invocation::SwitchWorkspace { workspace_name: "W".into() };
    assert_eq!(world.run(invocation), Ok(()));
    assert_eq!(world.acquired, vec!["ext"]);
    assert_eq!(world.executed, vec![focus(3), switch(1)]);
    assert_eq!((world.context, world.screens[1].active), (1, 1));
}

#[test]
fn switch_workspace_leaves_a_workspace_that_is_shown() {
    let mut world = World::new([[vec![1], vec![]], [vec![3], vec![]]], 1);
    world.assigned = vec![("A", "built")];
    let invocation = Invocation::SwitchWorkspace { workspace_name: "A".into() };
    assert_eq!(world.run(invocation), Ok(()));
    assert!(world.executed.is_empty() && world.acquired.is_empty() && !world.subscribed);
}

#[test]
fn switch_workspace_both_returns_the_keyboard() {
    let mut world = World::new([[vec![1], vec![]], [vec![3], vec![]]], 1);
    let invocation = Invocation::SwitchWorkspaceBoth { workspace_name: "W".into() };
    assert_eq!(world.run(invocation), Ok(()));
    assert_eq!((world.screens[0].active, world.screens[1].active), (1, 1));
    assert_eq!(world.acquired, vec!["ext", "built"]);
    assert_eq!(world.context, 0);
}

#[test]
fn switch_workspace_escapes_from_a_fullscreen_space() {
    let mut world = World::new([[vec![1], vec![]], [vec![3], vec![]]], 1);
    world.assigned = vec![("W", "ext")];
    world.screens[1].fullscreen = true;
    let mut session = Session::start(Invocation::SwitchWorkspace { workspace_name: "W".into() });
    let mut pauses = 0;
    let result = loop {
        let (next, progress) = session.step();
        session = match progress {
            Progress::Ask(ask) => {
                if let Ask::Sleep { millis } = ask {
                    assert_eq!(millis, 50);
                    pauses += 1;
                    if pauses == 2 {
                        world.screens[1].fullscreen = false;
                    }
                }
                let reply = world.perform(&ask);
                next.answer(reply)
            }
            Progress::Finished(result) => break result,
            _ => next,
        };
    };
    assert_eq!(result, Ok(()));
    assert_eq!(pauses, 2);
    assert_eq!(world.scripts, vec!["tell application id \"app.3\" to activate"]);
    assert_eq!(world.screens[1].active, 1);
}
