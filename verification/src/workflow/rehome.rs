//! Sending the windows of a workspace home.
use crate::dialogue;
use crate::dialogue::{Next, Program, Reply, Rift, Stop};
use crate::error;
use crate::error::state_error;
use crate::model;
use crate::model::{CommandView, DisplayData, RiftCommand, WindowData, WindowId, WorkspaceData};
use crate::policy;
use crate::policy::{ResolvedPolicy, ResolvedView, RoutedWindow};
use crate::rift;
use crate::rift::{FocusedWorkspaceView, TargetContext, TargetView};
use crate::text;
use crate::text::{join2, join3, same_text};
use crate::transaction;
use crate::transaction::{Check, CheckView, Condition, ConditionView, RiftTransaction};
use crate::workflow::placement;
use vstd::prelude::*;

verus! {

broadcast use dialogue::group_run;

/// The workspace whose windows are sent home.
pub struct RehomeSource<'a> {
    pub display_uuid: String,
    pub workspace_name: String,
    pub windows: &'a Vec<WindowData>,
}

/// The contents of a [`RehomeSource`].
pub struct SourceView {
    pub display_uuid: Seq<char>,
    pub workspace_name: Seq<char>,
    pub windows: Seq<WindowData>,
}

impl View for RehomeSource<'_> {
    type V = SourceView;

    open spec fn view(&self) -> SourceView {
        SourceView {
            display_uuid: self.display_uuid@,
            workspace_name: self.workspace_name@,
            windows: self.windows@,
        }
    }
}

/// The windows with one home.
#[derive(Debug, PartialEq, Eq)]
pub struct DestinationGroup {
    pub display_uuid: String,
    pub workspace_name: String,
    pub windows: Vec<RoutedWindow>,
}

/// The contents of a [`DestinationGroup`].
pub struct GroupView {
    pub display_uuid: Seq<char>,
    pub workspace_name: Seq<char>,
    pub windows: Seq<RoutedWindow>,
}

impl View for DestinationGroup {
    type V = GroupView;

    open spec fn view(&self) -> GroupView {
        GroupView {
            display_uuid: self.display_uuid@,
            workspace_name: self.workspace_name@,
            windows: self.windows@,
        }
    }
}

/// The contents of the groups.
pub open spec fn group_views(groups: Seq<DestinationGroup>) -> Seq<GroupView> {
    Seq::new(groups.len(), |i: int| groups[i]@)
}

// ---------------------------------------------------------------------------
// Grouping.
// ---------------------------------------------------------------------------

/// A workspace on a display.
pub struct Place {
    pub display_uuid: Seq<char>,
    pub workspace_name: Seq<char>,
}

/// Where a window belongs.
pub open spec fn home_of(routed: RoutedWindow) -> Place {
    Place {
        display_uuid: routed.home.display_uuid@,
        workspace_name: routed.home.workspace_name@,
    }
}

/// The places where windows belong, each once, in the order in which they come up.
pub open spec fn homes(routed: Seq<RoutedWindow>) -> Seq<Place>
    decreases routed.len(),
{
    if routed.len() == 0 {
        Seq::empty()
    } else {
        let earlier = homes(routed.drop_last());
        if earlier.contains(home_of(routed.last())) {
            earlier
        } else {
            earlier.push(home_of(routed.last()))
        }
    }
}

/// Accepts the windows that belong here.
pub open spec fn belongs_to(place: Place) -> spec_fn(RoutedWindow) -> bool {
    |routed: RoutedWindow| home_of(routed) == place
}

/// The windows that belong to a place, in order.
pub open spec fn group_at(routed: Seq<RoutedWindow>, place: Place) -> GroupView {
    GroupView {
        display_uuid: place.display_uuid,
        workspace_name: place.workspace_name,
        windows: routed.filter(belongs_to(place)),
    }
}

/// The windows by home.
pub open spec fn grouped(routed: Seq<RoutedWindow>) -> Seq<GroupView> {
    Seq::new(homes(routed).len(), |i: int| group_at(routed, homes(routed)[i]))
}

/// Every window has its home among the homes, and no home stands there twice.
pub proof fn lemma_homes(routed: Seq<RoutedWindow>)
    ensures
        forall|i: int| 0 <= i < routed.len() ==> homes(routed).contains(home_of(#[trigger] routed[i])),
        homes(routed).no_duplicates(),
    decreases routed.len(),
{
    if routed.len() > 0 {
        let earlier = homes(routed.drop_last());
        lemma_homes(routed.drop_last());
        assert forall|i: int| 0 <= i < routed.len() implies homes(routed).contains(
            home_of(#[trigger] routed[i]),
        ) by {
            let place = home_of(routed[i]);
            if i < routed.len() - 1 {
                assert(routed.drop_last()[i] == routed[i]);
                let k = earlier.index_of(place);
                assert(homes(routed)[k] == place);
            } else if !earlier.contains(place) {
                assert(homes(routed)[earlier.len() as int] == place);
            }
        }
    }
}

proof fn lemma_filter_none<T>(items: Seq<T>, kept: spec_fn(T) -> bool)
    requires
        forall|i: int| 0 <= i < items.len() ==> !kept(#[trigger] items[i]),
    ensures
        items.filter(kept) == Seq::<T>::empty(),
    decreases items.len(),
{
    reveal(Seq::filter);
    if items.len() > 0 {
        assert forall|i: int| 0 <= i < items.drop_last().len() implies !kept(
            #[trigger] items.drop_last()[i],
        ) by {
            assert(items.drop_last()[i] == items[i]);
        }
        lemma_filter_none(items.drop_last(), kept);
        assert(!kept(items[items.len() - 1]));
    }
}

/// Groups the windows by home.
pub fn group_by_destination(routed: &Vec<RoutedWindow>) -> (groups: Vec<DestinationGroup>)
    ensures
        group_views(groups@) == grouped(routed@),
{
    let mut groups: Vec<DestinationGroup> = Vec::new();
    let mut at: usize = 0;
    while at < routed.len()
        invariant
            at <= routed.len(),
            group_views(groups@) == grouped(routed@.take(at as int)),
        decreases routed.len() - at,
    {
        let window = &routed[at];
        let ghost seen = routed@.take(at as int);
        let ghost more = routed@.take(at + 1);
        let ghost before = groups@;
        proof {
            assert(more.drop_last() =~= seen);
            lemma_homes(seen);
            assert(group_views(before).len() == grouped(seen).len());
            assert(before.len() == homes(seen).len());
            assert forall|place: Place| true implies #[trigger] more.filter(belongs_to(place)) == (
            if home_of(*window) == place {
                seen.filter(belongs_to(place)).push(*window)
            } else {
                seen.filter(belongs_to(place))
            }) by {
                model::lemma_filter_next(
                    routed@,
                    belongs_to(place),
                    at as int,
                );
            }
        }
        match find_group(&groups, &window.home.display_uuid, &window.home.workspace_name) {
            Some(existing) => {
                proof {
                    assert(before[existing as int]@ == grouped(seen)[existing as int]);
                    assert(homes(seen)[existing as int] == home_of(*window));
                    assert(homes(seen).contains(home_of(*window)));
                }
                groups[existing].windows.push(window.clone());
                proof {
                    assert(group_views(groups@) =~= grouped(more)) by {
                        assert forall|i: int| 0 <= i < groups@.len() implies group_views(groups@)[i]
                            == grouped(more)[i] by {
                            assert(group_views(before)[i] == grouped(seen)[i]);
                            if i == existing as int {
                                assert(groups@[i]@.windows == before[i]@.windows.push(*window));
                            } else {
                                assert(homes(seen)[i] != home_of(*window));
                                assert(groups@[i] == before[i]);
                            }
                        }
                    }
                }
            },
            None => {
                proof {
                    assert(!homes(seen).contains(home_of(*window))) by {
                        if homes(seen).contains(home_of(*window)) {
                            let i = homes(seen).index_of(home_of(*window));
                            assert(group_views(before)[i] == grouped(seen)[i]);
                            assert(before[i]@ == group_views(before)[i]);
                        }
                    }
                    assert(seen.filter(belongs_to(home_of(*window))) == Seq::<RoutedWindow>::empty())
                        by {
                        assert forall|i: int| 0 <= i < seen.len() implies !belongs_to(
                            home_of(*window),
                        )(#[trigger] seen[i]) by {
                            assert(homes(seen).contains(home_of(seen[i])));
                        }
                        lemma_filter_none(seen, belongs_to(home_of(*window)));
                    }
                }
                let mut windows: Vec<RoutedWindow> = Vec::new();
                windows.push(window.clone());
                groups.push(
                    DestinationGroup {
                        display_uuid: window.home.display_uuid.clone(),
                        workspace_name: window.home.workspace_name.clone(),
                        windows,
                    },
                );
                proof {
                    assert(group_views(groups@) =~= grouped(more)) by {
                        assert forall|i: int| 0 <= i < groups@.len() implies group_views(groups@)[i]
                            == grouped(more)[i] by {
                            if i < before.len() {
                                assert(group_views(before)[i] == grouped(seen)[i]);
                                assert(homes(seen).contains(homes(seen)[i]));
                            } else {
                                assert(groups@[i]@.windows =~= Seq::<RoutedWindow>::empty().push(
                                    *window,
                                ));
                            }
                        }
                    }
                }
            },
        }
        at = at + 1;
    }
    assert(routed@.take(at as int) =~= routed@);
    groups
}

/// The position of the group for a place.
fn find_group(groups: &Vec<DestinationGroup>, display_uuid: &str, workspace_name: &str) -> (found:
    Option<usize>)
    ensures
        found matches Some(at) ==> at < groups.len() && groups@[at as int].display_uuid@
            == display_uuid@ && groups@[at as int].workspace_name@ == workspace_name@,
        found is None ==> forall|i: int|
            0 <= i < groups.len() ==> !((#[trigger] groups@[i]).display_uuid@ == display_uuid@
                && groups@[i].workspace_name@ == workspace_name@),
{
    let mut at: usize = 0;
    while at < groups.len()
        invariant
            at <= groups.len(),
            forall|i: int|
                0 <= i < at ==> !((#[trigger] groups@[i]).display_uuid@ == display_uuid@
                    && groups@[i].workspace_name@ == workspace_name@),
        decreases groups.len() - at,
    {
        if same_text(&groups[at].display_uuid, display_uuid) && same_text(
            &groups[at].workspace_name,
            workspace_name,
        ) {
            return Some(at);
        }
        at = at + 1;
    }
    None
}

// ---------------------------------------------------------------------------
// The command.
// ---------------------------------------------------------------------------

/// The windows without their homes.
pub open spec fn windows_of(routed: Seq<RoutedWindow>) -> Seq<WindowData> {
    Seq::new(routed.len(), |i: int| routed[i].window)
}

/// The identifiers of a group's windows.
pub open spec fn member_ids(group: GroupView) -> Seq<WindowId> {
    model::ids_of(windows_of(group.windows))
}

/// A group's workspace as a destination, as it is now.
pub open spec fn destination(group: GroupView) -> Program<TargetView> {
    dialogue::bind(
        rift::displays(),
        |displays: Seq<DisplayData>|
            rift::target_context(group.workspace_name, group.display_uuid, displays),
    )
}

/// The workspace whose windows are sent home: the named one, once it is shown where the policy
/// puts it; else the focused one.
pub open spec fn source_of(
    displays: Seq<DisplayData>,
    resolved: ResolvedView,
    workspace_name: Option<Seq<char>>,
) -> Program<SourceView> {
    match workspace_name {
        Some(workspace_name) => dialogue::bind(
            dialogue::decided(policy::resolved_display(resolved, workspace_name)),
            |display_uuid: Seq<char>| named_source(displays, workspace_name, display_uuid),
        ),
        None => dialogue::bind(
            rift::focused_workspace(displays),
            |focused: FocusedWorkspaceView|
                Program::Return(
                    SourceView {
                        display_uuid: focused.display_uuid,
                        workspace_name: focused.workspace.name@,
                        windows: focused.workspace.windows@,
                    },
                ),
        ),
    }
}

/// The named workspace on a display, once it is shown.
pub open spec fn named_source(
    displays: Seq<DisplayData>,
    workspace_name: Seq<char>,
    display_uuid: Seq<char>,
) -> Program<SourceView> {
    dialogue::bind(
        rift::target_context(workspace_name, display_uuid, displays),
        |target: TargetView|
            dialogue::bind(
                showing(target, workspace_name),
                |shown: ()|
                    dialogue::bind(
                        rift::workspace_at(target, workspace_name),
                        |workspace: WorkspaceData|
                            Program::Return(
                                SourceView {
                                    display_uuid,
                                    workspace_name: workspace.name@,
                                    windows: workspace.windows@,
                                },
                            ),
                    ),
            ),
    )
}

/// Shows a destination's workspace, unless it is shown and its display has the keyboard.
pub open spec fn showing(target: TargetView, workspace_name: Seq<char>) -> Program<()> {
    if target.display_is_active && target.workspace_is_active {
        Program::Return(())
    } else {
        dialogue::bind(
            transaction::begin_single(),
            |transaction: RiftTransaction|
                placement::target_preparation(transaction, target, workspace_name),
        )
    }
}

/// Whether the groups from this one on are at home; the first that is not ends the search.
#[verifier::opaque]
pub open spec fn are_at_home_from(groups: Seq<GroupView>, at: int) -> Program<bool>
    decreases groups.len() - at,
{
    if at < 0 || at >= groups.len() {
        Program::Return(true)
    } else {
        dialogue::bind(
            destination(groups[at]),
            |target: TargetView|
                dialogue::bind(
                    rift::windows_are_at(target, groups[at].workspace_name, member_ids(groups[at])),
                    |there: bool|
                        if there {
                            are_at_home_from(groups, at + 1)
                        } else {
                            Program::Return(false)
                        },
                ),
        )
    }
}

/// Those of the windows from this one on that are not on the destination's display, in order
/// and after the ones already found.
pub open spec fn off_display_from(
    target: TargetView,
    windows: Seq<WindowData>,
    at: int,
    found: Seq<WindowData>,
) -> Program<Seq<WindowData>>
    decreases windows.len() - at,
{
    if at < 0 || at >= windows.len() {
        Program::Return(found)
    } else {
        dialogue::bind(
            rift::window_is_on_display(target, windows[at].id),
            |there: bool|
                off_display_from(
                    target,
                    windows,
                    at + 1,
                    if there {
                        found
                    } else {
                        found.push(windows[at])
                    },
                ),
        )
    }
}

/// The commands that move windows to a destination's display.
pub open spec fn transfers_of(target: TargetView, windows: Seq<WindowData>) -> Seq<CommandView> {
    Seq::new(windows.len(), |i: int| rift::transfer_of(target, windows[i]))
}

/// The check that windows are on a destination's display.
pub open spec fn on_display_check(
    target: TargetView,
    workspace_name: Seq<char>,
    windows: Seq<WindowData>,
) -> CheckView {
    transaction::check_of(
        target,
        workspace_name,
        Seq::new(windows.len(), |i: int| ConditionView::WindowIsOnDisplay(windows[i].id)),
    )
}

/// Moves windows to a destination's display, if there are any.
pub open spec fn display_placement(
    transaction: RiftTransaction,
    target: TargetView,
    workspace_name: Seq<char>,
    windows: Seq<WindowData>,
) -> Program<()> {
    if windows.len() == 0 {
        Program::Return(())
    } else {
        transaction::confirmed_phase(
            transaction,
            "display placement for workspace "@ + workspace_name,
            transfers_of(target, windows),
            placement::of_display(target),
            on_display_check(target, workspace_name, windows),
        )
    }
}

/// Moves windows to a destination's workspace, if there are any.
pub open spec fn workspace_placement(
    transaction: RiftTransaction,
    target: TargetView,
    workspace_name: Seq<char>,
    windows: Seq<WindowData>,
) -> Program<()> {
    if windows.len() == 0 {
        Program::Return(())
    } else {
        transaction::confirmed_phase(
            transaction,
            "workspace placement for "@ + workspace_name,
            rift::placements_of(target, windows),
            placement::of_workspace(target, workspace_name),
            placement::checks(
                target,
                workspace_name,
                ConditionView::WindowsAreAt(model::ids_of(windows)),
            ),
        )
    }
}

/// Sends a group home: shows its workspace, moves the windows that are elsewhere to the
/// display, and those that are still missing to the workspace.
#[verifier::opaque]
pub open spec fn group_placement(transaction: RiftTransaction, group: GroupView) -> Program<()> {
    dialogue::bind(
        destination(group),
        |target: TargetView|
            dialogue::bind(
                placement::target_preparation(transaction, target, group.workspace_name),
                |prepared: ()|
                    dialogue::bind(
                        off_display_from(target, windows_of(group.windows), 0, Seq::empty()),
                        |elsewhere: Seq<WindowData>|
                            dialogue::bind(
                                display_placement(
                                    transaction,
                                    target,
                                    group.workspace_name,
                                    elsewhere,
                                ),
                                |moved: ()| missing_placement(transaction, target, group),
                            ),
                    ),
            ),
    )
}

/// Moves the windows of a group that are not in its workspace there.
pub open spec fn missing_placement(
    transaction: RiftTransaction,
    target: TargetView,
    group: GroupView,
) -> Program<()> {
    dialogue::bind(
        rift::windows_missing_from_workspace(target, group.workspace_name, member_ids(group)),
        |missing: Seq<WindowId>|
            workspace_placement(
                transaction,
                target,
                group.workspace_name,
                windows_of(group.windows).filter(model::is_one_of(missing)),
            ),
    )
}

/// Sends the groups from this one on home.
#[verifier::opaque]
pub open spec fn placements_from(
    transaction: RiftTransaction,
    groups: Seq<GroupView>,
    at: int,
) -> Program<()>
    decreases groups.len() - at,
{
    if at < 0 || at >= groups.len() {
        Program::Return(())
    } else {
        dialogue::bind(
            group_placement(transaction, groups[at]),
            |done: ()| placements_from(transaction, groups, at + 1),
        )
    }
}

/// The labels of a group's windows.
pub open spec fn labels_of(group: GroupView) -> Seq<Seq<char>> {
    Seq::new(group.windows.len(), |i: int| group.windows[i].home.label@)
}

/// Requires a group to be at home.
pub open spec fn group_verification(group: GroupView, target: TargetView) -> Program<()> {
    dialogue::bind(
        rift::windows_are_at(target, group.workspace_name, member_ids(group)),
        |there: bool|
            if there {
                Program::Return(())
            } else {
                Program::Fail(
                    error::state_failure(
                        "rehome verification failed for "@ + text::listed(labels_of(group))
                            + ": expected workspace "@ + group.workspace_name + " on "@
                            + group.display_uuid,
                    ),
                )
            },
    )
}

/// Requires the groups from this one on to be at home.
#[verifier::opaque]
pub open spec fn verification_from(groups: Seq<GroupView>, at: int) -> Program<()>
    decreases groups.len() - at,
{
    if at < 0 || at >= groups.len() {
        Program::Return(())
    } else {
        dialogue::bind(
            destination(groups[at]),
            |target: TargetView|
                dialogue::bind(
                    group_verification(groups[at], target),
                    |done: ()| verification_from(groups, at + 1),
                ),
        )
    }
}

/// Shows the source again.
#[verifier::opaque]
pub open spec fn source_restoration(transaction: RiftTransaction, source: SourceView) -> Program<
    (),
> {
    dialogue::bind(
        rift::displays(),
        |displays: Seq<DisplayData>|
            dialogue::bind(
                rift::target_context(source.workspace_name, source.display_uuid, displays),
                |target: TargetView|
                    placement::target_preparation(transaction, target, source.workspace_name),
            ),
    )
}

/// Sends the groups home, shows the source again and verifies the groups.
#[verifier::opaque]
pub open spec fn journey(source: SourceView, groups: Seq<GroupView>) -> Program<()> {
    dialogue::bind(
        transaction::begin_batch(source.windows.len()),
        |transaction: RiftTransaction|
            dialogue::bind(
                placements_from(transaction, groups, 0),
                |placed: ()|
                    dialogue::bind(
                        source_restoration(transaction, source),
                        |restored: ()| verification_from(groups, 0),
                    ),
            ),
    )
}

/// Sends the groups home, unless they are all there.
#[verifier::opaque]
pub open spec fn journey_if_needed(source: SourceView, routed: Seq<RoutedWindow>) -> Program<()> {
    if routed.len() == 0 {
        Program::Return(())
    } else {
        dialogue::bind(
            are_at_home_from(grouped(routed), 0),
            |there: bool|
                if there {
                    Program::Return(())
                } else {
                    journey(source, grouped(routed))
                },
        )
    }
}

/// The windows of a workspace that have a home.
pub struct Errand {
    pub source: SourceView,
    pub routed: Seq<RoutedWindow>,
}

/// Finds the windows that have a home among those of the named workspace, else of the focused
/// one.
#[verifier::opaque]
pub open spec fn errand(workspace_name: Option<Seq<char>>) -> Program<Errand> {
    dialogue::bind(
        rift::connect(),
        |connected: ()|
            dialogue::bind(
                rift::displays(),
                |displays: Seq<DisplayData>|
                    dialogue::bind(
                        policy::load_resolved(displays),
                        |resolved: ResolvedView|
                            dialogue::bind(
                                source_of(displays, resolved, workspace_name),
                                |source: SourceView|
                                    dialogue::bind(
                                        policy::route(source.windows),
                                        |routed: Seq<RoutedWindow>|
                                            Program::Return(Errand { source, routed }),
                                    ),
                            ),
                    ),
            ),
    )
}

/// Sends the windows of a workspace home: those of the named one, else of the focused one.
pub open spec fn rehome_program(workspace_name: Option<Seq<char>>) -> Program<()> {
    dialogue::bind(
        errand(workspace_name),
        |errand: Errand| journey_if_needed(errand.source, errand.routed),
    )
}

/// The characters of an optional name.
pub open spec fn optional_name(name: Option<&str>) -> Option<Seq<char>> {
    match name {
        Some(name) => Some(name@),
        None => None,
    }
}

/// Sends the windows of a workspace home: those of the named one, else of the focused one.
pub fn rehome(workspace_name: Option<&str>, replies: &Vec<Reply>) -> (next: Next)
    ensures
        dialogue::reaches(rehome_program(optional_name(workspace_name)), replies@, next),
{
    let mut rift = Rift::over(replies);
    let result = send_home(&mut rift, workspace_name);
    dialogue::conclude(result)
}

fn send_home<'a>(rift: &mut Rift<'a>, workspace_name: Option<&str>) -> (done: Result<(), Stop>)
    ensures
        dialogue::follows(
            rehome_program(optional_name(workspace_name)),
            old(rift).rest(),
            final(rift).rest(),
            dialogue::seen(done),
        ),
{
    proof {
        reveal(errand);
        reveal(journey_if_needed);
    }
    rift.connect()?;
    let displays = rift.displays()?;
    let policy = ResolvedPolicy::load(rift, displays)?;
    let source = select_source(rift, displays, &policy, workspace_name)?;
    let routed = policy.route_windows(rift, source.windows)?;
    if routed.len() == 0 {
        return Ok(());
    }
    let groups = group_by_destination(routed);
    if groups_are_at_home(rift, &groups)? {
        return Ok(());
    }
    send_groups_home(rift, &source, &groups)
}

fn send_groups_home(rift: &mut Rift<'_>, source: &RehomeSource<'_>, groups: &Vec<DestinationGroup>) -> (done:
    Result<(), Stop>)
    ensures
        dialogue::follows(
            journey(source@, group_views(groups@)),
            old(rift).rest(),
            final(rift).rest(),
            dialogue::seen(done),
        ),
{
    proof {
        reveal(journey);
    }
    let transaction = RiftTransaction::for_batch(rift, source.windows.len())?;
    place_groups(rift, transaction, groups)?;
    restore_source(rift, transaction, source)?;
    verify_groups(rift, groups)
}

fn select_source<'a>(
    rift: &mut Rift<'a>,
    displays: &'a Vec<DisplayData>,
    policy: &ResolvedPolicy<'a>,
    workspace_name: Option<&str>,
) -> (source: Result<RehomeSource<'a>, Stop>)
    ensures
        dialogue::follows(
            source_of(displays@, policy@, optional_name(workspace_name)),
            old(rift).rest(),
            final(rift).rest(),
            dialogue::seen(source),
        ),
{
    if let Some(workspace_name) = workspace_name {
        let display_uuid = dialogue::settled(policy.target_display(workspace_name))?;
        let target = rift.target_context(workspace_name, display_uuid.clone(), displays)?;
        if !target.display_is_active || !target.workspace_is_active {
            let transaction = RiftTransaction::new(rift)?;
            placement::prepare_target(rift, transaction, &target, workspace_name)?;
        }
        let workspace = rift.workspace_at(&target, workspace_name)?;
        return Ok(
            RehomeSource {
                display_uuid,
                workspace_name: workspace.name.clone(),
                windows: &workspace.windows,
            },
        );
    }
    let focused = rift.focused_workspace(displays)?;
    Ok(
        RehomeSource {
            display_uuid: focused.display_uuid,
            workspace_name: focused.workspace.name.clone(),
            windows: &focused.workspace.windows,
        },
    )
}

/// The windows of a group without their homes.
fn collect_windows(routed: &Vec<RoutedWindow>) -> (windows: Vec<WindowData>)
    ensures
        windows@ == windows_of(routed@),
{
    let mut windows: Vec<WindowData> = Vec::new();
    let mut at: usize = 0;
    while at < routed.len()
        invariant
            at <= routed.len(),
            windows@ == windows_of(routed@.take(at as int)),
        decreases routed.len() - at,
    {
        windows.push(routed[at].window.clone());
        at = at + 1;
        assert(windows@ =~= windows_of(routed@.take(at as int)));
    }
    assert(routed@.take(at as int) =~= routed@);
    windows
}

impl DestinationGroup {
    fn member_ids(&self) -> (ids: Vec<WindowId>)
        ensures
            ids@ == member_ids(self@),
    {
        model::collect_ids(&collect_windows(&self.windows))
    }

    fn destination(&self, rift: &mut Rift<'_>) -> (target: Result<TargetContext, Stop>)
        ensures
            dialogue::follows(
                destination(self@),
                old(rift).rest(),
                final(rift).rest(),
                dialogue::seen(target),
            ),
    {
        let displays = rift.displays()?;
        rift.target_context(&self.workspace_name, self.display_uuid.clone(), displays)
    }
}

fn place_groups(
    rift: &mut Rift<'_>,
    transaction: RiftTransaction,
    groups: &Vec<DestinationGroup>,
) -> (done: Result<(), Stop>)
    ensures
        dialogue::follows(
            placements_from(transaction, group_views(groups@), 0),
            old(rift).rest(),
            final(rift).rest(),
            dialogue::seen(done),
        ),
{
    proof {
        reveal(placements_from);
    }
    let ghost views = group_views(groups@);
    let mut at: usize = 0;
    #[verifier::loop_isolation(false)]
    while at < groups.len()
        invariant
            at <= groups.len(),
            dialogue::run(placements_from(transaction, views, 0), old(rift).rest())
                == dialogue::run(placements_from(transaction, views, at as int), rift.rest()),
        decreases groups.len() - at,
    {
        assert(views[at as int] == groups@[at as int]@);
        place_group(rift, transaction, &groups[at])?;
        at = at + 1;
    }
    Ok(())
}

/// Sends a group home: shows its workspace, moves the windows that are elsewhere to the
/// display, and those that are still missing to the workspace.
pub fn place_group(rift: &mut Rift<'_>, transaction: RiftTransaction, group: &DestinationGroup) -> (done:
    Result<(), Stop>)
    ensures
        dialogue::follows(
            group_placement(transaction, group@),
            old(rift).rest(),
            final(rift).rest(),
            dialogue::seen(done),
        ),
{
    proof {
        reveal(group_placement);
    }
    let target = group.destination(rift)?;
    placement::prepare_target(rift, transaction, &target, &group.workspace_name)?;
    let windows = collect_windows(&group.windows);
    let elsewhere = find_off_display(rift, &target, &windows)?;
    place_on_display(rift, transaction, &target, &group.workspace_name, &elsewhere)?;
    let missing = rift.windows_missing_from_workspace(
        &target,
        &group.workspace_name,
        &group.member_ids(),
    )?;
    let workspace_windows = model::select_windows(&windows, &missing);
    place_in_workspace(rift, transaction, &target, &group.workspace_name, &workspace_windows)
}

fn find_off_display(rift: &mut Rift<'_>, target: &TargetContext, windows: &Vec<WindowData>) -> (found:
    Result<Vec<WindowData>, Stop>)
    ensures
        dialogue::follows(
            off_display_from(target@, windows@, 0, Seq::empty()),
            old(rift).rest(),
            final(rift).rest(),
            dialogue::seen(found),
        ),
{
    let mut found: Vec<WindowData> = Vec::new();
    let mut at: usize = 0;
    #[verifier::loop_isolation(false)]
    while at < windows.len()
        invariant
            at <= windows.len(),
            dialogue::run(
                off_display_from(target@, windows@, 0, Seq::empty()),
                old(rift).rest(),
            ) == dialogue::run(
                off_display_from(target@, windows@, at as int, found@),
                rift.rest(),
            ),
        decreases windows.len() - at,
    {
        if !rift.window_is_on_display(target, windows[at].id)? {
            found.push(windows[at].clone());
        }
        at = at + 1;
    }
    Ok(found)
}

fn place_on_display(
    rift: &mut Rift<'_>,
    transaction: RiftTransaction,
    target: &TargetContext,
    workspace_name: &str,
    windows: &Vec<WindowData>,
) -> (done: Result<(), Stop>)
    ensures
        dialogue::follows(
            display_placement(transaction, target@, workspace_name@, windows@),
            old(rift).rest(),
            final(rift).rest(),
            dialogue::seen(done),
        ),
{
    if windows.len() == 0 {
        return Ok(());
    }
    let mut commands: Vec<RiftCommand> = Vec::new();
    let mut conditions: Vec<Condition> = Vec::new();
    let mut at: usize = 0;
    #[verifier::loop_isolation(false)]
    while at < windows.len()
        invariant
            at <= windows.len(),
            commands.len() == at,
            conditions.len() == at,
            forall|i: int|
                0 <= i < at ==> (#[trigger] commands@[i])@ == rift::transfer_of(target@, windows@[i]),
            forall|i: int|
                0 <= i < at ==> (#[trigger] conditions@[i])@ == ConditionView::WindowIsOnDisplay(
                    windows@[i].id,
                ),
        decreases windows.len() - at,
    {
        commands.push(rift.transfer_window_command(target, &windows[at]));
        conditions.push(Condition::WindowIsOnDisplay(windows[at].id));
        at = at + 1;
    }
    let check = Check {
        target: target.clone(),
        workspace_name: workspace_name.to_owned(),
        conditions,
    };
    assert(transaction::command_views(commands@) =~= transfers_of(target@, windows@));
    assert(check@.conditions =~= on_display_check(target@, workspace_name@, windows@).conditions);
    transaction.confirmed_phase(
        rift,
        &join2("display placement for workspace ", workspace_name),
        commands,
        placement::display_events(target),
        check,
    )
}

fn place_in_workspace(
    rift: &mut Rift<'_>,
    transaction: RiftTransaction,
    target: &TargetContext,
    workspace_name: &str,
    windows: &Vec<WindowData>,
) -> (done: Result<(), Stop>)
    ensures
        dialogue::follows(
            workspace_placement(transaction, target@, workspace_name@, windows@),
            old(rift).rest(),
            final(rift).rest(),
            dialogue::seen(done),
        ),
{
    if windows.len() == 0 {
        return Ok(());
    }
    let commands = rift.placement_commands(target, windows);
    transaction.confirmed_phase(
        rift,
        &join2("workspace placement for ", workspace_name),
        commands,
        placement::workspace_events(target, workspace_name),
        Check::one(target, workspace_name, Condition::WindowsAreAt(model::collect_ids(windows))),
    )
}

fn verify_groups(rift: &mut Rift<'_>, groups: &Vec<DestinationGroup>) -> (done: Result<(), Stop>)
    ensures
        dialogue::follows(
            verification_from(group_views(groups@), 0),
            old(rift).rest(),
            final(rift).rest(),
            dialogue::seen(done),
        ),
{
    proof {
        reveal(verification_from);
    }
    let ghost views = group_views(groups@);
    let mut at: usize = 0;
    #[verifier::loop_isolation(false)]
    while at < groups.len()
        invariant
            at <= groups.len(),
            dialogue::run(verification_from(views, 0), old(rift).rest()) == dialogue::run(
                verification_from(views, at as int),
                rift.rest(),
            ),
        decreases groups.len() - at,
    {
        assert(views[at as int] == groups@[at as int]@);
        let target = groups[at].destination(rift)?;
        verify_group(rift, &groups[at], &target)?;
        at = at + 1;
    }
    Ok(())
}

/// Whether the groups are all at home.
pub fn groups_are_at_home(rift: &mut Rift<'_>, groups: &Vec<DestinationGroup>) -> (there: Result<
    bool,
    Stop,
>)
    ensures
        dialogue::follows(
            are_at_home_from(group_views(groups@), 0),
            old(rift).rest(),
            final(rift).rest(),
            dialogue::seen(there),
        ),
{
    proof {
        reveal(are_at_home_from);
    }
    let ghost views = group_views(groups@);
    let mut at: usize = 0;
    #[verifier::loop_isolation(false)]
    while at < groups.len()
        invariant
            at <= groups.len(),
            dialogue::run(are_at_home_from(views, 0), old(rift).rest()) == dialogue::run(
                are_at_home_from(views, at as int),
                rift.rest(),
            ),
        decreases groups.len() - at,
    {
        let group = &groups[at];
        assert(views[at as int] == group@);
        let target = group.destination(rift)?;
        if !rift.windows_are_at(&target, &group.workspace_name, &group.member_ids())? {
            return Ok(false);
        }
        at = at + 1;
    }
    Ok(true)
}

fn verify_group(rift: &mut Rift<'_>, group: &DestinationGroup, target: &TargetContext) -> (done: Result<
    (),
    Stop,
>)
    ensures
        dialogue::follows(
            group_verification(group@, target@),
            old(rift).rest(),
            final(rift).rest(),
            dialogue::seen(done),
        ),
{
    if rift.windows_are_at(target, &group.workspace_name, &group.member_ids())? {
        return Ok(());
    }
    let mut message = join3(
        "rehome verification failed for ",
        &list_labels(&group.windows),
        ": expected workspace ",
    );
    message.append(&group.workspace_name);
    message.append(" on ");
    message.append(&group.display_uuid);
    Err(Stop::Failed(state_error(message)))
}

/// The labels of windows, separated by commas.
fn list_labels(windows: &Vec<RoutedWindow>) -> (list: String)
    ensures
        list@ == text::listed(Seq::new(windows@.len(), |i: int| windows@[i].home.label@)),
{
    let ghost labels = Seq::new(windows@.len(), |i: int| windows@[i].home.label@);
    let mut list = "".to_owned();
    proof {
        reveal_strlit("");
        assert(list@ =~= text::listed(labels.take(0)));
    }
    let mut at: usize = 0;
    #[verifier::loop_isolation(false)]
    while at < windows.len()
        invariant
            at <= windows.len(),
            list@ == text::listed(labels.take(at as int)),
        decreases windows.len() - at,
    {
        assert(labels.take(at + 1).drop_last() =~= labels.take(at as int));
        assert(labels.take(at + 1).last() == windows@[at as int].home.label@);
        if at > 0 {
            list.append(", ");
        } else {
            assert(list@ =~= Seq::<char>::empty());
        }
        list.append(&windows[at].home.label);
        at = at + 1;
        assert(list@ =~= text::listed(labels.take(at as int)));
    }
    assert(labels.take(at as int) =~= labels);
    list
}

fn restore_source(rift: &mut Rift<'_>, transaction: RiftTransaction, source: &RehomeSource<'_>) -> (done:
    Result<(), Stop>)
    ensures
        dialogue::follows(
            source_restoration(transaction, source@),
            old(rift).rest(),
            final(rift).rest(),
            dialogue::seen(done),
        ),
{
    proof {
        reveal(source_restoration);
    }
    let displays = rift.displays()?;
    let target = rift.target_context(
        &source.workspace_name,
        source.display_uuid.clone(),
        displays,
    )?;
    placement::prepare_target(rift, transaction, &target, &source.workspace_name)
}

} // verus!
