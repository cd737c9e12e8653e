//! The monitor policy: which profile the connected displays call for, and which display a
//! workspace belongs on.
use crate::dialogue;
use crate::dialogue::{refused, Ask, AskView, Program, Reply, Request, Rift, Stop};
use crate::error;
use crate::error::{state_error, ErgoError, ErrorView};
use crate::model;
use crate::model::{DisplayData, WindowData};
use crate::names::NameMap;
use crate::rift;
use crate::text;
use crate::text::{join3, same_optional, same_text};
use vstd::prelude::*;

verus! {

broadcast use dialogue::group_run;

/// The policy as configured.
#[derive(Debug, PartialEq, Eq)]
pub struct Policy {
    pub display_aliases: NameMap<DisplayAlias>,
    pub profiles: Vec<Profile>,
}

/// How a configured display is recognised.
#[derive(Debug, PartialEq, Eq)]
pub struct DisplayAlias {
    pub uuid: Option<String>,
    pub name: Option<String>,
}

/// One arrangement of displays.
#[derive(Debug, PartialEq, Eq)]
pub struct Profile {
    pub name: String,
    pub required_display_aliases: Vec<String>,
    pub fallback_display: Option<String>,
    pub workspace_displays: NameMap<String>,
}

/// Where a window belongs.
#[derive(Debug, PartialEq, Eq)]
pub struct WindowHome {
    pub display_uuid: String,
    pub workspace_name: String,
    pub label: String,
}

/// A window with its home.
#[derive(Debug, PartialEq, Eq)]
pub struct RoutedWindow {
    pub window: WindowData,
    pub home: WindowHome,
}

impl Clone for RoutedWindow {
    fn clone(&self) -> (copy: Self)
        ensures
            copy == *self,
    {
        RoutedWindow {
            window: self.window.clone(),
            home: WindowHome {
                display_uuid: self.home.display_uuid.clone(),
                workspace_name: self.home.workspace_name.clone(),
                label: self.home.label.clone(),
            },
        }
    }
}

/// Accepts a display that an alias names, by identifier or by name. An alias without a name
/// accepts a display without one.
pub open spec fn is_meant_by(alias: DisplayAlias) -> spec_fn(DisplayData) -> bool {
    |display: DisplayData|
        text::optional_text(alias.uuid) == Some(display.uuid@) || text::optional_text(alias.name)
            == text::optional_text(display.name)
}

/// The identifiers of the connected displays, by alias; an alias that names none is left out,
/// and one that names several takes the first.
pub open spec fn connected(
    display_aliases: Map<Seq<char>, DisplayAlias>,
    displays: Seq<DisplayData>,
) -> Map<Seq<char>, String> {
    Map::new(
        |alias: Seq<char>|
            display_aliases.contains_key(alias) && model::first(
                displays,
                is_meant_by(display_aliases[alias]),
            ) is Some,
        |alias: Seq<char>| model::first(displays, is_meant_by(display_aliases[alias]))->0.uuid,
    )
}

/// Accepts a profile whose required displays are all connected.
pub open spec fn is_available(aliases: Map<Seq<char>, String>) -> spec_fn(Profile) -> bool {
    |profile: Profile| all_connected(profile.required_display_aliases@, aliases)
}

/// Whether the aliases are all those of connected displays.
pub open spec fn all_connected(required: Seq<String>, aliases: Map<Seq<char>, String>) -> bool {
    forall|i: int| 0 <= i < required.len() ==> aliases.contains_key((#[trigger] required[i])@)
}

/// The profile in force: the first one that is available.
pub open spec fn profile_in_force(profiles: Seq<Profile>, aliases: Map<Seq<char>, String>) -> Result<
    Profile,
    ErrorView,
> {
    match model::first(profiles, is_available(aliases)) {
        Some(profile) => Ok(profile),
        None => Err(error::state_failure("no monitor profile matches the connected displays"@)),
    }
}

/// The display that a profile refers to for a workspace.
pub open spec fn display_reference(profile: Profile, workspace_name: Seq<char>) -> Option<
    Seq<char>,
> {
    if profile.workspace_displays@.contains_key(workspace_name) {
        Some(profile.workspace_displays@[workspace_name]@)
    } else {
        text::optional_text(profile.fallback_display)
    }
}

/// The display on which a profile puts a workspace. The reference `only` stands for the one
/// display there is.
pub open spec fn assigned_display(
    profile: Profile,
    workspace_name: Seq<char>,
    aliases: Map<Seq<char>, String>,
    displays: Seq<DisplayData>,
) -> Result<Seq<char>, ErrorView> {
    match display_reference(profile, workspace_name) {
        None => Err(
            error::state_failure(
                "profile "@ + profile.name@ + " has no display for workspace "@ + workspace_name,
            ),
        ),
        Some(reference) => if reference == "only"@ {
            if displays.len() == 1 {
                Ok(displays[0].uuid@)
            } else {
                Err(
                    error::state_failure(
                        "profile requires exactly one display, but multiple are connected"@,
                    ),
                )
            }
        } else if aliases.contains_key(reference) {
            Ok(aliases[reference]@)
        } else {
            Err(
                error::state_failure(
                    "profile "@ + profile.name@ + " refers to unavailable display alias "@
                        + reference,
                ),
            )
        },
    }
}

/// Reads the policy.
pub open spec fn load() -> Program<Policy> {
    rift::outside(
        AskView::Policy,
        |reply: Reply|
            match reply {
                Reply::Policy(policy) => Program::Return(policy),
                _ => Program::Fail(dialogue::refusal(reply)),
            },
    )
}

/// The policy with its aliases resolved and its profile chosen.
pub struct ResolvedView {
    pub aliases: Map<Seq<char>, String>,
    pub profile: Profile,
    pub displays: Seq<DisplayData>,
}

/// Reads the policy and resolves it for the connected displays.
pub open spec fn load_resolved(displays: Seq<DisplayData>) -> Program<ResolvedView> {
    dialogue::bind(
        load(),
        |policy: Policy|
            dialogue::bind(
                dialogue::decided(
                    profile_in_force(
                        policy.profiles@,
                        connected(policy.display_aliases@, displays),
                    ),
                ),
                |profile: Profile|
                    Program::Return(
                        ResolvedView {
                            aliases: connected(policy.display_aliases@, displays),
                            profile,
                            displays,
                        },
                    ),
            ),
    )
}

/// The display on which the resolved policy puts a workspace.
pub open spec fn resolved_display(resolved: ResolvedView, workspace_name: Seq<char>) -> Result<
    Seq<char>,
    ErrorView,
> {
    assigned_display(resolved.profile, workspace_name, resolved.aliases, resolved.displays)
}

/// The display on which the policy puts a workspace.
pub open spec fn display_for(workspace_name: Seq<char>, displays: Seq<DisplayData>) -> Program<
    Seq<char>,
> {
    dialogue::bind(
        load_resolved(displays),
        |resolved: ResolvedView| dialogue::decided(resolved_display(resolved, workspace_name)),
    )
}

/// The windows that have a home, with it.
pub open spec fn route(windows: Seq<WindowData>) -> Program<Seq<RoutedWindow>> {
    rift::outside(
        AskView::Route { windows },
        |reply: Reply|
            match reply {
                Reply::Routed(routed) => Program::Return(routed@),
                _ => Program::Fail(dialogue::refusal(reply)),
            },
    )
}

/// The identifiers of the connected displays, by alias.
pub fn resolve_display_aliases(policy: &Policy, displays: &Vec<DisplayData>) -> (aliases: NameMap<
    String,
>)
    ensures
        aliases@ == connected(policy.display_aliases@, displays@),
{
    let configured = &policy.display_aliases;
    let mut aliases: NameMap<String> = NameMap::new();
    let count = configured.len();
    let mut at: usize = 0;
    while at < count
        invariant
            at <= count == configured.names().len(),
            configured == &policy.display_aliases,
            forall|alias: Seq<char>| #[trigger]
                aliases@.contains_key(alias) <==> connected(
                    configured@,
                    displays@,
                ).contains_key(alias) && configured.names().take(at as int).contains(alias),
            forall|alias: Seq<char>| #[trigger]
                aliases@.contains_key(alias) ==> aliases@[alias] == connected(
                    configured@,
                    displays@,
                )[alias],
        decreases count - at,
    {
        let (alias, configured_display) = configured.entry(at);
        let ghost seen = configured.names().take(at as int);
        let ghost more = configured.names().take(at + 1);
        assert(more =~= seen.push(alias@));
        assert(more[at as int] == alias@);
        assert forall|other: Seq<char>| #[trigger]
            more.contains(other) <==> seen.contains(other) || other == alias@ by {
            if seen.contains(other) {
                let i = seen.index_of(other);
                assert(more[i] == other);
            }
            if more.contains(other) && other != alias@ {
                let i = more.index_of(other);
                assert(seen[i] == other);
            }
        }
        if let Some(display) = find_meant(displays, configured_display) {
            aliases.insert(alias.clone(), display.uuid.clone());
        }
        at = at + 1;
    }
    assert(configured.names().take(at as int) =~= configured.names());
    assert(aliases@ =~= connected(configured@, displays@));
    aliases
}

/// The first display that an alias names.
fn find_meant<'d>(displays: &'d Vec<DisplayData>, alias: &DisplayAlias) -> (found: Option<
    &'d DisplayData,
>)
    ensures
        found matches Some(display) ==> model::first(displays@, is_meant_by(*alias)) == Some(
            *display,
        ),
        found is None ==> model::first(displays@, is_meant_by(*alias)) is None,
{
    let ghost meant = is_meant_by(*alias);
    let mut at: usize = 0;
    while at < displays.len()
        invariant
            at <= displays.len(),
            meant == is_meant_by(*alias),
            forall|i: int| 0 <= i < at ==> !meant(#[trigger] displays@[i]),
        decreases displays.len() - at,
    {
        let display = &displays[at];
        let by_uuid = match &alias.uuid {
            Some(uuid) => same_text(uuid, &display.uuid),
            None => false,
        };
        if by_uuid || same_optional(&alias.name, &display.name) {
            proof {
                model::lemma_first_found(displays@, meant, at as int);
            }
            return Some(display);
        }
        at = at + 1;
    }
    proof {
        model::lemma_first_absent(displays@, meant);
    }
    None
}

/// Whether the aliases are all those of connected displays.
fn are_connected(required: &Vec<String>, aliases: &NameMap<String>) -> (connected: bool)
    ensures
        connected == all_connected(required@, aliases@),
{
    let mut at: usize = 0;
    while at < required.len()
        invariant
            at <= required.len(),
            forall|i: int| 0 <= i < at ==> aliases@.contains_key((#[trigger] required@[i])@),
        decreases required.len() - at,
    {
        if !aliases.contains(&required[at]) {
            return false;
        }
        at = at + 1;
    }
    true
}

/// The contents of a chosen profile, or of the failure to choose one.
pub open spec fn seen_profile(result: Result<&Profile, ErgoError>) -> Result<Profile, ErrorView> {
    match result {
        Ok(profile) => Ok(*profile),
        Err(error) => Err(error@),
    }
}

/// Chooses the profile in force: the first one whose required displays are all connected.
pub fn select_profile<'p>(policy: &'p Policy, aliases: &NameMap<String>) -> (profile: Result<
    &'p Profile,
    ErgoError,
>)
    ensures
        seen_profile(profile) == profile_in_force(policy.profiles@, aliases@),
{
    let profiles = &policy.profiles;
    let ghost available = is_available(aliases@);
    let mut at: usize = 0;
    while at < profiles.len()
        invariant
            at <= profiles.len(),
            profiles == &policy.profiles,
            available == is_available(aliases@),
            forall|i: int| 0 <= i < at ==> !available(#[trigger] profiles@[i]),
        decreases profiles.len() - at,
    {
        if are_connected(&profiles[at].required_display_aliases, aliases) {
            proof {
                model::lemma_first_found(profiles@, available, at as int);
            }
            return Ok(&profiles[at]);
        }
        at = at + 1;
    }
    proof {
        model::lemma_first_absent(profiles@, available);
    }
    Err(state_error("no monitor profile matches the connected displays".to_owned()))
}

/// The contents of a text, or of the failure to find it.
pub open spec fn seen_text(result: Result<String, ErgoError>) -> Result<Seq<char>, ErrorView> {
    match result {
        Ok(text) => Ok(text@),
        Err(error) => Err(error@),
    }
}

/// The display on which a profile puts a workspace.
pub fn resolve_target_display(
    profile: &Profile,
    workspace_name: &str,
    aliases: &NameMap<String>,
    displays: &Vec<DisplayData>,
) -> (display: Result<String, ErgoError>)
    ensures
        seen_text(display) == assigned_display(*profile, workspace_name@, aliases@, displays@),
{
    let reference = match profile.workspace_displays.get(workspace_name) {
        Some(reference) => reference,
        None => match &profile.fallback_display {
            Some(reference) => reference,
            None => {
                let mut message = join3("profile ", &profile.name, " has no display for workspace ");
                message.append(workspace_name);
                return Err(state_error(message));
            },
        },
    };
    if same_text(reference, "only") {
        if displays.len() == 1 {
            Ok(displays[0].uuid.clone())
        } else {
            Err(
                state_error(
                    "profile requires exactly one display, but multiple are connected".to_owned(),
                ),
            )
        }
    } else {
        match aliases.get(reference) {
            Some(uuid) => Ok(uuid.clone()),
            None => {
                let mut message = join3(
                    "profile ",
                    &profile.name,
                    " refers to unavailable display alias ",
                );
                message.append(reference);
                Err(state_error(message))
            },
        }
    }
}

/// The policy with its aliases resolved and its profile chosen for the connected displays.
pub struct ResolvedPolicy<'a> {
    pub aliases: NameMap<String>,
    pub profile: &'a Profile,
    pub displays: &'a Vec<DisplayData>,
}

impl View for ResolvedPolicy<'_> {
    type V = ResolvedView;

    open spec fn view(&self) -> ResolvedView {
        ResolvedView {
            aliases: self.aliases@,
            profile: *self.profile,
            displays: self.displays@,
        }
    }
}

impl<'a> ResolvedPolicy<'a> {
    /// Reads the policy and resolves it for the connected displays.
    pub fn load(rift: &mut Rift<'a>, displays: &'a Vec<DisplayData>) -> (resolved: Result<
        ResolvedPolicy<'a>,
        Stop,
    >)
        ensures
            dialogue::follows(
                load_resolved(displays@),
                old(rift).rest(),
                final(rift).rest(),
                dialogue::seen(resolved),
            ),
    {
        let policy = load_policy(rift)?;
        let aliases = resolve_display_aliases(policy, displays);
        match select_profile(policy, &aliases) {
            Ok(profile) => Ok(ResolvedPolicy { aliases, profile, displays }),
            Err(error) => Err(Stop::Failed(error)),
        }
    }

    /// The display on which the policy puts a workspace.
    pub fn target_display(&self, workspace_name: &str) -> (display: Result<String, ErgoError>)
        ensures
            seen_text(display) == resolved_display(self@, workspace_name@),
    {
        resolve_target_display(self.profile, workspace_name, &self.aliases, self.displays)
    }

    /// The windows that have a home, with it.
    pub fn route_windows(&self, rift: &mut Rift<'a>, windows: &Vec<WindowData>) -> (routed: Result<
        &'a Vec<RoutedWindow>,
        Stop,
    >)
        ensures
            dialogue::follows(
                route(windows@),
                old(rift).rest(),
                final(rift).rest(),
                dialogue::seen(routed),
            ),
    {
        let reply = rift.ask(Request::Outside(Ask::Route { windows: copy_windows(windows) }))?;
        match reply {
            Reply::Routed(routed) => Ok(routed),
            _ => Err(refused(reply)),
        }
    }
}

/// A copy of the windows.
pub fn copy_windows(windows: &Vec<WindowData>) -> (copy: Vec<WindowData>)
    ensures
        copy@ == windows@,
{
    let mut copy: Vec<WindowData> = Vec::new();
    let mut at: usize = 0;
    while at < windows.len()
        invariant
            at <= windows.len(),
            copy@ == windows@.take(at as int),
        decreases windows.len() - at,
    {
        copy.push(windows[at].clone());
        at = at + 1;
        assert(copy@ =~= windows@.take(at as int));
    }
    assert(copy@ =~= windows@);
    copy
}

/// Reads the policy.
pub fn load_policy<'a>(rift: &mut Rift<'a>) -> (policy: Result<&'a Policy, Stop>)
    ensures
        dialogue::follows(
            load(),
            old(rift).rest(),
            final(rift).rest(),
            dialogue::seen_as_is(policy),
        ),
{
    let reply = rift.ask(Request::Outside(Ask::Policy))?;
    match reply {
        Reply::Policy(policy) => Ok(policy),
        _ => Err(refused(reply)),
    }
}

/// The display on which the policy puts a workspace.
pub fn target_display<'a>(
    rift: &mut Rift<'a>,
    workspace_name: &str,
    displays: &'a Vec<DisplayData>,
) -> (display: Result<String, Stop>)
    ensures
        dialogue::follows(
            display_for(workspace_name@, displays@),
            old(rift).rest(),
            final(rift).rest(),
            dialogue::seen(display),
        ),
{
    let resolved = ResolvedPolicy::load(rift, displays)?;
    dialogue::settled(resolved.target_display(workspace_name))
}

} // verus!
