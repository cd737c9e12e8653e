//! What holds of the choices that are made without Rift: profiles, displays and commands.
use crate::cli;
use crate::cli::InvocationView;
use crate::dialogue;
use crate::dialogue::{AskView, Outcome, Reply, RequestView};
use crate::error;
use crate::error::{ErrorKind, ErrorView};
use crate::model;
use crate::model::DisplayData;
use crate::policy;
use crate::policy::{DisplayAlias, Profile};
use crate::workflow;
use crate::workflow::rehome;
use crate::workflow::DisplayDirection;
use vstd::prelude::*;

verus! {

broadcast use dialogue::group_run;

/// The profile in force is the first one whose required displays are all connected.
pub proof fn the_first_available_profile_is_in_force(
    profiles: Seq<Profile>,
    aliases: Map<Seq<char>, String>,
    at: int,
)
    requires
        0 <= at < profiles.len(),
        policy::all_connected(profiles[at].required_display_aliases@, aliases),
        forall|i: int|
            0 <= i < at ==> !policy::all_connected(
                (#[trigger] profiles[i]).required_display_aliases@,
                aliases,
            ),
    ensures
        policy::profile_in_force(profiles, aliases) == Ok::<Profile, ErrorView>(profiles[at]),
{
    let available = policy::is_available(aliases);
    assert forall|i: int| 0 <= i < at implies !available(#[trigger] profiles[i]) by {}
    model::lemma_first_found(profiles, available, at);
}

/// More connected displays never choose a later profile: where a profile is available with
/// fewer of them, the one in force with more is that one or an earlier one.
pub proof fn more_displays_never_choose_a_later_profile(
    profiles: Seq<Profile>,
    fewer: Map<Seq<char>, String>,
    more: Map<Seq<char>, String>,
    at: int,
)
    requires
        0 <= at < profiles.len(),
        policy::all_connected(profiles[at].required_display_aliases@, fewer),
        forall|alias: Seq<char>| #[trigger]
            fewer.contains_key(alias) ==> more.contains_key(alias),
    ensures
        exists|first: int|
            0 <= first <= at && policy::profile_in_force(profiles, more) == Ok::<
                Profile,
                ErrorView,
            >(#[trigger] profiles[first]),
{
    let first = lemma_first_available(profiles, more, at);
    the_first_available_profile_is_in_force(profiles, more, first);
}

proof fn lemma_first_available(
    profiles: Seq<Profile>,
    aliases: Map<Seq<char>, String>,
    at: int,
) -> (first: int)
    requires
        0 <= at < profiles.len(),
        policy::all_connected(profiles[at].required_display_aliases@, aliases),
    ensures
        0 <= first <= at,
        policy::all_connected(profiles[first].required_display_aliases@, aliases),
        forall|i: int|
            0 <= i < first ==> !policy::all_connected(
                (#[trigger] profiles[i]).required_display_aliases@,
                aliases,
            ),
    decreases at,
{
    if exists|i: int|
        0 <= i < at && policy::all_connected(
            (#[trigger] profiles[i]).required_display_aliases@,
            aliases,
        ) {
        let earlier = choose|i: int|
            0 <= i < at && policy::all_connected(
                (#[trigger] profiles[i]).required_display_aliases@,
                aliases,
            );
        lemma_first_available(profiles, aliases, earlier)
    } else {
        at
    }
}

/// Without such a profile there is a failure.
pub proof fn no_available_profile_is_a_failure(
    profiles: Seq<Profile>,
    aliases: Map<Seq<char>, String>,
)
    requires
        forall|i: int|
            0 <= i < profiles.len() ==> !policy::all_connected(
                (#[trigger] profiles[i]).required_display_aliases@,
                aliases,
            ),
    ensures
        policy::profile_in_force(profiles, aliases) == Err::<Profile, ErrorView>(
            error::state_failure("no monitor profile matches the connected displays"@),
        ),
{
    let available = policy::is_available(aliases);
    assert forall|i: int| 0 <= i < profiles.len() implies !available(#[trigger] profiles[i]) by {}
    model::lemma_first_absent(profiles, available);
}

/// A display that the policy assigns is one of those connected.
pub proof fn an_assigned_display_is_connected(
    profile: Profile,
    workspace_name: Seq<char>,
    display_aliases: Map<Seq<char>, DisplayAlias>,
    displays: Seq<DisplayData>,
)
    requires
        policy::assigned_display(
            profile,
            workspace_name,
            policy::connected(display_aliases, displays),
            displays,
        ) is Ok,
    ensures
        ({
            let uuid = policy::assigned_display(
                profile,
                workspace_name,
                policy::connected(display_aliases, displays),
                displays,
            )->Ok_0;
            exists|i: int| 0 <= i < displays.len() && (#[trigger] displays[i]).uuid@ == uuid
        }),
{
    let aliases = policy::connected(display_aliases, displays);
    let reference = policy::display_reference(profile, workspace_name)->0;
    if reference != "only"@ {
        let meant = policy::is_meant_by(display_aliases[reference]);
        model::lemma_first_accepted(displays, meant);
        let found = model::first(displays, meant)->0;
        let i = displays.index_of(found);
        assert(displays[i].uuid@ == aliases[reference]@);
    } else {
        assert(displays[0].uuid@ == displays[0].uuid@);
    }
}

/// Whether no two displays share an identifier.
pub open spec fn distinct(displays: Seq<DisplayData>) -> bool {
    forall|i: int, j: int|
        0 <= i < j < displays.len() ==> (#[trigger] displays[i]).uuid@ != (
        #[trigger] displays[j]).uuid@
}

/// The neighbour of a display is the one a step away from where the display first stands.
pub proof fn a_neighbour_is_one_step_away(
    displays: Seq<DisplayData>,
    source_uuid: Seq<char>,
    at: int,
    direction: DisplayDirection,
)
    requires
        2 <= displays.len(),
        workflow::stands_at(displays, source_uuid, at),
    ensures
        workflow::neighbour(displays, source_uuid, direction) == Ok::<
            Option<DisplayData>,
            ErrorView,
        >(Some(displays[workflow::step_around(at, direction, displays.len() as int)])),
        0 <= workflow::step_around(at, direction, displays.len() as int) < displays.len(),
{
    let chosen = choose|i: int| workflow::stands_at(displays, source_uuid, i);
    assert(chosen == at);
    let n = displays.len() as int;
    vstd::arithmetic::div_mod::lemma_mod_bound(at + 1, n);
    vstd::arithmetic::div_mod::lemma_mod_bound(at + n - 1, n);
}

/// One display on and one display back leads to the display one came from.
pub proof fn there_and_back_is_where_it_began(
    displays: Seq<DisplayData>,
    at: int,
    direction: DisplayDirection,
)
    requires
        distinct(displays),
        2 <= displays.len(),
        0 <= at < displays.len(),
    ensures
        workflow::neighbour(displays, displays[at].uuid@, direction) matches Ok(Some(next))
            && workflow::neighbour(displays, next.uuid@, direction.reversed()) == Ok::<
            Option<DisplayData>,
            ErrorView,
        >(Some(displays[at])),
{
    let n = displays.len() as int;
    let next = workflow::step_around(at, direction, n);
    a_neighbour_is_one_step_away(displays, displays[at].uuid@, at, direction);
    a_neighbour_is_one_step_away(displays, displays[next].uuid@, next, direction.reversed());
    lemma_step_around(at, n);
}

proof fn lemma_step_around(at: int, n: int)
    requires
        2 <= n,
        0 <= at < n,
    ensures
        (at + 1) % n == (if at + 1 < n {
            at + 1
        } else {
            0
        }),
        (at + n - 1) % n == (if at > 0 {
            at - 1
        } else {
            n - 1
        }),
        ((at + 1) % n + n - 1) % n == at,
        ((at + n - 1) % n + 1) % n == at,
{
    if at + 1 < n {
        vstd::arithmetic::div_mod::lemma_small_mod((at + 1) as nat, n as nat);
    } else {
        vstd::arithmetic::div_mod::lemma_mod_self_0(n);
    }
    if at > 0 {
        vstd::arithmetic::div_mod::lemma_mod_add_multiples_vanish(at - 1, n);
        vstd::arithmetic::div_mod::lemma_small_mod((at - 1) as nat, n as nat);
    } else {
        vstd::arithmetic::div_mod::lemma_small_mod((n - 1) as nat, n as nat);
        vstd::arithmetic::div_mod::lemma_mod_self_0(n);
    }
    vstd::arithmetic::div_mod::lemma_small_mod(at as nat, n as nat);
    vstd::arithmetic::div_mod::lemma_mod_add_multiples_vanish(at, n);
}

/// A neighbour is another display.
pub proof fn a_neighbour_is_another_display(
    displays: Seq<DisplayData>,
    at: int,
    direction: DisplayDirection,
)
    requires
        distinct(displays),
        2 <= displays.len(),
        0 <= at < displays.len(),
    ensures
        workflow::neighbour(displays, displays[at].uuid@, direction) matches Ok(Some(next))
            && next.uuid@ != displays[at].uuid@,
{
    let n = displays.len() as int;
    a_neighbour_is_one_step_away(displays, displays[at].uuid@, at, direction);
    lemma_step_around(at, n);
    let next = workflow::step_around(at, direction, n);
    assert(next != at);
    if next < at {
        assert(displays[next].uuid@ != displays[at].uuid@);
    } else {
        assert(displays[at].uuid@ != displays[next].uuid@);
    }
}

/// Every failure to read the command line says how it is used.
pub proof fn a_misread_command_line_shows_the_usage(args: Seq<Seq<char>>)
    requires
        cli::invocation_of(args) is Err,
    ensures
        ({
            let failure = cli::invocation_of(args)->Err_0;
            &&& failure.kind is InvalidInput
            &&& exists|message: Seq<char>| failure == #[trigger] error::usage_failure(message)
        }),
{
}

/// Help is given whatever follows the word.
pub proof fn help_takes_any_arguments(args: Seq<Seq<char>>)
    requires
        args.len() > 0,
        args[0] == "help"@ || args[0] == "--help"@ || args[0] == "-h"@,
    ensures
        cli::invocation_of(args) == Ok::<InvocationView, ErrorView>(InvocationView::Help),
{
    reveal_strlit("help");
    reveal_strlit("--help");
    reveal_strlit("-h");
    reveal_strlit("move-follow");
    reveal_strlit("switch-workspace");
    reveal_strlit("switch-workspace-both");
    reveal_strlit("move-window-to-display");
    reveal_strlit("move-workspace-to-display");
    reveal_strlit("rehome");
    assert("help"@.len() == 4 && "--help"@.len() == 6 && "-h"@.len() == 2);
    assert("rehome"@[0] != "--help"@[0]);
}

proof fn lemma_rehoming_connects_first(
    workspace_name: Option<Seq<char>>,
    available: bool,
    replies: Seq<Reply>,
)
    requires
        replies.len() > 0,
        replies[0] == (Reply::Connected { available }),
    ensures
        dialogue::run(rehome::rehome_program(workspace_name), Seq::empty()) == Outcome::<
            (),
        >::Waiting(RequestView::Outside(AskView::Connect)),
        !available ==> dialogue::run(rehome::rehome_program(workspace_name), replies) == Outcome::<
            (),
        >::Failed(
            ErrorView {
                kind: ErrorKind::NotConnected,
                message: "Rift's Mach service is unavailable"@,
            },
            replies.skip(1),
        ),
{
    reveal(rehome::errand);
}

/// Every command but help connects first, and goes no further where Rift's service does not
/// answer.
pub proof fn every_command_connects_first(
    invocation: InvocationView,
    available: bool,
    replies: Seq<Reply>,
)
    requires
        !(invocation is Help),
        replies.len() > 0,
        replies[0] == (Reply::Connected { available }),
    ensures
        dialogue::run(cli::program_of(invocation), Seq::empty()) == Outcome::<()>::Waiting(
            RequestView::Outside(AskView::Connect),
        ),
        !available ==> dialogue::run(cli::program_of(invocation), replies) == Outcome::<
            (),
        >::Failed(
            ErrorView {
                kind: ErrorKind::NotConnected,
                message: "Rift's Mach service is unavailable"@,
            },
            replies.skip(1),
        ),
{
    if invocation is Rehome {
        lemma_rehoming_connects_first(invocation->source, available, replies);
    }
}

} // verus!
