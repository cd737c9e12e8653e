//! Which display the policy gives a workspace.
use crate::dialogue;
use crate::dialogue::{AskView, Outcome, Reply, RequestView};
use crate::error::{ErrorKind, ErrorView};
use crate::laws;
use crate::laws::queries;
use crate::model;
use crate::model::DisplayData;
use crate::policy;
use crate::policy::{DisplayAlias, Policy, Profile};
use vstd::prelude::*;

verus! {

broadcast use {dialogue::group_run, laws::group_requests};

/// Whether two optional texts are the same: both missing, or both there with the same characters.
pub open spec fn same_optional(first: Option<String>, second: Option<String>) -> bool {
    match (first, second) {
        (None, None) => true,
        (Some(one), Some(other)) => one@ == other@,
        _ => false,
    }
}

/// Whether an alias means a display: it has the display's identifier, or its name is that of the
/// display; where neither has a name, that counts as the same.
pub open spec fn means_display(alias: DisplayAlias, display: DisplayData) -> bool {
    (alias.uuid matches Some(uuid) && uuid@ == display.uuid@) || same_optional(
        alias.name,
        display.name,
    )
}

/// Whether a configured alias first means the display at this place.
pub open spec fn alias_stands_for(
    policy: Policy,
    displays: Seq<DisplayData>,
    alias: Seq<char>,
    at: int,
) -> bool {
    &&& policy.display_aliases@.contains_key(alias)
    &&& 0 <= at < displays.len()
    &&& means_display(policy.display_aliases@[alias], displays[at])
    &&& forall|i: int|
        0 <= i < at ==> !means_display(policy.display_aliases@[alias], #[trigger] displays[i])
}

/// Whether an alias is configured and means a connected display.
pub open spec fn is_connected(
    policy: Policy,
    displays: Seq<DisplayData>,
    alias: Seq<char>,
) -> bool {
    exists|at: int| alias_stands_for(policy, displays, alias, at)
}

/// Whether each of the displays that a profile requires is connected.
pub open spec fn has_its_displays(
    policy: Policy,
    displays: Seq<DisplayData>,
    profile: Profile,
) -> bool {
    forall|i: int|
        0 <= i < profile.required_display_aliases@.len() ==> is_connected(
            policy,
            displays,
            (#[trigger] profile.required_display_aliases@[i])@,
        )
}

/// Whether the first profile that has its displays stands here.
pub open spec fn is_in_force(policy: Policy, displays: Seq<DisplayData>, at: int) -> bool {
    &&& 0 <= at < policy.profiles@.len()
    &&& has_its_displays(policy, displays, policy.profiles@[at])
    &&& forall|i: int|
        0 <= i < at ==> !has_its_displays(policy, displays, #[trigger] policy.profiles@[i])
}

/// Whether a profile names this display reference for a workspace: the workspace's own one, or the
/// fallback where it has none.
pub open spec fn refers_to(
    profile: Profile,
    workspace_name: Seq<char>,
    reference: Seq<char>,
) -> bool {
    if profile.workspace_displays@.contains_key(workspace_name) {
        profile.workspace_displays@[workspace_name]@ == reference
    } else {
        profile.fallback_display matches Some(fallback) && fallback@ == reference
    }
}

/// Whether a reference stands for the display with this identifier: `only` for the one display
/// there is, and an alias for the display that it means.
pub open spec fn reference_stands_for(
    policy: Policy,
    displays: Seq<DisplayData>,
    reference: Seq<char>,
    display_uuid: Seq<char>,
) -> bool {
    if reference == "only"@ {
        displays.len() == 1 && displays[0].uuid@ == display_uuid
    } else {
        exists|at: int|
            #[trigger] alias_stands_for(policy, displays, reference, at) && displays[at].uuid@
                == display_uuid
    }
}

/// Whether the policy gives a workspace this display, by this profile and this reference.
pub open spec fn gives_by(
    policy: Policy,
    displays: Seq<DisplayData>,
    workspace_name: Seq<char>,
    display_uuid: Seq<char>,
    at: int,
    reference: Seq<char>,
) -> bool {
    &&& is_in_force(policy, displays, at)
    &&& refers_to(policy.profiles@[at], workspace_name, reference)
    &&& reference_stands_for(policy, displays, reference, display_uuid)
}

/// Whether the policy gives a workspace this display.
pub open spec fn gives(
    policy: Policy,
    displays: Seq<DisplayData>,
    workspace_name: Seq<char>,
    display_uuid: Seq<char>,
) -> bool {
    exists|at: int, reference: Seq<char>|
        gives_by(policy, displays, workspace_name, display_uuid, at, reference)
}

proof fn lemma_meaning(alias: DisplayAlias, display: DisplayData)
    ensures
        (policy::is_meant_by(alias))(display) == means_display(alias, display),
{
}

/// An alias resolves to the first display that it means, and to none where it means none.
pub proof fn an_alias_resolves_to_the_display_it_means(
    policy: Policy,
    displays: Seq<DisplayData>,
    alias: Seq<char>,
)
    ensures
        policy::connected(policy.display_aliases@, displays).contains_key(alias) <==> is_connected(
            policy,
            displays,
            alias,
        ),
        forall|at: int| #[trigger]
            alias_stands_for(policy, displays, alias, at) ==> policy::connected(
                policy.display_aliases@,
                displays,
            )[alias]@ == displays[at].uuid@,
{
    let meant = policy::is_meant_by(policy.display_aliases@[alias]);
    assert forall|d: DisplayData| #[trigger] meant(d) == means_display(
        policy.display_aliases@[alias],
        d,
    ) by {
        lemma_meaning(policy.display_aliases@[alias], d);
    }
    assert forall|at: int| #[trigger]
        alias_stands_for(policy, displays, alias, at) implies model::first(displays, meant)
        == Some(displays[at]) by {
        model::lemma_first_found(displays, meant, at);
    }
    if policy::connected(policy.display_aliases@, displays).contains_key(alias) {
        let at = queries::lemma_first_at(displays, meant);
        assert(alias_stands_for(policy, displays, alias, at));
    }
}

proof fn lemma_available(policy: Policy, displays: Seq<DisplayData>, profile: Profile)
    ensures
        (policy::is_available(policy::connected(policy.display_aliases@, displays)))(profile)
            == has_its_displays(policy, displays, profile),
{
    let aliases = policy::connected(policy.display_aliases@, displays);
    let required = profile.required_display_aliases@;
    assert forall|i: int| 0 <= i < required.len() implies (aliases.contains_key(
        (#[trigger] required[i])@,
    ) <==> is_connected(policy, displays, required[i]@)) by {
        an_alias_resolves_to_the_display_it_means(policy, displays, required[i]@);
    }
}

/// The profile in force is the first one that has its displays; without one there is a failure.
pub proof fn the_first_profile_with_its_displays_is_in_force(
    policy: Policy,
    displays: Seq<DisplayData>,
)
    ensures
        forall|at: int| #[trigger]
            is_in_force(policy, displays, at) ==> policy::profile_in_force(
                policy.profiles@,
                policy::connected(policy.display_aliases@, displays),
            ) == Ok::<Profile, ErrorView>(policy.profiles@[at]),
        policy::profile_in_force(
            policy.profiles@,
            policy::connected(policy.display_aliases@, displays),
        ) is Ok ==> exists|at: int| is_in_force(policy, displays, at),
        policy::profile_in_force(
            policy.profiles@,
            policy::connected(policy.display_aliases@, displays),
        ) matches Err(failure) ==> failure == (ErrorView {
            kind: ErrorKind::Other,
            message: "no monitor profile matches the connected displays"@,
        }),
{
    let aliases = policy::connected(policy.display_aliases@, displays);
    let available = policy::is_available(aliases);
    let profiles = policy.profiles@;
    assert forall|p: Profile| #[trigger] available(p) == has_its_displays(policy, displays, p) by {
        lemma_available(policy, displays, p);
    }
    assert forall|at: int| #[trigger] is_in_force(policy, displays, at) implies model::first(
        profiles,
        available,
    ) == Some(profiles[at]) by {
        model::lemma_first_found(profiles, available, at);
    }
    if model::first(profiles, available) is Some {
        let at = queries::lemma_first_at(profiles, available);
        assert(is_in_force(policy, displays, at));
    }
}

proof fn lemma_resolved(
    policy: Policy,
    displays: Seq<DisplayData>,
    profile: Profile,
    workspace_name: Seq<char>,
    reference: Seq<char>,
    display_uuid: Seq<char>,
)
    requires
        refers_to(profile, workspace_name, reference),
    ensures
        policy::assigned_display(
            profile,
            workspace_name,
            policy::connected(policy.display_aliases@, displays),
            displays,
        ) == Ok::<Seq<char>, ErrorView>(display_uuid) <==> reference_stands_for(
            policy,
            displays,
            reference,
            display_uuid,
        ),
{
    an_alias_resolves_to_the_display_it_means(policy, displays, reference);
    if reference != "only"@ && is_connected(policy, displays, reference) {
        let at = choose|at: int| alias_stands_for(policy, displays, reference, at);
        assert(alias_stands_for(policy, displays, reference, at));
    }
}

/// The display of a workspace is the one that the policy gives it: by the first profile that has
/// its displays, and there by the workspace's own reference, or by the fallback. Only the policy is
/// asked for.
pub proof fn a_workspace_has_the_display_that_the_policy_gives_it(
    workspace_name: Seq<char>,
    displays: Seq<DisplayData>,
    replies: Seq<Reply>,
    display_uuid: Seq<char>,
)
    requires
        replies.len() > 0,
        replies[0] is Policy,
    ensures
        laws::requests(policy::display_for(workspace_name, displays), replies) == seq![
            RequestView::Outside(AskView::Policy),
        ],
        dialogue::run(policy::display_for(workspace_name, displays), replies) == Outcome::Finished(
            display_uuid,
            replies.skip(1),
        ) <==> gives(replies[0]->Policy_0, displays, workspace_name, display_uuid),
        !(dialogue::run(policy::display_for(workspace_name, displays), replies) is Waiting),
{
    let policy = replies[0]->Policy_0;
    let aliases = policy::connected(policy.display_aliases@, displays);
    let program = policy::display_for(workspace_name, displays);
    the_first_profile_with_its_displays_is_in_force(policy, displays);
    assert(laws::requests(program, replies) =~= seq![RequestView::Outside(AskView::Policy)]);
    if dialogue::run(program, replies) == Outcome::Finished(display_uuid, replies.skip(1)) {
        let at = choose|at: int| is_in_force(policy, displays, at);
        let profile = policy.profiles@[at];
        let reference = policy::display_reference(profile, workspace_name)->0;
        assert(refers_to(profile, workspace_name, reference));
        lemma_resolved(policy, displays, profile, workspace_name, reference, display_uuid);
        assert(gives_by(policy, displays, workspace_name, display_uuid, at, reference));
    }
    if gives(policy, displays, workspace_name, display_uuid) {
        let (at, reference) = choose|at: int, reference: Seq<char>|
            gives_by(policy, displays, workspace_name, display_uuid, at, reference);
        lemma_resolved(
            policy,
            displays,
            policy.profiles@[at],
            workspace_name,
            reference,
            display_uuid,
        );
    }
}

/// A display that was found for a workspace is one that the policy, which was asked for, gives it.
pub proof fn a_display_that_was_found_is_given_by_the_policy(
    workspace_name: Seq<char>,
    displays: Seq<DisplayData>,
    replies: Seq<Reply>,
)
    requires
        dialogue::run(policy::display_for(workspace_name, displays), replies) is Finished,
    ensures
        replies.len() > 0,
        replies[0] is Policy,
        gives(
            replies[0]->Policy_0,
            displays,
            workspace_name,
            dialogue::run(policy::display_for(workspace_name, displays), replies)->Finished_0,
        ),
        laws::requests(policy::display_for(workspace_name, displays), replies) == seq![
            RequestView::Outside(AskView::Policy),
        ],
        laws::left_over(dialogue::run(policy::display_for(workspace_name, displays), replies))
            == replies.skip(1),
{
    assert(replies.len() > 0);
    a_workspace_has_the_display_that_the_policy_gives_it(
        workspace_name,
        displays,
        replies,
        dialogue::run(policy::display_for(workspace_name, displays), replies)->Finished_0,
    );
}

/// What is wrong with an assignment is named: that there is none, that `only` does not fit, or that
/// the alias means no connected display.
pub proof fn what_is_wrong_with_an_assignment_is_named(
    policy: Policy,
    displays: Seq<DisplayData>,
    profile: Profile,
    workspace_name: Seq<char>,
    reference: Seq<char>,
)
    ensures
        ({
            let outcome = policy::assigned_display(
                profile,
                workspace_name,
                policy::connected(policy.display_aliases@, displays),
                displays,
            );
            &&& !profile.workspace_displays@.contains_key(workspace_name)
                && profile.fallback_display is None ==> outcome == Err::<Seq<char>, ErrorView>(
                ErrorView {
                    kind: ErrorKind::Other,
                    message: "profile "@ + profile.name@ + " has no display for workspace "@
                        + workspace_name,
                },
            )
            &&& refers_to(profile, workspace_name, "only"@) && displays.len() != 1 ==> outcome
                == Err::<Seq<char>, ErrorView>(
                ErrorView {
                    kind: ErrorKind::Other,
                    message: "profile requires exactly one display, but multiple are connected"@,
                },
            )
            &&& refers_to(profile, workspace_name, reference) && reference != "only"@
                && !is_connected(policy, displays, reference) ==> outcome == Err::<
                Seq<char>,
                ErrorView,
            >(
                ErrorView {
                    kind: ErrorKind::Other,
                    message: "profile "@ + profile.name@
                        + " refers to unavailable display alias "@ + reference,
                },
            )
        }),
{
    an_alias_resolves_to_the_display_it_means(policy, displays, reference);
}

/// The windows to be sent home are those that the reply to their being asked about names.
pub proof fn homes_are_as_they_are_replied(
    windows: Seq<crate::model::WindowData>,
    replies: Seq<Reply>,
)
    requires
        replies.len() > 0,
        replies[0] is Routed,
    ensures
        laws::requests(policy::route(windows), replies) == seq![
            RequestView::Outside(AskView::Route { windows }),
        ],
        dialogue::run(policy::route(windows), replies) == Outcome::Finished(
            replies[0]->Routed_0@,
            replies.skip(1),
        ),
{
    assert(laws::requests(policy::route(windows), replies) =~= seq![
        RequestView::Outside(AskView::Route { windows }),
    ]);
}

} // verus!
