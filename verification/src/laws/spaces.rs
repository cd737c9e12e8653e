//! What holds of leaving macOS spaces that Rift does not manage, and of showing workspaces.
use crate::dialogue;
use crate::dialogue::{AskView, Outcome, Program, Reply, RequestView};
use crate::laws;
use crate::laws::placing;
use crate::model;
use crate::model::DisplayData;
use crate::rift;
use crate::rift::TargetView;
use crate::space_escape;
use crate::workflow::{switch_workspace, switch_workspace_both};
use vstd::prelude::*;

verus! {

broadcast use {dialogue::group_run, laws::group_commands, laws::group_requests, dialogue::group_asks_only};

/// A display that shows a space that Rift manages is left alone: nothing is asked for, and the
/// displays are the same.
pub proof fn a_managed_display_is_left_alone(display_uuid: Seq<char>, displays: Seq<DisplayData>)
    requires
        space_escape::is_managed(displays, display_uuid),
    ensures
        space_escape::managed_space(display_uuid, displays) == Program::Return(displays),
{
}

/// The displays that are returned are those that were handed in, or some that were reported on
/// the way.
pub proof fn the_displays_are_the_same_or_were_reported(
    display_uuid: Seq<char>,
    displays: Seq<DisplayData>,
    replies: Seq<Reply>,
)
    requires
        dialogue::run(space_escape::managed_space(display_uuid, displays), replies) is Finished,
    ensures
        ({
            let managing = space_escape::managed_space(display_uuid, displays);
            let found = dialogue::run(managing, replies)->Finished_0;
            found == displays || laws::were_reported(
                laws::requests(managing, replies),
                replies,
                found,
            )
        }),
{
    match model::first(displays, model::has_uuid(display_uuid)) {
        Some(display) if model::space_of(display) is None => {
            lemma_escape(display_uuid, displays, display.inactive_space_ids@, 0, replies);
        },
        _ => {},
    }
}

proof fn lemma_escape(
    display_uuid: Seq<char>,
    displays: Seq<DisplayData>,
    spaces: Seq<u64>,
    at: int,
    replies: Seq<Reply>,
)
    requires
        0 <= at <= spaces.len(),
        dialogue::run(
            space_escape::escape_from(display_uuid, displays, spaces, at),
            replies,
        ) is Finished,
    ensures
        ({
            let escaping = space_escape::escape_from(display_uuid, displays, spaces, at);
            let found = dialogue::run(escaping, replies)->Finished_0;
            found == displays || laws::were_reported(
                laws::requests(escaping, replies),
                replies,
                found,
            )
        }),
    decreases spaces.len() - at,
{
    if at < spaces.len() {
        let escaping = space_escape::escape_from(display_uuid, displays, spaces, at);
        let asked = laws::requests(escaping, replies);
        let found = dialogue::run(escaping, replies)->Finished_0;
        let looking = space_escape::anchor_bundle_id(spaces[at]);
        let looked = laws::requests(looking, replies);
        let one = laws::left_over(dialogue::run(looking, replies));
        laws::each_request_has_its_reply(looking, replies);
        let next = space_escape::escape_from(display_uuid, displays, spaces, at + 1);
        match dialogue::run(looking, replies)->Finished_0 {
            None => {
                lemma_escape(display_uuid, displays, spaces, at + 1, one);
                assert(asked == looked + laws::requests(next, one));
                if found != displays {
                    laws::lemma_were_reported_later(
                        looked,
                        laws::requests(next, one),
                        replies,
                        found,
                    );
                }
            },
            Some(bundle_id) => {
                let activating = space_escape::activate_application(bundle_id);
                let activated = laws::requests(activating, one);
                let two = laws::left_over(dialogue::run(activating, one));
                laws::each_request_has_its_reply(activating, one);
                let watching = space_escape::await_managed_space(display_uuid);
                let watched = laws::requests(watching, two);
                let three = laws::left_over(dialogue::run(watching, two));
                laws::each_request_has_its_reply(watching, two);
                match dialogue::run(watching, two)->Finished_0 {
                    Some(refreshed) => {
                        laws::lemma_did_itself(watching, two);
                        assert(watched + Seq::<RequestView>::empty() =~= watched);
                        assert(asked =~= looked + (activated + watched));
                        laws::lemma_were_reported_later(activated, watched, one, found);
                        laws::lemma_were_reported_later(
                            looked,
                            activated + watched,
                            replies,
                            found,
                        );
                    },
                    None => {
                        lemma_escape(display_uuid, displays, spaces, at + 1, three);
                        let later = laws::requests(next, three);
                        assert(asked == looked + (activated + (watched + later)));
                        if found != displays {
                            laws::lemma_were_reported_later(watched, later, two, found);
                            laws::lemma_were_reported_later(
                                activated,
                                watched + later,
                                one,
                                found,
                            );
                            laws::lemma_were_reported_later(
                                looked,
                                activated + (watched + later),
                                replies,
                                found,
                            );
                        }
                    },
                }
            },
        }
    }
}

/// How many scripts requests run.
pub open spec fn script_count(asked: Seq<RequestView>) -> nat
    decreases asked.len(),
{
    if asked.len() == 0 {
        0
    } else {
        script_count(asked.drop_last()) + (match asked.last() {
            RequestView::Outside(AskView::RunScript { .. }) => 1nat,
            _ => 0nat,
        })
    }
}

proof fn lemma_script_count_append(first: Seq<RequestView>, second: Seq<RequestView>)
    ensures
        script_count(first + second) == script_count(first) + script_count(second),
    decreases second.len(),
{
    if second.len() == 0 {
        assert(first + second =~= first);
    } else {
        assert((first + second).drop_last() =~= first + second.drop_last());
        lemma_script_count_append(first, second.drop_last());
    }
}

/// No more applications are activated than the display has other spaces.
pub proof fn an_escape_tries_each_space_once(
    display_uuid: Seq<char>,
    displays: Seq<DisplayData>,
    spaces: Seq<u64>,
    at: int,
    replies: Seq<Reply>,
)
    requires
        0 <= at <= spaces.len(),
    ensures
        script_count(
            laws::requests(
                space_escape::escape_from(display_uuid, displays, spaces, at),
                replies,
            ),
        ) <= spaces.len() - at,
    decreases spaces.len() - at,
{
    if at < spaces.len() {
        let looked = space_escape::anchor_bundle_id(spaces[at]);
        let asked = laws::requests(
            space_escape::escape_from(display_uuid, displays, spaces, at),
            replies,
        );
        reveal_with_fuel(script_count, 2);
        let first = RequestView::Outside(AskView::Workspaces { space: spaces[at] });
        assert(seq![first].drop_last() =~= Seq::<RequestView>::empty());
        assert(laws::requests(looked, replies) =~= seq![first]);
        match dialogue::run(looked, replies) {
            Outcome::Finished(anchor, one) => {
                match anchor {
                    None => {
                        an_escape_tries_each_space_once(
                            display_uuid,
                            displays,
                            spaces,
                            at + 1,
                            one,
                        );
                        let later = laws::requests(
                            space_escape::escape_from(display_uuid, displays, spaces, at + 1),
                            one,
                        );
                        assert(asked =~= seq![first] + later);
                        lemma_script_count_append(seq![first], later);
                    },
                    Some(bundle_id) => {
                        let activated = space_escape::activate_application(bundle_id);
                        let script = RequestView::Outside(
                            AskView::RunScript {
                                script: space_escape::activation_script(bundle_id),
                            },
                        );
                        assert(seq![script].drop_last() =~= Seq::<RequestView>::empty());
                        assert(laws::requests(activated, one) =~= seq![script]);
                        lemma_script_count_append(seq![first], seq![script]);
                        match dialogue::run(activated, one) {
                            Outcome::Finished(_, two) => {
                                let watched = space_escape::await_managed_space(display_uuid);
                                let watch = RequestView::Watch { display_uuid };
                                assert(seq![watch].drop_last() =~= Seq::<RequestView>::empty());
                                assert(laws::requests(watched, two) =~= seq![watch]);
                                let three = laws::left_over(dialogue::run(watched, two));
                                an_escape_tries_each_space_once(
                                    display_uuid,
                                    displays,
                                    spaces,
                                    at + 1,
                                    three,
                                );
                                let later = laws::requests(
                                    space_escape::escape_from(
                                        display_uuid,
                                        displays,
                                        spaces,
                                        at + 1,
                                    ),
                                    three,
                                );
                                lemma_script_count_append(seq![watch], later);
                                lemma_script_count_append(seq![script], seq![watch] + later);
                                lemma_script_count_append(
                                    seq![first],
                                    seq![script] + (seq![watch] + later),
                                );
                                lemma_script_count_append(seq![script], seq![watch]);
                                lemma_script_count_append(
                                    seq![first],
                                    seq![script] + seq![watch],
                                );
                                assert(asked =~= seq![first] + (seq![script] + seq![watch])
                                    || asked =~= seq![first] + (seq![script] + (seq![watch]
                                    + later)));
                            },
                            _ => {
                                assert(asked =~= seq![first] + seq![script]);
                            },
                        }
                    },
                }
            },
            _ => {
                assert(asked =~= seq![first]);
            },
        }
    }
}

/// A display that has the keyboard is not focused anew.
pub proof fn a_focused_display_is_left_alone(
    display_uuid: Seq<char>,
    space: u64,
    replies: Seq<Reply>,
)
    requires
        dialogue::run(rift::display_is_active(display_uuid), replies) matches Outcome::Finished(
            active,
            _,
        ) && active,
    ensures
        laws::requests(space_escape::display_focus(display_uuid, space), replies) == seq![
            RequestView::Outside(AskView::Displays),
        ],
        dialogue::run(space_escape::display_focus(display_uuid, space), replies) is Finished,
{
    assert(laws::requests(space_escape::display_focus(display_uuid, space), replies) =~= seq![
        RequestView::Outside(AskView::Displays),
    ]);
}

/// A workspace that is active on a display with the keyboard is not switched to anew: the
/// workspaces are looked at, and nothing else is done.
pub proof fn a_shown_workspace_is_left_alone(
    workspace_name: Seq<char>,
    display_uuid: Seq<char>,
    displays: Seq<DisplayData>,
    replies: Seq<Reply>,
)
    requires
        space_escape::is_managed(displays, display_uuid),
        dialogue::run(rift::target_context(workspace_name, display_uuid, displays), replies)
            matches Outcome::Finished(target, _) && target.display_is_active
            && target.workspace_is_active,
    ensures
        dialogue::run(
            switch_workspace::activation(workspace_name, display_uuid, displays),
            replies,
        ) matches Outcome::Finished(same, _) && same == displays,
        laws::requests(
            switch_workspace::activation(workspace_name, display_uuid, displays),
            replies,
        ) == laws::requests(
            rift::target_context(workspace_name, display_uuid, displays),
            replies,
        ),
{
    reveal(switch_workspace::activation);
    a_managed_display_is_left_alone(display_uuid, displays);
    let aimed = laws::requests(
        rift::target_context(workspace_name, display_uuid, displays),
        replies,
    );
    assert(aimed + Seq::<RequestView>::empty() =~= aimed);
    assert(Seq::<RequestView>::empty() + aimed =~= aimed);
}

/// Showing a workspace focuses the display and activates the workspace, as far as that is not
/// so, and submits nothing else.
pub proof fn showing_a_workspace_prepares_it(
    workspace_name: Seq<char>,
    target: TargetView,
    replies: Seq<Reply>,
)
    requires
        dialogue::run(
            switch_workspace::activation_of_target(workspace_name, target),
            replies,
        ) is Finished,
    ensures
        laws::commands(
            switch_workspace::activation_of_target(workspace_name, target),
            replies,
        ) == placing::preparing(target),
{
    let focused = space_escape::display_focus(target.display_uuid, target.space);
    let first = laws::left_over(dialogue::run(focused, replies));
    let begun = crate::transaction::begin_single();
    let second = laws::left_over(dialogue::run(begun, first));
    let transaction = dialogue::run(begun, first)->Finished_0;
    placing::a_destination_is_focused_then_activated(
        transaction,
        target,
        workspace_name,
        second,
    );
    laws::lemma_effects_submit_nothing(focused, replies);
    laws::lemma_effects_submit_nothing(begun, first);
    let prepared = placing::preparing(target);
    assert(Seq::empty() + (Seq::empty() + (prepared + Seq::empty())) =~= prepared);
}

/// Where showing a workspace everywhere has succeeded and the display that had the keyboard is
/// still there, that display was found to have the keyboard, or was given it.
pub proof fn the_keyboard_returns_to_its_display(
    origin: DisplayData,
    displays: Seq<DisplayData>,
    replies: Seq<Reply>,
)
    requires
        switch_workspace_both::space_now(displays, origin.uuid@) is Some,
        dialogue::run(
            switch_workspace_both::return_of_keyboard(Some(origin), displays),
            replies,
        ) is Finished,
    ensures
        replies.len() > 0 && replies[0] is Displays,
        !rift::some_context(replies[0]->Displays_0@, origin.uuid@) ==> replies.len() > 1
            && replies[1] is Done && laws::requests(
            switch_workspace_both::return_of_keyboard(Some(origin), displays),
            replies,
        ) == seq![
            RequestView::Outside(AskView::Displays),
            RequestView::Outside(
                AskView::AcquireDisplay {
                    display_uuid: origin.uuid@,
                    space: switch_workspace_both::space_now(displays, origin.uuid@)->0,
                },
            ),
        ],
{
    assert(replies.len() > 0 && replies[0] is Displays);
    if !rift::some_context(replies[0]->Displays_0@, origin.uuid@) {
        assert(replies.skip(1).len() > 0);
        assert(replies.skip(1)[0] == replies[1]);
        let space = switch_workspace_both::space_now(displays, origin.uuid@)->0;
        assert(laws::requests(
            switch_workspace_both::return_of_keyboard(Some(origin), displays),
            replies,
        ) =~= seq![
            RequestView::Outside(AskView::Displays),
            RequestView::Outside(AskView::AcquireDisplay { display_uuid: origin.uuid@, space }),
        ]);
    }
}

} // verus!
