//! What showing a workspace brings about, in terms of what was asked and replied.
use crate::dialogue;
use crate::dialogue::{AskView, Outcome, Reply, RequestView};
use crate::laws;
use crate::laws::{following, outcomes, policies, queries, spaces, steps};
use crate::model;
use crate::model::{DisplayData, WorkspaceData};
use crate::policy;
use crate::rift;
use crate::rift::TargetView;
use crate::space_escape;
use crate::space_escape::{WatchStage, WatchTurn};
use crate::transaction;
use crate::transaction::OperationView;
use crate::workflow::{placement, switch_workspace, switch_workspace_both};
use vstd::prelude::*;

verus! {

// ---------------------------------------------------------------------------
// Spaces.
// ---------------------------------------------------------------------------

/// A display that shows a space, or is not there, is left as it is, and nothing is asked.
pub proof fn a_display_with_a_space_is_left_as_it_is(
    display_uuid: Seq<char>,
    displays: Seq<DisplayData>,
    replies: Seq<Reply>,
)
    requires
        forall|d: int| #[trigger]
            queries::is_display(displays, display_uuid, d) ==> !queries::shows_no_space(
                displays[d],
            ),
    ensures
        laws::requests(space_escape::managed_space(display_uuid, displays), replies) == Seq::<
            RequestView,
        >::empty(),
        dialogue::run(space_escape::managed_space(display_uuid, displays), replies)
            == Outcome::Finished(displays, replies),
{
    if model::first(displays, model::has_uuid(display_uuid)) is Some {
        let d = queries::lemma_found_display(displays, display_uuid);
        assert(queries::is_display(displays, display_uuid, d));
    }
}

/// A display without a space is brought to one of its inactive spaces, tried from the first on.
pub proof fn a_display_without_a_space_tries_its_inactive_spaces(
    display_uuid: Seq<char>,
    displays: Seq<DisplayData>,
    display: int,
)
    requires
        queries::is_display(displays, display_uuid, display),
        queries::shows_no_space(displays[display]),
    ensures
        space_escape::managed_space(display_uuid, displays) == space_escape::escape_from(
            display_uuid,
            displays,
            displays[display].inactive_space_ids@,
            0,
        ),
{
    queries::lemma_display_found(displays, display_uuid, display);
}

/// Whether the first workspace with a window stands here.
pub open spec fn is_occupied_workspace(workspaces: Seq<WorkspaceData>, at: int) -> bool {
    &&& 0 <= at < workspaces.len()
    &&& workspaces[at].windows@.len() > 0
    &&& forall|i: int| 0 <= i < at ==> (#[trigger] workspaces[i]).windows@.len() == 0
}

/// Where no space is left to try, the displays are as they were.
pub proof fn without_a_space_to_try_the_displays_are_as_they_were(
    display_uuid: Seq<char>,
    displays: Seq<DisplayData>,
    spaces: Seq<u64>,
    replies: Seq<Reply>,
)
    ensures
        dialogue::run(
            space_escape::escape_from(display_uuid, displays, spaces, spaces.len() as int),
            replies,
        ) == Outcome::Finished(displays, replies),
{
    broadcast use dialogue::group_run;

}

/// A space is tried by the application of the first window of its first workspace with one: that is
/// activated by its identifier, and the display waited for. Where it shows a space then, the
/// displays are as they were reported; else the next space is tried.
pub proof fn a_space_is_tried_by_the_application_of_its_first_window(
    display_uuid: Seq<char>,
    displays: Seq<DisplayData>,
    spaces: Seq<u64>,
    at: int,
    replies: Seq<Reply>,
    occupied: int,
)
    requires
        0 <= at < spaces.len(),
        replies.len() > 2,
        replies[0] matches Reply::Workspaces(workspaces) && is_occupied_workspace(
            workspaces@,
            occupied,
        ) && workspaces@[occupied].windows@[0].bundle_id is Some,
        replies[1] is Done,
        replies[2] is Displays || replies[2] is Nothing,
    ensures
        ({
            let program = space_escape::escape_from(display_uuid, displays, spaces, at);
            let next = space_escape::escape_from(display_uuid, displays, spaces, at + 1);
            let bundle_id = replies[0]->Workspaces_0@[occupied].windows@[0].bundle_id->0@;
            let tried = seq![
                queries::asks_workspaces(spaces[at]),
                RequestView::Outside(
                    AskView::RunScript {
                        script: "tell application id \""@ + bundle_id + "\" to activate"@,
                    },
                ),
                RequestView::Watch { display_uuid },
            ];
            if replies[2] is Displays {
                laws::requests(program, replies) == tried && dialogue::run(program, replies)
                    == Outcome::Finished(replies[2]->Displays_0@, replies.skip(3))
            } else {
                laws::requests(program, replies) == tried + laws::requests(next, replies.skip(3))
                    && dialogue::run(program, replies) == dialogue::run(next, replies.skip(3))
            }
        }),
{
    broadcast use {dialogue::group_run, laws::group_requests};

    let program = space_escape::escape_from(display_uuid, displays, spaces, at);
    let next = space_escape::escape_from(display_uuid, displays, spaces, at + 1);
    let workspaces = replies[0]->Workspaces_0@;
    model::lemma_first_found(workspaces, model::is_occupied(), occupied);
    let bundle_id = workspaces[occupied].windows@[0].bundle_id->0@;
    assert(space_escape::anchor_among(workspaces) == Some(bundle_id));
    assert(replies.skip(1)[0] == replies[1]);
    assert(replies.skip(1).skip(1) =~= replies.skip(2));
    assert(replies.skip(2)[0] == replies[2]);
    assert(replies.skip(2).skip(1) =~= replies.skip(3));
    let tried = seq![
        queries::asks_workspaces(spaces[at]),
        RequestView::Outside(
            AskView::RunScript {
                script: "tell application id \""@ + bundle_id + "\" to activate"@,
            },
        ),
        RequestView::Watch { display_uuid },
    ];
    if replies[2] is Displays {
        assert(laws::requests(program, replies) =~= tried);
    } else {
        assert(laws::requests(program, replies) =~= tried + laws::requests(
            next,
            replies.skip(3),
        ));
    }
}

/// A space without a window, or whose first window has no application, is passed over.
pub proof fn a_space_without_an_application_is_passed_over(
    display_uuid: Seq<char>,
    displays: Seq<DisplayData>,
    spaces: Seq<u64>,
    at: int,
    replies: Seq<Reply>,
)
    requires
        0 <= at < spaces.len(),
        replies.len() > 0,
        replies[0] is Workspaces,
        forall|occupied: int| #[trigger]
            is_occupied_workspace(replies[0]->Workspaces_0@, occupied)
                ==> replies[0]->Workspaces_0@[occupied].windows@[0].bundle_id is None,
    ensures
        ({
            let program = space_escape::escape_from(display_uuid, displays, spaces, at);
            let next = space_escape::escape_from(display_uuid, displays, spaces, at + 1);
            &&& laws::requests(program, replies) == seq![
                queries::asks_workspaces(spaces[at]),
            ] + laws::requests(next, replies.skip(1))
            &&& dialogue::run(program, replies) == dialogue::run(next, replies.skip(1))
        }),
{
    broadcast use {dialogue::group_run, laws::group_requests};

    let workspaces = replies[0]->Workspaces_0@;
    if model::first(workspaces, model::is_occupied()) is Some {
        let occupied = queries::lemma_first_at(workspaces, model::is_occupied());
        assert forall|i: int| 0 <= i < occupied implies (#[trigger] workspaces[i]).windows@.len()
            == 0 by {
            assert(!(model::is_occupied())(workspaces[i]));
        }
        assert(is_occupied_workspace(workspaces, occupied));
    }
    let program = space_escape::escape_from(display_uuid, displays, spaces, at);
    let next = space_escape::escape_from(display_uuid, displays, spaces, at + 1);
    assert(laws::requests(program, replies) =~= seq![
        queries::asks_workspaces(spaces[at]),
    ] + laws::requests(next, replies.skip(1)));
}

/// A display is watched for a second and a half, with a look every fifty milliseconds: the wait is
/// over as soon as the first display with the identifier shows a space, and given up at the end of
/// its time.
pub proof fn a_display_is_watched_for_a_second_and_a_half(
    display_uuid: Seq<char>,
    deadline: u128,
    replies: Seq<Reply>,
)
    requires
        replies.len() > 0,
        replies[0] is Now,
    ensures
        dialogue::run(space_escape::watch_turn(display_uuid, WatchStage::Opening), replies)
            == Outcome::Finished(
            WatchTurn::Again(
                WatchStage::Watching { deadline: (replies[0]->Now_0 + 1_500_000_000) as u128 },
            ),
            replies.skip(1),
        ),
        replies[0]->Now_0 >= deadline ==> dialogue::run(
            space_escape::watch_turn(display_uuid, WatchStage::Watching { deadline }),
            replies,
        ) == Outcome::Finished(WatchTurn::GaveUp, replies.skip(1)),
        replies[0]->Now_0 < deadline && replies.len() > 2 && replies[1] is Done
            && replies[2] is Displays ==> {
            let turn = space_escape::watch_turn(display_uuid, WatchStage::Watching { deadline });
            let displays = replies[2]->Displays_0@;
            &&& laws::requests(turn, replies) == seq![
                RequestView::Outside(AskView::Now),
                RequestView::Outside(AskView::Sleep { millis: 50 }),
                RequestView::Outside(AskView::Displays),
            ]
            &&& dialogue::run(turn, replies) == Outcome::Finished(
                if exists|d: int| #[trigger]
                    queries::is_display(displays, display_uuid, d) && !queries::shows_no_space(
                        displays[d],
                    ) {
                    WatchTurn::Escaped
                } else {
                    WatchTurn::Again(WatchStage::Watching { deadline })
                },
                replies.skip(3),
            )
        },
{
    broadcast use {dialogue::group_run, laws::group_requests};

    if replies.len() > 2 && replies[1] is Done && replies[2] is Displays {
        assert(replies.skip(1)[0] == replies[1]);
        assert(replies.skip(1).skip(1) =~= replies.skip(2));
        assert(replies.skip(2)[0] == replies[2]);
        assert(replies.skip(2).skip(1) =~= replies.skip(3));
        let turn = space_escape::watch_turn(display_uuid, WatchStage::Watching { deadline });
        if replies[0]->Now_0 < deadline {
            assert(laws::requests(turn, replies) =~= seq![
                RequestView::Outside(AskView::Now),
                RequestView::Outside(AskView::Sleep { millis: 50 }),
                RequestView::Outside(AskView::Displays),
            ]);
        }
        let displays = replies[2]->Displays_0@;
        if exists|d: int| queries::is_display(displays, display_uuid, d) {
            let d = choose|d: int| queries::is_display(displays, display_uuid, d);
            queries::lemma_display_found(displays, display_uuid, d);
            assert forall|other: int| queries::is_display(displays, display_uuid, other) implies other
                == d by {}
        } else if model::first(displays, model::has_uuid(display_uuid)) is Some {
            let d = queries::lemma_found_display(displays, display_uuid);
            assert(queries::is_display(displays, display_uuid, d));
        }
    }
}

/// Whether a display with this identifier has the keyboard.
pub open spec fn has_keyboard(displays: Seq<DisplayData>, display_uuid: Seq<char>) -> bool {
    exists|i: int|
        0 <= i < displays.len() && (#[trigger] displays[i]).uuid@ == display_uuid
            && displays[i].is_active_context
}

/// The keyboard is moved to a display, by way of its space, unless the displays, asked for now, say
/// that it is there.
pub proof fn the_keyboard_is_moved_unless_it_is_there(
    display_uuid: Seq<char>,
    space: u64,
    replies: Seq<Reply>,
)
    requires
        dialogue::run(space_escape::display_focus(display_uuid, space), replies) is Finished,
    ensures
        replies.len() > 0,
        replies[0] is Displays,
        laws::requests(space_escape::display_focus(display_uuid, space), replies) == (
        if has_keyboard(replies[0]->Displays_0@, display_uuid) {
            seq![RequestView::Outside(AskView::Displays)]
        } else {
            seq![
                RequestView::Outside(AskView::Displays),
                RequestView::Outside(AskView::AcquireDisplay { display_uuid, space }),
            ]
        }),
{
    broadcast use {dialogue::group_run, laws::group_requests};

    assert(replies.len() > 0 && replies[0] is Displays);
    let program = space_escape::display_focus(display_uuid, space);
    if has_keyboard(replies[0]->Displays_0@, display_uuid) {
        assert(laws::requests(program, replies) =~= seq![RequestView::Outside(AskView::Displays)]);
    } else {
        assert(replies.skip(1).len() > 0);
        assert(laws::requests(program, replies) =~= seq![
            RequestView::Outside(AskView::Displays),
            RequestView::Outside(AskView::AcquireDisplay { display_uuid, space }),
        ]);
    }
}

// ---------------------------------------------------------------------------
// Showing a workspace on one display.
// ---------------------------------------------------------------------------

/// Whether a workspace was shown on a display: it was read as a destination, out of the displays as
/// they were or were reported; where it was active and its display had the keyboard, nothing was
/// submitted; else it was prepared, and nothing else was submitted.
pub open spec fn shown_as(
    asked: Seq<RequestView>,
    replies: Seq<Reply>,
    displays: Seq<DisplayData>,
    workspace_name: Seq<char>,
    display_uuid: Seq<char>,
    latest: Seq<DisplayData>,
    target: TargetView,
) -> bool {
    &&& latest == displays || outcomes::reported(asked, replies, latest)
    &&& outcomes::read_from(asked, replies, latest, target, workspace_name, display_uuid)
    &&& laws::operations_of(asked) == (if target.display_is_active && target.workspace_is_active {
        Seq::empty()
    } else {
        steps::preparations(following::single(), target, workspace_name)
    })
}

/// Whether a workspace was shown on a display.
pub open spec fn was_shown(
    asked: Seq<RequestView>,
    replies: Seq<Reply>,
    displays: Seq<DisplayData>,
    workspace_name: Seq<char>,
    display_uuid: Seq<char>,
) -> bool {
    exists|latest: Seq<DisplayData>, target: TargetView|
        shown_as(
            asked,
            replies,
            displays,
            workspace_name,
            display_uuid,
            latest,
            target,
        )
}

proof fn lemma_prepared_parts(workspace_name: Seq<char>, target: TargetView, replies: Seq<Reply>)
    requires
        dialogue::run(
            switch_workspace::activation_of_target(workspace_name, target),
            replies,
        ) is Finished,
    ensures
        laws::operations(
            switch_workspace::activation_of_target(workspace_name, target),
            replies,
        ) == steps::preparations(following::single(), target, workspace_name),
        ({
            let asked = laws::requests(
                switch_workspace::activation_of_target(workspace_name, target),
                replies,
            );
            let outcome = dialogue::run(
                switch_workspace::activation_of_target(workspace_name, target),
                replies,
            );
            &&& 0 < asked.len() <= replies.len()
            &&& asked.last() == RequestView::Outside(AskView::Displays)
            &&& replies[asked.len() - 1] matches Reply::Displays(found) && found@
                == outcome->Finished_0
        }),
{
    broadcast use {dialogue::group_run, laws::group_requests, laws::group_operations};

    let whole = switch_workspace::activation_of_target(workspace_name, target);
    let focusing = space_escape::display_focus(target.display_uuid, target.space);
    let one = laws::left_over(dialogue::run(focusing, replies));
    let beginning = transaction::begin_single();
    assert(one.len() > 0 && one[0] is Done);
    steps::a_single_command_has_two_and_a_half_seconds(one);
    let two = laws::left_over(dialogue::run(beginning, one));
    let preparing = placement::target_preparation(following::single(), target, workspace_name);
    let three = laws::left_over(dialogue::run(preparing, two));
    steps::a_destination_is_prepared_as_far_as_needed(
        following::single(),
        target,
        workspace_name,
        two,
    );
    lemma_focusing_submits_nothing(target, replies, one, three);
    laws::each_request_has_its_reply(whole, replies);
    laws::each_request_has_its_reply(focusing, replies);
    laws::each_request_has_its_reply(beginning, one);
    laws::each_request_has_its_reply(preparing, two);
    let none = Seq::<OperationView>::empty();
    let prepared = steps::preparations(following::single(), target, workspace_name);
    assert(none + (none + (prepared + none)) =~= prepared);
    let first = laws::requests(focusing, replies);
    let second = laws::requests(beginning, one);
    let third = laws::requests(preparing, two);
    let last = seq![RequestView::Outside(AskView::Displays)];
    assert(laws::requests(rift::displays(), three) =~= last);
    assert(laws::requests(whole, replies) == first + (second + (third + last)));
    let before = first + (second + third);
    assert(first + (second + (third + last)) =~= before + last);
    assert(replies.skip(before.len() as int) =~= three);
    assert(three[0] == replies[before.len() as int]);
}

proof fn lemma_focusing_submits_nothing(
    target: TargetView,
    replies: Seq<Reply>,
    one: Seq<Reply>,
    three: Seq<Reply>,
)
    ensures
        laws::operations(
            space_escape::display_focus(target.display_uuid, target.space),
            replies,
        ) == Seq::<OperationView>::empty(),
        laws::operations(transaction::begin_single(), one) == Seq::<OperationView>::empty(),
        laws::operations(rift::displays(), three) == Seq::<OperationView>::empty(),
{
    broadcast use dialogue::group_asks_only;

    laws::lemma_no_operations(
        space_escape::display_focus(target.display_uuid, target.space),
        replies,
    );
    laws::lemma_no_operations(transaction::begin_single(), one);
    laws::lemma_no_operations(rift::displays(), three);
}

proof fn lemma_activation_parts(
    workspace_name: Seq<char>,
    display_uuid: Seq<char>,
    displays: Seq<DisplayData>,
    replies: Seq<Reply>,
)
    requires
        dialogue::run(
            switch_workspace::activation(workspace_name, display_uuid, displays),
            replies,
        ) is Finished,
    ensures
        ({
            let whole = switch_workspace::activation(workspace_name, display_uuid, displays);
            let escaping = space_escape::managed_space(display_uuid, displays);
            let escaped = laws::requests(escaping, replies);
            let latest = dialogue::run(escaping, replies)->Finished_0;
            let one = laws::left_over(dialogue::run(escaping, replies));
            let context = rift::target_context(workspace_name, display_uuid, latest);
            let aimed = laws::requests(context, one);
            let target = dialogue::run(context, one)->Finished_0;
            let two = laws::left_over(dialogue::run(context, one));
            let activating = switch_workspace::activation_of_target(workspace_name, target);
            &&& dialogue::run(escaping, replies) is Finished
            &&& dialogue::run(context, one) is Finished
            &&& if target.display_is_active && target.workspace_is_active {
                laws::requests(whole, replies) == escaped + aimed && dialogue::run(whole, replies)
                    == Outcome::Finished(latest, two)
            } else {
                dialogue::run(activating, two) is Finished && laws::requests(whole, replies)
                    == escaped + (aimed + laws::requests(activating, two)) && dialogue::run(
                    whole,
                    replies,
                ) == dialogue::run(activating, two)
            }
        }),
{
    broadcast use {dialogue::group_run, laws::group_requests};

    reveal(switch_workspace::activation);
    let whole = switch_workspace::activation(workspace_name, display_uuid, displays);
    let escaping = space_escape::managed_space(display_uuid, displays);
    let latest = dialogue::run(escaping, replies)->Finished_0;
    let one = laws::left_over(dialogue::run(escaping, replies));
    let context = rift::target_context(workspace_name, display_uuid, latest);
    let aimed = laws::requests(context, one);
    assert(aimed + Seq::<RequestView>::empty() =~= aimed);
}

/// Showing a workspace on a display that has succeeded showed it there; and the displays that it
/// came to are as they were or were reported.
pub proof fn showing_a_workspace_shows_it(
    workspace_name: Seq<char>,
    display_uuid: Seq<char>,
    displays: Seq<DisplayData>,
    replies: Seq<Reply>,
)
    requires
        dialogue::run(
            switch_workspace::activation(workspace_name, display_uuid, displays),
            replies,
        ) is Finished,
    ensures
        ({
            let whole = switch_workspace::activation(workspace_name, display_uuid, displays);
            let asked = laws::requests(whole, replies);
            let after = dialogue::run(whole, replies)->Finished_0;
            &&& was_shown(asked, replies, displays, workspace_name, display_uuid)
            &&& after == displays || outcomes::reported(asked, replies, after)
        }),
{
    let whole = switch_workspace::activation(workspace_name, display_uuid, displays);
    let asked = laws::requests(whole, replies);
    lemma_activation_parts(workspace_name, display_uuid, displays, replies);
    let escaping = space_escape::managed_space(display_uuid, displays);
    let escaped = laws::requests(escaping, replies);
    let latest = dialogue::run(escaping, replies)->Finished_0;
    let one = laws::left_over(dialogue::run(escaping, replies));
    laws::each_request_has_its_reply(escaping, replies);
    let context = rift::target_context(workspace_name, display_uuid, latest);
    let aimed = laws::requests(context, one);
    let target = dialogue::run(context, one)->Finished_0;
    let two = laws::left_over(dialogue::run(context, one));
    laws::each_request_has_its_reply(context, one);
    laws::lemma_did_itself(context, one);
    laws::lemma_did_later(escaped, aimed, replies, context, target);
    following::lemma_escaping_takes_no_operation(display_uuid, displays);
    laws::lemma_no_operations(escaping, replies);
    following::lemma_looks(workspace_name, display_uuid, latest);
    laws::lemma_no_operations(context, one);
    laws::lemma_operations_of_append(escaped, aimed);
    let none = Seq::<OperationView>::empty();
    assert(none + none =~= none);
    let rest = asked.skip((escaped + aimed).len() as int);
    assert(asked =~= (escaped + aimed) + rest);
    spaces::the_displays_are_the_same_or_were_reported(display_uuid, displays, replies);
    if latest != displays {
        laws::lemma_were_reported_earlier(escaped, aimed + rest, replies, latest);
        assert(asked =~= escaped + (aimed + rest));
        outcomes::lemma_reported(asked, replies, latest);
    }
    laws::lemma_did_earlier(escaped + aimed, rest, replies, context, target);
    outcomes::lemma_read_from(asked, replies, latest, target, workspace_name, display_uuid);
    laws::lemma_operations_of_append(escaped + aimed, rest);
    if target.display_is_active && target.workspace_is_active {
        assert(rest =~= Seq::empty());
    } else {
        let activating = switch_workspace::activation_of_target(workspace_name, target);
        lemma_prepared_parts(workspace_name, target, two);
        assert(rest =~= laws::requests(activating, two));
        let prepared = steps::preparations(following::single(), target, workspace_name);
        assert(none + prepared =~= prepared);
        let after = dialogue::run(whole, replies)->Finished_0;
        let last = asked.len() - 1;
        assert(asked[last] == rest[rest.len() - 1]);
        assert(replies.skip((escaped + aimed).len() as int) =~= two);
        assert(two[rest.len() - 1] == replies[last]);
        assert(outcomes::reported_at(asked, replies, after, last));
    }
    assert(shown_as(
        asked,
        replies,
        displays,
        workspace_name,
        display_uuid,
        latest,
        target,
    ));
}

proof fn lemma_switch_parts(workspace_name: Seq<char>, replies: Seq<Reply>) -> (uuid: Seq<char>)
    requires
        dialogue::run(
            switch_workspace::switch_workspace_program(workspace_name),
            replies,
        ) is Finished,
    ensures
        replies.len() > 2,
        replies[1] is Displays,
        replies[2] is Policy,
        policies::gives(replies[2]->Policy_0, replies[1]->Displays_0@, workspace_name, uuid),
        ({
            let activating = switch_workspace::activation(
                workspace_name,
                uuid,
                replies[1]->Displays_0@,
            );
            &&& dialogue::run(activating, replies.skip(3)) is Finished
            &&& laws::requests(
                switch_workspace::switch_workspace_program(workspace_name),
                replies,
            ) == seq![
                RequestView::Outside(AskView::Connect),
                RequestView::Outside(AskView::Displays),
                RequestView::Outside(AskView::Policy),
            ] + laws::requests(activating, replies.skip(3))
        }),
{
    broadcast use {dialogue::group_run, laws::group_requests};

    let asked = laws::requests(
        switch_workspace::switch_workspace_program(workspace_name),
        replies,
    );
    assert(replies.len() > 1);
    assert(replies.skip(1)[0] == replies[1]);
    let displays = replies[1]->Displays_0@;
    let two = replies.skip(2);
    assert(replies.skip(1).skip(1) =~= two);
    policies::a_display_that_was_found_is_given_by_the_policy(workspace_name, displays, two);
    assert(two[0] == replies[2]);
    assert(two.skip(1) =~= replies.skip(3));
    let uuid = dialogue::run(policy::display_for(workspace_name, displays), two)->Finished_0;
    let activating = switch_workspace::activation(workspace_name, uuid, displays);
    let rest = laws::requests(activating, replies.skip(3));
    assert(rest + Seq::<RequestView>::empty() =~= rest);
    assert(asked =~= seq![
        RequestView::Outside(AskView::Connect),
        RequestView::Outside(AskView::Displays),
        RequestView::Outside(AskView::Policy),
    ] + rest);
    uuid
}

/// `switch-workspace` that has succeeded read the displays and the policy, and showed the workspace
/// on the display that the policy gives it: there it was read as a destination; and unless its
/// display had the keyboard and it was active, the display was focused and the workspace switched
/// to, each as far as needed and each waited for, and nothing else was submitted.
pub proof fn switch_workspace_shows_the_workspace_on_its_display(
    workspace_name: Seq<char>,
    replies: Seq<Reply>,
)
    requires
        dialogue::run(
            switch_workspace::switch_workspace_program(workspace_name),
            replies,
        ) is Finished,
    ensures
        ({
            let asked = laws::requests(
                switch_workspace::switch_workspace_program(workspace_name),
                replies,
            );
            let displays = replies[1]->Displays_0@;
            &&& outcomes::begins_with_displays(asked, replies, displays)
            &&& asked.len() > 2 && asked[2] == RequestView::Outside(AskView::Policy)
            &&& replies.len() > 2 && replies[2] is Policy
            &&& exists|target: TargetView|
                policies::gives(
                    replies[2]->Policy_0,
                    displays,
                    workspace_name,
                    target.display_uuid,
                ) && #[trigger] outcomes::is_read(
                    asked,
                    replies,
                    target,
                    workspace_name,
                    target.display_uuid,
                ) && laws::operations_of(asked) == (if target.display_is_active
                    && target.workspace_is_active {
                    Seq::empty()
                } else {
                    steps::preparations(following::single(), target, workspace_name)
                })
        }),
{
    let asked = laws::requests(
        switch_workspace::switch_workspace_program(workspace_name),
        replies,
    );
    let uuid = lemma_switch_parts(workspace_name, replies);
    let displays = replies[1]->Displays_0@;
    let activating = switch_workspace::activation(workspace_name, uuid, displays);
    let three = replies.skip(3);
    let later = laws::requests(activating, three);
    let start = seq![
        RequestView::Outside(AskView::Connect),
        RequestView::Outside(AskView::Displays),
        RequestView::Outside(AskView::Policy),
    ];
    showing_a_workspace_shows_it(workspace_name, uuid, displays, three);
    let (latest, target) = choose|latest: Seq<DisplayData>, target: TargetView|
        shown_as(later, three, displays, workspace_name, uuid, latest, target);
    lemma_shown_later(start, later, replies, displays, workspace_name, uuid, latest, target);
    assert(asked[1] == start[1]);
    assert(outcomes::reported_at(asked, replies, displays, 1));
    assert(outcomes::reported(asked, replies, latest));
    assert(outcomes::is_read(asked, replies, target, workspace_name, uuid));
    following::lemma_none_submitted(start);
    laws::lemma_operations_of_append(start, later);
    assert(Seq::<OperationView>::empty() + laws::operations_of(later) =~= laws::operations_of(
        later,
    ));
}

proof fn lemma_shown_later(
    earlier: Seq<RequestView>,
    later: Seq<RequestView>,
    replies: Seq<Reply>,
    displays: Seq<DisplayData>,
    workspace_name: Seq<char>,
    display_uuid: Seq<char>,
    latest: Seq<DisplayData>,
    target: TargetView,
)
    requires
        earlier.len() <= replies.len(),
        shown_as(
            later,
            replies.skip(earlier.len() as int),
            displays,
            workspace_name,
            display_uuid,
            latest,
            target,
        ),
    ensures
        latest == displays || outcomes::reported(earlier + later, replies, latest),
        outcomes::read_from(
            earlier + later,
            replies,
            latest,
            target,
            workspace_name,
            display_uuid,
        ),
        target.display_uuid == display_uuid,
{
    let n = earlier.len() as int;
    let rest = replies.skip(n);
    if latest != displays {
        lemma_reported_later(earlier, later, replies, latest);
    }
    let (d, at, place) = choose|d: int, at: int, place: int|
        outcomes::read_at(
            later,
            rest,
            latest,
            target,
            workspace_name,
            display_uuid,
            d,
            at,
            place,
        );
    assert((earlier + later)[n + at] == later[at]);
    assert(rest[at] == replies[n + at]);
    assert(outcomes::read_at(
        earlier + later,
        replies,
        latest,
        target,
        workspace_name,
        display_uuid,
        d,
        n + at,
        place,
    ));
}

proof fn lemma_reported_later(
    earlier: Seq<RequestView>,
    later: Seq<RequestView>,
    replies: Seq<Reply>,
    displays: Seq<DisplayData>,
)
    requires
        earlier.len() <= replies.len(),
        outcomes::reported(later, replies.skip(earlier.len() as int), displays),
    ensures
        outcomes::reported(earlier + later, replies, displays),
{
    let n = earlier.len() as int;
    let rest = replies.skip(n);
    let at = choose|at: int| outcomes::reported_at(later, rest, displays, at);
    assert((earlier + later)[n + at] == later[at]);
    assert(rest[at] == replies[n + at]);
    assert(outcomes::reported_at(earlier + later, replies, displays, n + at));
}

// ---------------------------------------------------------------------------
// Showing a workspace on every display.
// ---------------------------------------------------------------------------

/// Whether a workspace was shown on a display by the requests from one place to another.
pub open spec fn shown_between(
    asked: Seq<RequestView>,
    replies: Seq<Reply>,
    displays: Seq<DisplayData>,
    workspace_name: Seq<char>,
    display_uuid: Seq<char>,
    from: int,
    until: int,
) -> bool {
    &&& 0 <= from <= until <= asked.len()
    &&& from <= replies.len()
    &&& was_shown(
        asked.subrange(from, until),
        replies.skip(from),
        displays,
        workspace_name,
        display_uuid,
    )
}

/// Whether a workspace was shown on each of these displays in turn: these are the places where the
/// requests for one end and those for the next begin, and these the displays as they were by then,
/// each as they were before or reported since.
pub open spec fn shown_in_turn(
    asked: Seq<RequestView>,
    replies: Seq<Reply>,
    workspace_name: Seq<char>,
    uuids: Seq<Seq<char>>,
    cuts: Seq<int>,
    known: Seq<Seq<DisplayData>>,
) -> bool {
    &&& cuts.len() == uuids.len() + 1
    &&& known.len() == uuids.len() + 1
    &&& forall|i: int|
        0 <= i < uuids.len() ==> shown_between(
            asked,
            replies,
            known[i],
            workspace_name,
            #[trigger] uuids[i],
            cuts[i],
            cuts[i + 1],
        ) && (known[i + 1] == known[i] || outcomes::reported(
            asked.subrange(cuts[i], cuts[i + 1]),
            replies.skip(cuts[i]),
            known[i + 1],
        ))
}

proof fn lemma_shown_from(
    workspace_name: Seq<char>,
    uuids: Seq<Seq<char>>,
    displays: Seq<DisplayData>,
    at: int,
    replies: Seq<Reply>,
) -> (turns: (Seq<int>, Seq<Seq<DisplayData>>))
    requires
        0 <= at <= uuids.len(),
        dialogue::run(
            switch_workspace_both::activation_from(workspace_name, uuids, displays, at),
            replies,
        ) is Finished,
    ensures
        ({
            let whole = switch_workspace_both::activation_from(
                workspace_name,
                uuids,
                displays,
                at,
            );
            let asked = laws::requests(whole, replies);
            &&& shown_in_turn(
                asked,
                replies,
                workspace_name,
                uuids.skip(at),
                turns.0,
                turns.1,
            )
            &&& turns.0[0] == 0
            &&& turns.0.last() == asked.len()
            &&& turns.1[0] == displays
            &&& turns.1.last() == dialogue::run(whole, replies)->Finished_0
        }),
    decreases uuids.len() - at,
{
    let whole = switch_workspace_both::activation_from(workspace_name, uuids, displays, at);
    let asked = laws::requests(whole, replies);
    if at == uuids.len() {
        lemma_nothing_left(workspace_name, uuids, displays, replies);
        assert(uuids.skip(at) =~= Seq::empty());
        (seq![0int], seq![displays])
    } else {
        let first = switch_workspace::activation(workspace_name, uuids[at], displays);
        let own = laws::requests(first, replies);
        lemma_one_then_the_rest(workspace_name, uuids, displays, at, replies);
        let refreshed = dialogue::run(first, replies)->Finished_0;
        let rest = laws::left_over(dialogue::run(first, replies));
        let next = switch_workspace_both::activation_from(
            workspace_name,
            uuids,
            refreshed,
            at + 1,
        );
        let later = laws::requests(next, rest);
        laws::each_request_has_its_reply(first, replies);
        showing_a_workspace_shows_it(workspace_name, uuids[at], displays, replies);
        let (cuts, known) = lemma_shown_from(workspace_name, uuids, refreshed, at + 1, rest);
        let n = own.len() as int;
        let all_cuts = seq![0int] + Seq::new(cuts.len(), |i: int| cuts[i] + n);
        let all_known = seq![displays] + known;
        let left = uuids.skip(at);
        assert forall|i: int| 0 <= i < left.len() implies shown_between(
            asked,
            replies,
            all_known[i],
            workspace_name,
            #[trigger] left[i],
            all_cuts[i],
            all_cuts[i + 1],
        ) && (all_known[i + 1] == all_known[i] || outcomes::reported(
            asked.subrange(all_cuts[i], all_cuts[i + 1]),
            replies.skip(all_cuts[i]),
            all_known[i + 1],
        )) by {
            if i == 0 {
                assert(asked.subrange(0, n) =~= own);
                assert(replies.skip(0) =~= replies);
            } else {
                let later_left = uuids.skip(at + 1);
                assert(later_left[i - 1] == left[i]);
                assert(shown_between(
                    later,
                    rest,
                    known[i - 1],
                    workspace_name,
                    later_left[i - 1],
                    cuts[i - 1],
                    cuts[i],
                ));
                assert(asked.subrange(cuts[i - 1] + n, cuts[i] + n) =~= later.subrange(
                    cuts[i - 1],
                    cuts[i],
                ));
                assert(replies.skip(cuts[i - 1] + n) =~= rest.skip(cuts[i - 1]));
            }
        }
        (all_cuts, all_known)
    }
}

proof fn lemma_nothing_left(
    workspace_name: Seq<char>,
    uuids: Seq<Seq<char>>,
    displays: Seq<DisplayData>,
    replies: Seq<Reply>,
)
    ensures
        ({
            let whole = switch_workspace_both::activation_from(
                workspace_name,
                uuids,
                displays,
                uuids.len() as int,
            );
            laws::requests(whole, replies) == Seq::<RequestView>::empty() && dialogue::run(
                whole,
                replies,
            ) == Outcome::Finished(displays, replies)
        }),
{
    broadcast use {dialogue::group_run, laws::group_requests};

}

proof fn lemma_one_then_the_rest(
    workspace_name: Seq<char>,
    uuids: Seq<Seq<char>>,
    displays: Seq<DisplayData>,
    at: int,
    replies: Seq<Reply>,
)
    requires
        0 <= at < uuids.len(),
        dialogue::run(
            switch_workspace_both::activation_from(workspace_name, uuids, displays, at),
            replies,
        ) is Finished,
    ensures
        ({
            let whole = switch_workspace_both::activation_from(
                workspace_name,
                uuids,
                displays,
                at,
            );
            let first = switch_workspace::activation(workspace_name, uuids[at], displays);
            let refreshed = dialogue::run(first, replies)->Finished_0;
            let rest = laws::left_over(dialogue::run(first, replies));
            let next = switch_workspace_both::activation_from(
                workspace_name,
                uuids,
                refreshed,
                at + 1,
            );
            &&& dialogue::run(first, replies) is Finished
            &&& dialogue::run(next, rest) == dialogue::run(whole, replies)
            &&& laws::requests(whole, replies) == laws::requests(first, replies) + laws::requests(
                next,
                rest,
            )
        }),
{
    broadcast use {dialogue::group_run, laws::group_requests};

}

/// Whether the keyboard was given back as these requests and displays say: where a display had it
/// at first and is still there with a space, the displays are asked for, and unless that display has
/// the keyboard it is moved there by way of that space; else nothing is asked.
pub open spec fn keyboard_given_back(
    asked: Seq<RequestView>,
    replies: Seq<Reply>,
    before: Seq<DisplayData>,
    after: Seq<DisplayData>,
) -> bool {
    &&& forall|o: int, d: int, space: u64|
        #![trigger is_first_with_keyboard(before, o), queries::is_display(after, before[o].uuid@, d), queries::shows_space(after[d], space)]
        is_first_with_keyboard(before, o) && queries::is_display(after, before[o].uuid@, d)
            && queries::shows_space(after[d], space) ==> replies.len() > 0 && replies[0] is Displays
            && asked == (if has_keyboard(replies[0]->Displays_0@, before[o].uuid@) {
            seq![RequestView::Outside(AskView::Displays)]
        } else {
            seq![
                RequestView::Outside(AskView::Displays),
                RequestView::Outside(
                    AskView::AcquireDisplay { display_uuid: before[o].uuid@, space },
                ),
            ]
        })
    &&& (forall|i: int| 0 <= i < before.len() ==> !(#[trigger] before[i]).is_active_context)
        ==> asked.len() == 0
    &&& forall|o: int| #[trigger]
        is_first_with_keyboard(before, o) && (forall|d: int| #[trigger]
            queries::is_display(after, before[o].uuid@, d) ==> queries::shows_no_space(after[d]))
            ==> asked.len() == 0
}

/// Whether the first display with the keyboard stands here.
pub open spec fn is_first_with_keyboard(displays: Seq<DisplayData>, at: int) -> bool {
    &&& 0 <= at < displays.len()
    &&& displays[at].is_active_context
    &&& forall|i: int| 0 <= i < at ==> !(#[trigger] displays[i]).is_active_context
}

proof fn lemma_keyboard(before: Seq<DisplayData>, after: Seq<DisplayData>, replies: Seq<Reply>)
    requires
        dialogue::run(
            switch_workspace_both::return_of_keyboard(
                model::first(before, model::has_context()),
                after,
            ),
            replies,
        ) is Finished,
    ensures
        keyboard_given_back(
            laws::requests(
                switch_workspace_both::return_of_keyboard(
                    model::first(before, model::has_context()),
                    after,
                ),
                replies,
            ),
            replies,
            before,
            after,
        ),
{
    let origin = model::first(before, model::has_context());
    let giving = switch_workspace_both::return_of_keyboard(origin, after);
    let asked = laws::requests(giving, replies);
    assert forall|o: int, d: int, space: u64|
        #![trigger is_first_with_keyboard(before, o), queries::is_display(after, before[o].uuid@, d), queries::shows_space(after[d], space)]
        is_first_with_keyboard(before, o) && queries::is_display(after, before[o].uuid@, d)
            && queries::shows_space(after[d], space) implies replies.len() > 0
        && replies[0] is Displays && asked == (if has_keyboard(
        replies[0]->Displays_0@,
        before[o].uuid@,
    ) {
        seq![RequestView::Outside(AskView::Displays)]
    } else {
        seq![
            RequestView::Outside(AskView::Displays),
            RequestView::Outside(
                AskView::AcquireDisplay { display_uuid: before[o].uuid@, space },
            ),
        ]
    }) by {
        model::lemma_first_found(before, model::has_context(), o);
        queries::lemma_display_found(after, before[o].uuid@, d);
        the_keyboard_is_moved_unless_it_is_there(before[o].uuid@, space, replies);
    }
    if forall|i: int| 0 <= i < before.len() ==> !(#[trigger] before[i]).is_active_context {
        model::lemma_first_absent(before, model::has_context());
    }
    assert forall|o: int| #[trigger]
        is_first_with_keyboard(before, o) && (forall|d: int| #[trigger]
            queries::is_display(after, before[o].uuid@, d) ==> queries::shows_no_space(
                after[d],
            )) implies asked.len() == 0 by {
        model::lemma_first_found(before, model::has_context(), o);
        if model::first(after, model::has_uuid(before[o].uuid@)) is Some {
            let d = queries::lemma_found_display(after, before[o].uuid@);
            assert(queries::is_display(after, before[o].uuid@, d));
        }
    }
}

proof fn lemma_both_parts(workspace_name: Seq<char>, replies: Seq<Reply>)
    requires
        dialogue::run(
            switch_workspace_both::switch_workspace_both_program(workspace_name),
            replies,
        ) is Finished,
    ensures
        replies.len() > 1,
        replies[1] is Displays,
        ({
            let displays = replies[1]->Displays_0@;
            let showing = switch_workspace_both::activation_from(
                workspace_name,
                switch_workspace_both::uuids_of(displays),
                displays,
                0,
            );
            let one = replies.skip(2);
            let after = dialogue::run(showing, one)->Finished_0;
            let two = laws::left_over(dialogue::run(showing, one));
            let giving = switch_workspace_both::return_of_keyboard(
                model::first(displays, model::has_context()),
                after,
            );
            &&& dialogue::run(showing, one) is Finished
            &&& dialogue::run(giving, two) is Finished
            &&& laws::requests(
                switch_workspace_both::switch_workspace_both_program(workspace_name),
                replies,
            ) == seq![
                RequestView::Outside(AskView::Connect),
                RequestView::Outside(AskView::Displays),
            ] + (laws::requests(showing, one) + laws::requests(giving, two))
        }),
{
    broadcast use {dialogue::group_run, laws::group_requests};

    assert(replies.len() > 1);
    assert(replies.skip(1)[0] == replies[1]);
    assert(replies.skip(1).skip(1) =~= replies.skip(2));
    let displays = replies[1]->Displays_0@;
    let showing = switch_workspace_both::activation_from(
        workspace_name,
        switch_workspace_both::uuids_of(displays),
        displays,
        0,
    );
    let one = replies.skip(2);
    let after = dialogue::run(showing, one)->Finished_0;
    let two = laws::left_over(dialogue::run(showing, one));
    let giving = switch_workspace_both::return_of_keyboard(
        model::first(displays, model::has_context()),
        after,
    );
    assert(laws::requests(
        switch_workspace_both::switch_workspace_both_program(workspace_name),
        replies,
    ) =~= seq![
        RequestView::Outside(AskView::Connect),
        RequestView::Outside(AskView::Displays),
    ] + (laws::requests(showing, one) + laws::requests(giving, two)));
}

/// Whether `switch-workspace-both` did what it is for: from the third request on the workspace was
/// shown on each display in turn, over the displays as they were by then; and then the keyboard was
/// given back.
pub open spec fn shown_everywhere(
    asked: Seq<RequestView>,
    replies: Seq<Reply>,
    workspace_name: Seq<char>,
    displays: Seq<DisplayData>,
    cuts: Seq<int>,
    known: Seq<Seq<DisplayData>>,
) -> bool {
    let shown = asked.subrange(2, 2 + cuts.last());
    &&& 0 <= cuts.last() <= asked.len() - 2
    &&& shown_in_turn(
        shown,
        replies.skip(2),
        workspace_name,
        Seq::new(displays.len(), |i: int| displays[i].uuid@),
        cuts,
        known,
    )
    &&& cuts[0] == 0
    &&& known[0] == displays
    &&& 2 + cuts.last() <= replies.len()
    &&& keyboard_given_back(
        asked.skip(2 + cuts.last()),
        replies.skip(2 + cuts.last()),
        displays,
        known.last(),
    )
}

/// `switch-workspace-both` that has succeeded showed the workspace on every display that was
/// reported at first, one after the other, and then gave the keyboard back to the display that had
/// it.
pub proof fn switch_workspace_both_shows_the_workspace_everywhere(
    workspace_name: Seq<char>,
    replies: Seq<Reply>,
)
    requires
        dialogue::run(
            switch_workspace_both::switch_workspace_both_program(workspace_name),
            replies,
        ) is Finished,
    ensures
        ({
            let asked = laws::requests(
                switch_workspace_both::switch_workspace_both_program(workspace_name),
                replies,
            );
            let displays = replies[1]->Displays_0@;
            &&& outcomes::begins_with_displays(asked, replies, displays)
            &&& exists|cuts: Seq<int>, known: Seq<Seq<DisplayData>>|
                shown_everywhere(asked, replies, workspace_name, displays, cuts, known)
        }),
{
    let asked = laws::requests(
        switch_workspace_both::switch_workspace_both_program(workspace_name),
        replies,
    );
    lemma_both_parts(workspace_name, replies);
    let displays = replies[1]->Displays_0@;
    let uuids = switch_workspace_both::uuids_of(displays);
    assert(uuids =~= Seq::new(displays.len(), |i: int| displays[i].uuid@));
    let showing = switch_workspace_both::activation_from(workspace_name, uuids, displays, 0);
    let one = replies.skip(2);
    let shown = laws::requests(showing, one);
    let after = dialogue::run(showing, one)->Finished_0;
    let two = laws::left_over(dialogue::run(showing, one));
    laws::each_request_has_its_reply(showing, one);
    let (cuts, known) = lemma_shown_from(workspace_name, uuids, displays, 0, one);
    assert(uuids.skip(0) =~= uuids);
    lemma_keyboard(displays, after, two);
    let end = 2 + cuts.last();
    assert(asked.subrange(2, end) =~= shown);
    let giving = switch_workspace_both::return_of_keyboard(
        model::first(displays, model::has_context()),
        after,
    );
    assert(asked.skip(end) =~= laws::requests(giving, two));
    assert(replies.skip(end) =~= two);
    assert(shown_everywhere(asked, replies, workspace_name, displays, cuts, known));
}

} // verus!
