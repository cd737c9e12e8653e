//! What sending windows home brings about, in terms of what was asked and replied.
use crate::dialogue;
use crate::dialogue::{AskView, Outcome, Reply, RequestView};
use crate::laws;
use crate::laws::{following, looking, outcomes, policies, queries, rehoming, steps};
use crate::model;
use crate::model::{CommandView, DisplayData, WindowData, WindowId};
use crate::policy;
use crate::policy::RoutedWindow;
use crate::rift;
use crate::rift::{FocusedWorkspaceView, TargetView};
use crate::transaction;
use crate::transaction::{
    CheckView, ConditionView, ExpectationView, OperationView, Pace, RiftTransaction,
};
use crate::workflow::placement;
use crate::workflow::rehome;
use crate::workflow::rehome::{Errand, GroupView, SourceView};
use vstd::prelude::*;

verus! {

/// The windows of a group, and their identifiers, are those of all of its members, in order.
pub proof fn every_member_of_a_group_counts(group: GroupView)
    ensures
        rehome::windows_of(group.windows).len() == group.windows.len(),
        rehome::member_ids(group).len() == group.windows.len(),
        forall|i: int|
            0 <= i < group.windows.len() ==> #[trigger] rehome::windows_of(group.windows)[i]
                == group.windows[i].window,
        forall|i: int|
            0 <= i < group.windows.len() ==> #[trigger] rehome::member_ids(group)[i]
                == group.windows[i].window.id,
{
}

/// Whether a group is that of this home.
pub open spec fn is_group_of(group: GroupView, routed: RoutedWindow) -> bool {
    &&& group.display_uuid == routed.home.display_uuid@
    &&& group.workspace_name == routed.home.workspace_name@
}

/// Each window stands in a group of its home, and each window of a group has that home.
pub proof fn each_window_stands_in_the_group_of_its_home(
    routed: Seq<RoutedWindow>,
    at: int,
) -> (found: (int, int))
    requires
        0 <= at < routed.len(),
    ensures
        0 <= found.0 < rehome::grouped(routed).len(),
        is_group_of(rehome::grouped(routed)[found.0], routed[at]),
        0 <= found.1 < rehome::grouped(routed)[found.0].windows.len(),
        rehome::grouped(routed)[found.0].windows[found.1] == routed[at],
        forall|g: int, i: int|
            0 <= g < rehome::grouped(routed).len() && 0 <= i < rehome::grouped(
                routed,
            )[g].windows.len() ==> is_group_of(
                rehome::grouped(routed)[g],
                #[trigger] rehome::grouped(routed)[g].windows[i],
            ),
{
    rehoming::every_window_stands_with_its_home(routed);
    let groups = rehome::grouped(routed);
    assert(rehome::home_of(routed[at]) == rehome::home_of(routed[at]));
    let g = choose|g: int|
        0 <= g < groups.len() && rehoming::place_of(#[trigger] groups[g]) == rehome::home_of(
            routed[at],
        ) && groups[g].windows.contains(routed[at]);
    let i = groups[g].windows.index_of(routed[at]);
    assert forall|g: int, i: int|
        0 <= g < groups.len() && 0 <= i < groups[g].windows.len() implies is_group_of(
        groups[g],
        #[trigger] groups[g].windows[i],
    ) by {
        let place = rehoming::place_of(groups[g]);
        let kept = rehome::belongs_to(place);
        assert(groups[g].windows == routed.filter(kept));
        rehoming::lemma_filtered(routed, kept, groups[g].windows[i]);
        assert(groups[g].windows.contains(groups[g].windows[i]));
    }
    (g, i)
}

// ---------------------------------------------------------------------------
// The last look.
// ---------------------------------------------------------------------------

/// Whether a destination was read out of these displays by this request.
pub open spec fn is_read_by(
    asked: Seq<RequestView>,
    replies: Seq<Reply>,
    displays: Seq<DisplayData>,
    target: TargetView,
    workspace_name: Seq<char>,
    display_uuid: Seq<char>,
    at: int,
) -> bool {
    exists|display: int, place: int|
        outcomes::read_at(
            asked,
            replies,
            displays,
            target,
            workspace_name,
            display_uuid,
            display,
            at,
            place,
        )
}

/// Whether, from this request on, the displays and a destination were read, then the workspaces of
/// its space, and later this window; and the replies show the window in the named workspace, and its
/// frame on the display.
pub open spec fn home_shown_at(
    asked: Seq<RequestView>,
    replies: Seq<Reply>,
    at: int,
    later: int,
    target: TargetView,
    id: WindowId,
    display_uuid: Seq<char>,
    workspace_name: Seq<char>,
) -> bool {
    &&& 0 <= at
    &&& at + 3 <= later < asked.len() <= replies.len()
    &&& asked[at] == RequestView::Outside(AskView::Displays)
    &&& replies[at] is Displays
    &&& is_read_by(
        asked,
        replies,
        replies[at]->Displays_0@,
        target,
        workspace_name,
        display_uuid,
        at + 1,
    )
    &&& asked[at + 2] == queries::asks_workspaces(target.space)
    &&& replies[at + 2] is Workspaces
    &&& exists|w: int|
        #[trigger] queries::is_workspace(replies[at + 2]->Workspaces_0@, workspace_name, w)
            && queries::has_member(replies[at + 2]->Workspaces_0@[w], id)
    &&& asked[later] == queries::asks_window(id)
    &&& queries::shows_frame(replies[later], target.frame_validation)
}

/// Whether a window was shown to be at home by these requests.
pub open spec fn home_shown(
    asked: Seq<RequestView>,
    replies: Seq<Reply>,
    id: WindowId,
    display_uuid: Seq<char>,
    workspace_name: Seq<char>,
) -> bool {
    exists|at: int, later: int, target: TargetView|
        home_shown_at(
            asked,
            replies,
            at,
            later,
            target,
            id,
            display_uuid,
            workspace_name,
        )
}

proof fn lemma_destination_parts(group: GroupView, replies: Seq<Reply>) -> (found: (int, int))
    requires
        dialogue::run(rehome::destination(group), replies) is Finished,
    ensures
        replies.len() > 1,
        replies[0] is Displays,
        ({
            let target = dialogue::run(rehome::destination(group), replies)->Finished_0;
            let asked = laws::requests(rehome::destination(group), replies);
            &&& asked == seq![
                RequestView::Outside(AskView::Displays),
                queries::asks_workspaces(target.space),
            ]
            &&& outcomes::read_at(
                asked,
                replies,
                replies[0]->Displays_0@,
                target,
                group.workspace_name,
                group.display_uuid,
                found.0,
                1,
                found.1,
            )
        }),
{
    broadcast use {dialogue::group_run, laws::group_requests};

    let asked = laws::requests(rehome::destination(group), replies);
    let target = dialogue::run(rehome::destination(group), replies)->Finished_0;
    assert(replies.len() > 0);
    let displays = replies[0]->Displays_0@;
    let rest = replies.skip(1);
    let (display, place) = queries::a_destination_that_was_found_is_the_named_workspace(
        group.workspace_name,
        group.display_uuid,
        displays,
        rest,
    );
    assert(rest[0] == replies[1]);
    assert(asked =~= seq![
        RequestView::Outside(AskView::Displays),
        queries::asks_workspaces(target.space),
    ]);
    (display, place)
}

proof fn lemma_home_shown(
    asked: Seq<RequestView>,
    replies: Seq<Reply>,
    group: GroupView,
    member: int,
)
    requires
        asked.len() <= replies.len(),
        0 <= member < group.windows.len(),
        laws::did(asked, replies, rehoming::home_check(group), true),
    ensures
        home_shown(
            asked,
            replies,
            group.windows[member].window.id,
            group.display_uuid,
            group.workspace_name,
        ),
{
    let check = rehoming::home_check(group);
    let at = choose|at: int| laws::did_at(asked, replies, check, true, at);
    let look = replies.skip(at);
    let own = laws::requests(check, look);
    let ids = rehome::member_ids(group);
    rehoming::a_home_check_shows_the_group_at_home(group, look);
    every_member_of_a_group_counts(group);
    let (display, place) = lemma_destination_parts(group, look);
    let target = dialogue::run(rehome::destination(group), look)->Finished_0;
    let id = group.windows[member].window.id;
    assert(ids[member] == id);
    assert forall|i: int| 0 <= i < own.len() implies #[trigger] own[i] == asked[at + i] by {
        assert(asked.subrange(at, at + own.len())[i] == asked[at + i]);
    }
    let later = at + 3 + member;
    assert(own[0] == asked[at + 0]);
    assert(own[1] == asked[at + 1]);
    assert(own[2] == asked[at + 2]);
    assert(own[3 + member] == asked[at + (3 + member)]);
    assert(looking::asking_for(ids)[member] == queries::asks_window(id));
    assert(own[3 + member] == queries::asks_window(id));
    assert(look[0] == replies[at]);
    assert(look[1] == replies[at + 1]);
    let rest = look.skip(2);
    assert(rest[0] == replies[at + 2]);
    assert(rest[member + 1] == replies[later]);
    assert(model::has_window(
        model::first(
            rest[0]->Workspaces_0@,
            model::has_name(group.workspace_name),
        )->0.windows@,
        ids[member],
    ) && looking::shows_on_display(target, rest[member + 1]));
    let workspaces = rest[0]->Workspaces_0@;
    let named = model::has_name(group.workspace_name);
    let w = queries::lemma_first_at(workspaces, named);
    assert forall|i: int| 0 <= i < w implies (#[trigger] workspaces[i]).name@
        != group.workspace_name by {
        assert(!named(workspaces[i]));
    }
    assert(queries::is_workspace(workspaces, group.workspace_name, w));
    assert(outcomes::read_at(
        asked,
        replies,
        replies[at]->Displays_0@,
        target,
        group.workspace_name,
        group.display_uuid,
        display,
        at + 1,
        place,
    ));
    assert(home_shown_at(
        asked,
        replies,
        at,
        later,
        target,
        id,
        group.display_uuid,
        group.workspace_name,
    ));
}

/// `rehome` that has succeeded with windows that have a home shows in the end each of them at home:
/// from some request on nothing is submitted any more, and by what is asked from there on, each of
/// the windows, whether it was focused or not, is shown in the workspace where it belongs, with its
/// frame on the display where it belongs.
pub proof fn rehome_shows_each_window_at_its_home(
    workspace_name: Option<Seq<char>>,
    replies: Seq<Reply>,
)
    requires
        dialogue::run(rehome::rehome_program(workspace_name), replies) is Finished,
    ensures
        dialogue::run(rehome::errand(workspace_name), replies) is Finished,
        ({
            let asked = laws::requests(rehome::rehome_program(workspace_name), replies);
            let routed = dialogue::run(
                rehome::errand(workspace_name),
                replies,
            )->Finished_0.routed;
            routed.len() > 0 ==> exists|from: int| #[trigger] ends_at_home(
                asked,
                replies,
                routed,
                from,
            )
        }),
{
    let asked = laws::requests(rehome::rehome_program(workspace_name), replies);
    rehoming::rehome_ends_with_all_at_home(workspace_name, replies);
    let errand = dialogue::run(rehome::errand(workspace_name), replies)->Finished_0;
    let errand_asked = laws::requests(rehome::errand(workspace_name), replies);
    let routed = errand.routed;
    if routed.len() > 0 {
        let from = choose|from: int|
            rehoming::is_last_check(asked, replies, errand, errand_asked, from);
        reveal(rehoming::is_last_check);
        reveal(rehoming::found_at_home);
        let tail = asked.skip(from);
        let look = replies.skip(from);
        laws::each_request_has_its_reply(rehome::rehome_program(workspace_name), replies);
        let groups = rehome::grouped(routed);
        assert forall|w: int| 0 <= w < routed.len() implies home_shown(
            tail,
            look,
            (#[trigger] routed[w]).window.id,
            routed[w].home.display_uuid@,
            routed[w].home.workspace_name@,
        ) by {
            let (g, i) = each_window_stands_in_the_group_of_its_home(routed, w);
            assert(laws::did(tail, look, rehoming::home_check(groups[g]), true));
            lemma_home_shown(tail, look, groups[g], i);
        }
        lemma_checks_submit_nothing(groups, look);
        assert(ends_at_home(asked, replies, routed, from));
    }
}

/// Whether from this request on nothing is submitted, and each of the windows is shown at home.
pub open spec fn ends_at_home(
    asked: Seq<RequestView>,
    replies: Seq<Reply>,
    routed: Seq<RoutedWindow>,
    from: int,
) -> bool {
    &&& 0 <= from <= asked.len() <= replies.len()
    &&& laws::operations_of(asked.skip(from)) == Seq::<OperationView>::empty()
    &&& forall|w: int|
        0 <= w < routed.len() ==> home_shown(
            asked.skip(from),
            replies.skip(from),
            (#[trigger] routed[w]).window.id,
            routed[w].home.display_uuid@,
            routed[w].home.workspace_name@,
        )
}

proof fn lemma_checks_submit_nothing(groups: Seq<GroupView>, replies: Seq<Reply>)
    ensures
        laws::operations(rehome::are_at_home_from(groups, 0), replies) == Seq::<
            OperationView,
        >::empty(),
        laws::operations(rehome::verification_from(groups, 0), replies) == Seq::<
            OperationView,
        >::empty(),
{
    rehoming::lemma_at_home_looks(groups, 0);
    lemma_verification_looks(groups, 0);
    laws::lemma_looking_takes_no_operation(rehome::are_at_home_from(groups, 0), replies);
    laws::lemma_looking_takes_no_operation(rehome::verification_from(groups, 0), replies);
}

proof fn lemma_verification_looks(groups: Seq<GroupView>, at: int)
    ensures
        dialogue::asks_only(rehome::verification_from(groups, at), dialogue::looks()),
    decreases groups.len() - at,
{
    broadcast use dialogue::group_asks_only;

    reveal(rehome::verification_from);
    if 0 <= at < groups.len() {
        lemma_verification_looks(groups, at + 1);
        assert forall|target: TargetView|
            dialogue::asks_only(
                #[trigger] rift::windows_are_at(
                    target,
                    groups[at].workspace_name,
                    rehome::member_ids(groups[at]),
                ),
                dialogue::looks(),
            ) by {
            rift::lemma_windows_are_at_looks(
                target,
                groups[at].workspace_name,
                rehome::member_ids(groups[at]),
            );
        }
    }
}

// ---------------------------------------------------------------------------
// The errand.
// ---------------------------------------------------------------------------

/// Whether the source is the focused workspace, which was found from the fourth request on.
pub open spec fn is_focused_source(
    asked: Seq<RequestView>,
    replies: Seq<Reply>,
    displays: Seq<DisplayData>,
    source: SourceView,
) -> bool {
    exists|found: FocusedWorkspaceView, count: int|
        #[trigger] outcomes::focus_found_by(asked, replies, displays, found, 3, count)
            && source.display_uuid == found.display_uuid && source.workspace_name
            == found.workspace.name@ && source.windows == found.workspace.windows@
}

/// Whether the source is the named workspace, on this destination: it was read there out of these
/// displays; it was prepared unless it was active and its display had the keyboard; and the last
/// request but one was for the workspaces there, and the windows are those in the reply.
pub open spec fn is_named_source(
    asked: Seq<RequestView>,
    replies: Seq<Reply>,
    displays: Seq<DisplayData>,
    name: Seq<char>,
    source: SourceView,
    target: TargetView,
) -> bool {
    let at = asked.len() - 2;
    &&& source.workspace_name == name
    &&& outcomes::read_from(asked, replies, displays, target, name, source.display_uuid)
    &&& laws::operations_of(asked) == (if target.display_is_active && target.workspace_is_active {
        Seq::empty()
    } else {
        steps::preparations(following::single(), target, name)
    })
    &&& 2 <= asked.len() <= replies.len()
    &&& asked[at] == queries::asks_workspaces(target.space)
    &&& replies[at] is Workspaces
    &&& exists|w: int|
        #[trigger] queries::is_workspace(replies[at]->Workspaces_0@, name, w) && source.windows
            == replies[at]->Workspaces_0@[w].windows@
}

/// Whether the errand is for the workspace that was meant: the named one, on the display that the
/// policy gives it, or without a name the focused one. The homes are asked for all of its windows,
/// last, and are as they were replied.
pub open spec fn is_errand(
    workspace_name: Option<Seq<char>>,
    asked: Seq<RequestView>,
    replies: Seq<Reply>,
    errand: Errand,
) -> bool {
    let displays = replies[1]->Displays_0@;
    let last = asked.len() - 1;
    &&& outcomes::begins_with_displays(asked, replies, displays)
    &&& 3 < asked.len() <= replies.len()
    &&& asked[2] == RequestView::Outside(AskView::Policy)
    &&& replies[2] is Policy
    &&& asked[last] == RequestView::Outside(AskView::Route { windows: errand.source.windows })
    &&& replies[last] matches Reply::Routed(routed) && routed@ == errand.routed
    &&& match workspace_name {
        None => is_focused_source(asked, replies, displays, errand.source)
            && laws::operations_of(asked) == Seq::<OperationView>::empty(),
        Some(name) => policies::gives(
            replies[2]->Policy_0,
            displays,
            name,
            errand.source.display_uuid,
        ) && exists|target: TargetView|
            is_named_source(asked, replies, displays, name, errand.source, target),
    }
}

proof fn lemma_errand_parts(workspace_name: Option<Seq<char>>, replies: Seq<Reply>) -> (resolved:
    policy::ResolvedView)
    requires
        dialogue::run(rehome::errand(workspace_name), replies) is Finished,
    ensures
        replies.len() > 2,
        replies[1] is Displays,
        replies[2] is Policy,
        resolved.displays == replies[1]->Displays_0@,
        forall|name: Seq<char>, uuid: Seq<char>|
            policy::resolved_display(resolved, name) == Ok::<Seq<char>, crate::error::ErrorView>(
                uuid,
            ) ==> #[trigger] policies::gives(
                replies[2]->Policy_0,
                replies[1]->Displays_0@,
                name,
                uuid,
            ),
        ({
            let displays = replies[1]->Displays_0@;
            let errand = dialogue::run(rehome::errand(workspace_name), replies)->Finished_0;
            let finding = rehome::source_of(displays, resolved, workspace_name);
            let three = replies.skip(3);
            let found = laws::requests(finding, three);
            let four = laws::left_over(dialogue::run(finding, three));
            &&& dialogue::run(finding, three) is Finished
            &&& errand.source == dialogue::run(finding, three)->Finished_0
            &&& four.len() > 0
            &&& four[0] matches Reply::Routed(routed) && routed@ == errand.routed
            &&& laws::requests(rehome::errand(workspace_name), replies) == seq![
                RequestView::Outside(AskView::Connect),
                RequestView::Outside(AskView::Displays),
                RequestView::Outside(AskView::Policy),
            ] + (found + seq![
                RequestView::Outside(AskView::Route { windows: errand.source.windows }),
            ])
        }),
{
    broadcast use {dialogue::group_run, laws::group_requests};

    reveal(rehome::errand);
    assert(replies.len() > 1);
    assert(replies.skip(1)[0] == replies[1]);
    let displays = replies[1]->Displays_0@;
    let two = replies.skip(2);
    assert(replies.skip(1).skip(1) =~= two);
    assert(two.len() > 0);
    assert(two[0] == replies[2]);
    assert(two.skip(1) =~= replies.skip(3));
    let loading = policy::load_resolved(displays);
    let resolved = dialogue::run(loading, two)->Finished_0;
    let finding = rehome::source_of(displays, resolved, workspace_name);
    let three = replies.skip(3);
    let found = laws::requests(finding, three);
    let source = dialogue::run(finding, three)->Finished_0;
    let four = laws::left_over(dialogue::run(finding, three));
    assert forall|name: Seq<char>, uuid: Seq<char>|
        policy::resolved_display(resolved, name) == Ok::<Seq<char>, crate::error::ErrorView>(
            uuid,
        ) implies #[trigger] policies::gives(
        replies[2]->Policy_0,
        displays,
        name,
        uuid,
    ) by {
        assert(dialogue::run(policy::display_for(name, displays), two) == Outcome::Finished(
            uuid,
            two.skip(1),
        ));
        policies::a_display_that_was_found_is_given_by_the_policy(name, displays, two);
    }
    assert(four.len() > 0);
    policies::homes_are_as_they_are_replied(source.windows, four);
    let last = seq![RequestView::Outside(AskView::Route { windows: source.windows })];
    assert(last + Seq::<RequestView>::empty() =~= last);
    assert(laws::requests(rehome::errand(workspace_name), replies) =~= seq![
        RequestView::Outside(AskView::Connect),
        RequestView::Outside(AskView::Displays),
        RequestView::Outside(AskView::Policy),
    ] + (found + last));
    resolved
}

proof fn lemma_named_source(
    displays: Seq<DisplayData>,
    name: Seq<char>,
    uuid: Seq<char>,
    replies: Seq<Reply>,
) -> (found: (TargetView, int))
    requires
        dialogue::run(rehome::named_source(displays, name, uuid), replies) is Finished,
    ensures
        ({
            let finding = rehome::named_source(displays, name, uuid);
            let asked = laws::requests(finding, replies);
            let source = dialogue::run(finding, replies)->Finished_0;
            let (target, w) = found;
            let last = asked.len() - 1;
            &&& source.display_uuid == uuid
            &&& source.workspace_name == name
            &&& laws::did(asked, replies, rift::target_context(name, uuid, displays), target)
            &&& laws::operations_of(asked) == (if target.display_is_active
                && target.workspace_is_active {
                Seq::empty()
            } else {
                steps::preparations(following::single(), target, name)
            })
            &&& 1 <= asked.len() <= replies.len()
            &&& asked[last] == queries::asks_workspaces(target.space)
            &&& replies[last] is Workspaces
            &&& queries::is_workspace(replies[last]->Workspaces_0@, name, w)
            &&& source.windows == replies[last]->Workspaces_0@[w].windows@
        }),
{
    broadcast use {dialogue::group_run, laws::group_requests};

    let finding = rehome::named_source(displays, name, uuid);
    let asked = laws::requests(finding, replies);
    let context = rift::target_context(name, uuid, displays);
    let aimed = laws::requests(context, replies);
    let target = dialogue::run(context, replies)->Finished_0;
    let one = laws::left_over(dialogue::run(context, replies));
    laws::each_request_has_its_reply(context, replies);
    laws::lemma_did_itself(context, replies);
    let showing = rehome::showing(target, name);
    let shown = laws::requests(showing, one);
    let two = laws::left_over(dialogue::run(showing, one));
    laws::each_request_has_its_reply(showing, one);
    assert(two.len() > 0 && two[0] is Workspaces);
    let workspaces = two[0]->Workspaces_0@;
    let named = model::has_name(name);
    let w = queries::lemma_first_at(workspaces, named);
    assert forall|i: int| 0 <= i < w implies (#[trigger] workspaces[i]).name@ != name by {
        assert(!named(workspaces[i]));
    }
    queries::a_workspace_is_read_by_its_name(target, name, two, w);
    let read = seq![queries::asks_workspaces(target.space)];
    assert(read + Seq::<RequestView>::empty() =~= read);
    assert(asked =~= aimed + (shown + read));
    laws::lemma_did_earlier(aimed, shown + read, replies, context, target);
    let before = aimed + shown;
    assert(asked =~= before + read);
    assert(replies.skip(before.len() as int) =~= two);
    assert(two[0] == replies[before.len() as int]);
    lemma_showing(target, name, one);
    following::lemma_looks(name, uuid, displays);
    laws::lemma_no_operations(context, replies);
    following::lemma_none_submitted(read);
    laws::lemma_operations_of_append(aimed, shown);
    laws::lemma_operations_of_append(before, read);
    let none = Seq::<OperationView>::empty();
    let submitted = laws::operations_of(shown);
    assert((none + submitted) + none =~= submitted);
    (target, w)
}

proof fn lemma_showing(target: TargetView, name: Seq<char>, replies: Seq<Reply>)
    requires
        dialogue::run(rehome::showing(target, name), replies) is Finished,
    ensures
        laws::operations(rehome::showing(target, name), replies) == (if target.display_is_active
            && target.workspace_is_active {
            Seq::empty()
        } else {
            steps::preparations(following::single(), target, name)
        }),
{
    broadcast use {dialogue::group_run, laws::group_operations};

    if !(target.display_is_active && target.workspace_is_active) {
        let beginning = transaction::begin_single();
        assert(replies.len() > 0 && replies[0] is Done);
        steps::a_single_command_has_two_and_a_half_seconds(replies);
        let none = Seq::<OperationView>::empty();
        assert(laws::operations(beginning, replies) =~= none) by {
            broadcast use dialogue::group_asks_only;

            laws::lemma_no_operations(beginning, replies);
        }
        let rest = replies.skip(1);
        steps::a_destination_is_prepared_as_far_as_needed(
            following::single(),
            target,
            name,
            rest,
        );
        let prepared = steps::preparations(following::single(), target, name);
        assert(none + prepared =~= prepared);
    }
}

/// The errand of `rehome` is for the workspace that was meant.
pub proof fn an_errand_is_for_the_workspace_that_was_meant(
    workspace_name: Option<Seq<char>>,
    replies: Seq<Reply>,
)
    requires
        dialogue::run(rehome::errand(workspace_name), replies) is Finished,
    ensures
        is_errand(
            workspace_name,
            laws::requests(rehome::errand(workspace_name), replies),
            replies,
            dialogue::run(rehome::errand(workspace_name), replies)->Finished_0,
        ),
{
    let asked = laws::requests(rehome::errand(workspace_name), replies);
    let errand = dialogue::run(rehome::errand(workspace_name), replies)->Finished_0;
    let resolved = lemma_errand_parts(workspace_name, replies);
    let displays = replies[1]->Displays_0@;
    let finding = rehome::source_of(displays, resolved, workspace_name);
    let three = replies.skip(3);
    let found = laws::requests(finding, three);
    laws::each_request_has_its_reply(finding, three);
    let four = laws::left_over(dialogue::run(finding, three));
    let start = seq![
        RequestView::Outside(AskView::Connect),
        RequestView::Outside(AskView::Displays),
        RequestView::Outside(AskView::Policy),
    ];
    let last = seq![RequestView::Outside(AskView::Route { windows: errand.source.windows })];
    let end = asked.len() - 1;
    assert(four[0] == replies[end]);
    assert(asked[end] == last[0]);
    assert(asked[0] == start[0] && asked[1] == start[1] && asked[2] == start[2]);
    laws::lemma_operations_of_append(start, found + last);
    laws::lemma_operations_of_append(found, last);
    following::lemma_none_submitted(start);
    following::lemma_none_submitted(last);
    let none = Seq::<OperationView>::empty();
    assert(none + (laws::operations_of(found) + none) =~= laws::operations_of(found));
    match workspace_name {
        None => {
            lemma_focused_source(displays, resolved, three);
            let count = found.len() as int;
            assert(asked.subrange(3, 3 + count) =~= found);
            let focused = dialogue::run(rift::focused_workspace(displays), three)->Finished_0;
            assert(outcomes::focus_found_by(asked, replies, displays, focused, 3, count));
        },
        Some(name) => {
            let uuid = lemma_source_display(displays, resolved, name, three);
            let (target, w) = lemma_named_source(displays, name, uuid, three);
            assert(policies::gives(replies[2]->Policy_0, displays, name, uuid));
            let context = rift::target_context(name, uuid, displays);
            laws::lemma_did_earlier(found, last, three, context, target);
            laws::lemma_did_later(start, found + last, replies, context, target);
            outcomes::lemma_read_from(asked, replies, displays, target, name, uuid);
            let at = asked.len() - 2;
            assert(asked[at] == found[found.len() - 1]);
            assert(replies[at] == three[found.len() - 1]);
            assert(queries::is_workspace(replies[at]->Workspaces_0@, name, w));
            assert(is_named_source(asked, replies, displays, name, errand.source, target));
        },
    }
}

proof fn lemma_source_display(
    displays: Seq<DisplayData>,
    resolved: policy::ResolvedView,
    name: Seq<char>,
    replies: Seq<Reply>,
) -> (uuid: Seq<char>)
    requires
        dialogue::run(rehome::source_of(displays, resolved, Some(name)), replies) is Finished,
    ensures
        policy::resolved_display(resolved, name) == Ok::<Seq<char>, crate::error::ErrorView>(uuid),
        dialogue::run(rehome::source_of(displays, resolved, Some(name)), replies) == dialogue::run(
            rehome::named_source(displays, name, uuid),
            replies,
        ),
        laws::requests(rehome::source_of(displays, resolved, Some(name)), replies)
            == laws::requests(rehome::named_source(displays, name, uuid), replies),
{
    broadcast use {dialogue::group_run, laws::group_requests};

    let uuid = policy::resolved_display(resolved, name)->Ok_0;
    let found = laws::requests(rehome::named_source(displays, name, uuid), replies);
    assert(Seq::<RequestView>::empty() + found =~= found);
    uuid
}

proof fn lemma_focused_source(
    displays: Seq<DisplayData>,
    resolved: policy::ResolvedView,
    replies: Seq<Reply>,
)
    requires
        dialogue::run(
            rehome::source_of(displays, resolved, None::<Seq<char>>),
            replies,
        ) is Finished,
    ensures
        ({
            let finding = rehome::source_of(displays, resolved, None::<Seq<char>>);
            let asked = laws::requests(finding, replies);
            let source = dialogue::run(finding, replies)->Finished_0;
            let focusing = rift::focused_workspace(displays);
            let focused = dialogue::run(focusing, replies)->Finished_0;
            &&& dialogue::run(focusing, replies) is Finished
            &&& queries::is_focused_workspace(displays, 0, asked, replies, focused)
            &&& source.display_uuid == focused.display_uuid
            &&& source.workspace_name == focused.workspace.name@
            &&& source.windows == focused.workspace.windows@
            &&& laws::operations_of(asked) == Seq::<OperationView>::empty()
        }),
{
    broadcast use {dialogue::group_run, laws::group_requests};

    let finding = rehome::source_of(displays, resolved, None::<Seq<char>>);
    let focusing = rift::focused_workspace(displays);
    let found = laws::requests(focusing, replies);
    assert(found + Seq::<RequestView>::empty() =~= found);
    assert(laws::requests(finding, replies) == found);
    queries::the_focused_workspace_is_where_the_focus_was_shown(displays, replies);
    looking::queries_only_look(
        arbitrary(),
        Seq::empty(),
        Seq::empty(),
        displays,
        arbitrary(),
        Seq::empty(),
    );
    laws::lemma_looking_takes_no_operation(focusing, replies);
}

// ---------------------------------------------------------------------------
// The operations.
// ---------------------------------------------------------------------------

/// Commands that are submitted together, and what is waited for: an expected event, and these
/// conditions at the destination.
pub open spec fn phase(
    transaction: RiftTransaction,
    description: Seq<char>,
    commands: Seq<CommandView>,
    expectation: ExpectationView,
    target: TargetView,
    workspace_name: Seq<char>,
    conditions: Seq<ConditionView>,
) -> OperationView {
    OperationView {
        transaction,
        pace: Pace::Confirmed,
        description,
        commands,
        expectation,
        check: CheckView { target, workspace_name, conditions },
        timeout: transaction.step_timeout,
    }
}

/// The operation that moves windows to a display, each of them, until each is there; none where
/// there is no window.
pub open spec fn display_moves(
    transaction: RiftTransaction,
    target: TargetView,
    workspace_name: Seq<char>,
    windows: Seq<WindowData>,
) -> Seq<OperationView> {
    if windows.len() == 0 {
        Seq::empty()
    } else {
        seq![
            phase(
                transaction,
                "display placement for workspace "@ + workspace_name,
                Seq::new(windows.len(), |i: int| steps::display_moving(target, windows[i])),
                ExpectationView::Display(target.display_uuid),
                target,
                workspace_name,
                Seq::new(
                    windows.len(),
                    |i: int| ConditionView::WindowIsOnDisplay(windows[i].id),
                ),
            ),
        ]
    }
}

/// The operation that moves windows to a workspace, each of them, until all are there; none where
/// there is no window.
pub open spec fn workspace_moves(
    transaction: RiftTransaction,
    target: TargetView,
    workspace_name: Seq<char>,
    windows: Seq<WindowData>,
) -> Seq<OperationView> {
    if windows.len() == 0 {
        Seq::empty()
    } else {
        seq![
            phase(
                transaction,
                "workspace placement for "@ + workspace_name,
                Seq::new(
                    windows.len(),
                    |i: int| steps::workspace_moving(target, windows[i], false),
                ),
                steps::workspace_events(target, workspace_name),
                target,
                workspace_name,
                seq![
                    ConditionView::WindowsAreAt(Seq::new(windows.len(), |i: int| windows[i].id)),
                ],
            ),
        ]
    }
}

/// The members of a group with one of these identifiers, in order.
pub open spec fn members_among(group: GroupView, ids: Seq<WindowId>) -> Seq<WindowData> {
    Seq::new(group.windows.len(), |i: int| group.windows[i].window).filter(
        |window: WindowData| exists|k: int| 0 <= k < ids.len() && #[trigger] ids[k] == window.id,
    )
}

/// The operations that send a group home: its workspace is prepared; then the windows that are not
/// on its display are moved there; then those that are missing from its workspace are moved there.
pub open spec fn sendings(transaction: RiftTransaction, group: GroupView, replies: Seq<Reply>) -> Seq<
    OperationView,
> {
    let found = rehoming::findings(transaction, group, replies);
    steps::preparations(transaction, found.target, group.workspace_name) + (display_moves(
        transaction,
        found.target,
        group.workspace_name,
        found.elsewhere,
    ) + workspace_moves(
        transaction,
        found.target,
        group.workspace_name,
        members_among(group, found.missing),
    ))
}

proof fn lemma_members_among(group: GroupView, ids: Seq<WindowId>)
    ensures
        rehome::windows_of(group.windows).filter(model::is_one_of(ids)) == members_among(
            group,
            ids,
        ),
{
    let windows = rehome::windows_of(group.windows);
    assert(windows =~= Seq::new(group.windows.len(), |i: int| group.windows[i].window));
    lemma_same_filter(windows, model::is_one_of(ids), |window: WindowData|
        exists|k: int| 0 <= k < ids.len() && #[trigger] ids[k] == window.id);
}

proof fn lemma_same_filter(
    windows: Seq<WindowData>,
    first: spec_fn(WindowData) -> bool,
    second: spec_fn(WindowData) -> bool,
)
    requires
        forall|window: WindowData| #[trigger] first(window) == second(window),
    ensures
        windows.filter(first) == windows.filter(second),
    decreases windows.len(),
{
    reveal(Seq::filter);
    if windows.len() > 0 {
        lemma_same_filter(windows.drop_last(), first, second);
        assert(first(windows.last()) == second(windows.last()));
    }
}

proof fn lemma_display_moves(
    transaction: RiftTransaction,
    target: TargetView,
    workspace_name: Seq<char>,
    windows: Seq<WindowData>,
    replies: Seq<Reply>,
)
    ensures
        laws::operations(
            rehome::display_placement(transaction, target, workspace_name, windows),
            replies,
        ) == display_moves(transaction, target, workspace_name, windows),
{
    broadcast use laws::group_operations;

    assert(rehome::transfers_of(target, windows) =~= Seq::new(
        windows.len(),
        |i: int| steps::display_moving(target, windows[i]),
    ));
    assert(rehome::on_display_check(target, workspace_name, windows).conditions =~= Seq::new(
        windows.len(),
        |i: int| ConditionView::WindowIsOnDisplay(windows[i].id),
    ));
}

proof fn lemma_workspace_moves(
    transaction: RiftTransaction,
    target: TargetView,
    workspace_name: Seq<char>,
    windows: Seq<WindowData>,
    replies: Seq<Reply>,
)
    ensures
        laws::operations(
            rehome::workspace_placement(transaction, target, workspace_name, windows),
            replies,
        ) == workspace_moves(transaction, target, workspace_name, windows),
{
    broadcast use laws::group_operations;

    assert(rift::placements_of(target, windows) =~= Seq::new(
        windows.len(),
        |i: int| steps::workspace_moving(target, windows[i], false),
    ));
    assert(model::ids_of(windows) =~= Seq::new(windows.len(), |i: int| windows[i].id));
}

/// A group is sent home by these operations and no others.
pub proof fn a_group_is_sent_home_by_these_operations(
    transaction: RiftTransaction,
    group: GroupView,
    replies: Seq<Reply>,
)
    requires
        dialogue::run(rehome::group_placement(transaction, group), replies) is Finished,
    ensures
        laws::operations(rehome::group_placement(transaction, group), replies) == sendings(
            transaction,
            group,
            replies,
        ),
{
    broadcast use {dialogue::group_run, laws::lemma_operations_bind};

    reveal(rehome::group_placement);
    let windows = rehome::windows_of(group.windows);
    let name = group.workspace_name;
    let finding = rehome::destination(group);
    rehoming::lemma_destination_looks(group);
    laws::lemma_looking_takes_no_operation(finding, replies);
    let target = dialogue::run(finding, replies)->Finished_0;
    let one = laws::left_over(dialogue::run(finding, replies));
    let preparing = placement::target_preparation(transaction, target, name);
    steps::a_destination_is_prepared_as_far_as_needed(transaction, target, name, one);
    let two = laws::left_over(dialogue::run(preparing, one));
    let searching = rehome::off_display_from(target, windows, 0, Seq::empty());
    rehoming::lemma_off_display_looks(target, windows, 0, Seq::empty());
    laws::lemma_looking_takes_no_operation(searching, two);
    let elsewhere = dialogue::run(searching, two)->Finished_0;
    let three = laws::left_over(dialogue::run(searching, two));
    let moving = rehome::display_placement(transaction, target, name, elsewhere);
    lemma_display_moves(transaction, target, name, elsewhere, three);
    let four = laws::left_over(dialogue::run(moving, three));
    let ids = rehome::member_ids(group);
    let missing_search = rift::windows_missing_from_workspace(target, name, ids);
    looking::queries_only_look(target, name, name, Seq::empty(), arbitrary(), ids);
    laws::lemma_looking_takes_no_operation(missing_search, four);
    let missing = dialogue::run(missing_search, four)->Finished_0;
    let five = laws::left_over(dialogue::run(missing_search, four));
    let chosen = windows.filter(model::is_one_of(missing));
    lemma_members_among(group, missing);
    lemma_workspace_moves(transaction, target, name, chosen, five);
    let none = Seq::<OperationView>::empty();
    let prepared = steps::preparations(transaction, target, name);
    let moved = display_moves(transaction, target, name, elsewhere);
    let placed = workspace_moves(transaction, target, name, chosen);
    assert(none + placed =~= placed);
    assert(laws::operations(rehome::missing_placement(transaction, target, group), four)
        == placed);
    assert(none + (moved + placed) =~= moved + placed);
    assert(none + (prepared + (moved + placed)) =~= prepared + (moved + placed));
}

/// The operations that send the groups from this one on home, one after the other.
pub open spec fn all_sendings(
    transaction: RiftTransaction,
    groups: Seq<GroupView>,
    at: int,
    replies: Seq<Reply>,
) -> Seq<OperationView>
    decreases groups.len() - at,
{
    if 0 <= at < groups.len() {
        sendings(transaction, groups[at], replies) + all_sendings(
            transaction,
            groups,
            at + 1,
            laws::left_over(
                dialogue::run(rehome::group_placement(transaction, groups[at]), replies),
            ),
        )
    } else {
        Seq::empty()
    }
}

/// Each group is sent home, in order.
pub proof fn every_group_is_sent_home(
    transaction: RiftTransaction,
    groups: Seq<GroupView>,
    at: int,
    replies: Seq<Reply>,
)
    requires
        0 <= at <= groups.len(),
        dialogue::run(rehome::placements_from(transaction, groups, at), replies) is Finished,
    ensures
        laws::operations(rehome::placements_from(transaction, groups, at), replies)
            == all_sendings(transaction, groups, at, replies),
    decreases groups.len() - at,
{
    broadcast use {dialogue::group_run, laws::group_operations};

    reveal(rehome::placements_from);
    if at < groups.len() {
        a_group_is_sent_home_by_these_operations(transaction, groups[at], replies);
        let rest = laws::left_over(
            dialogue::run(rehome::group_placement(transaction, groups[at]), replies),
        );
        every_group_is_sent_home(transaction, groups, at + 1, rest);
    }
}

/// A journey sends each group home, within the time of a batch of all the windows of the source, and
/// then shows the source again.
pub proof fn a_journey_sends_every_group_home_and_shows_the_source(
    source: SourceView,
    groups: Seq<GroupView>,
    replies: Seq<Reply>,
)
    requires
        dialogue::run(rehome::journey(source, groups), replies) is Finished,
    ensures
        replies.len() > 2,
        ({
            let transaction = dialogue::run(
                transaction::begin_batch(source.windows.len()),
                replies,
            )->Finished_0;
            let asked = laws::requests(rehome::journey(source, groups), replies);
            &&& asked.len() > 2
            &&& asked[0] == RequestView::Outside(AskView::Now)
            &&& asked[1] == RequestView::Outside(AskView::Subscribe)
            &&& replies[0] is Now
            &&& transaction.step_timeout == 2_500
            &&& exists|target: TargetView|
                #[trigger] outcomes::is_read(
                    asked,
                    replies,
                    target,
                    source.workspace_name,
                    source.display_uuid,
                ) && laws::operations_of(asked) == all_sendings(
                    transaction,
                    groups,
                    0,
                    replies.skip(2),
                ) + steps::preparations(transaction, target, source.workspace_name)
        }),
{
    rehoming::lemma_journey_parts(source, groups, replies);
    let begun = transaction::begin_batch(source.windows.len());
    let transaction = dialogue::run(begun, replies)->Finished_0;
    lemma_begun(source.windows.len(), replies);
    let one = replies.skip(2);
    let placing = rehome::placements_from(transaction, groups, 0);
    let two = laws::left_over(dialogue::run(placing, one));
    let restoring = rehome::source_restoration(transaction, source);
    let three = laws::left_over(dialogue::run(restoring, two));
    let verifying = rehome::verification_from(groups, 0);
    every_group_is_sent_home(transaction, groups, 0, one);
    lemma_checks_submit_nothing(groups, three);
    let asked = laws::requests(rehome::journey(source, groups), replies);
    let start = seq![
        RequestView::Outside(AskView::Now),
        RequestView::Outside(AskView::Subscribe),
    ];
    let placed = laws::requests(placing, one);
    let restored = laws::requests(restoring, two);
    let verified = laws::requests(verifying, three);
    laws::each_request_has_its_reply(placing, one);
    laws::each_request_has_its_reply(restoring, two);
    let target = lemma_restored(transaction, source, two);
    let before = start + placed;
    assert(asked =~= before + (restored + verified));
    assert(replies.skip(before.len() as int) =~= two);
    laws::lemma_was_read_earlier(
        restored,
        verified,
        two,
        target,
        source.workspace_name,
        source.display_uuid,
    );
    laws::lemma_was_read_later(
        before,
        restored + verified,
        replies,
        target,
        source.workspace_name,
        source.display_uuid,
    );
    outcomes::lemma_read(asked, replies, target, source.workspace_name, source.display_uuid);
    laws::lemma_operations_of_append(start, placed);
    laws::lemma_operations_of_append(before, restored + verified);
    laws::lemma_operations_of_append(restored, verified);
    following::lemma_none_submitted(start);
    let none = Seq::<OperationView>::empty();
    let sent = all_sendings(transaction, groups, 0, one);
    let shown = steps::preparations(transaction, target, source.workspace_name);
    assert((none + sent) + (shown + none) =~= sent + shown);
    assert(asked[0] == start[0] && asked[1] == start[1]);
    assert(asked.len() > 2) by {
        assert(restored.len() > 0);
    }
}

/// Beginning a batch reads the clock and subscribes to events.
pub proof fn lemma_begun(item_count: nat, replies: Seq<Reply>)
    requires
        dialogue::run(transaction::begin_batch(item_count), replies) is Finished,
    ensures
        replies.len() > 1,
        replies[0] is Now,
        laws::requests(transaction::begin_batch(item_count), replies) == seq![
            RequestView::Outside(AskView::Now),
            RequestView::Outside(AskView::Subscribe),
        ],
        laws::left_over(dialogue::run(transaction::begin_batch(item_count), replies))
            == replies.skip(2),
        dialogue::run(transaction::begin_batch(item_count), replies)->Finished_0.step_timeout
            == 2_500,
{
    broadcast use {dialogue::group_run, laws::group_requests};

    assert(replies.len() > 0);
    assert(replies.skip(1).len() > 0);
    assert(replies.skip(1)[0] == replies[1]);
    assert(replies.skip(1).skip(1) =~= replies.skip(2));
    assert(laws::requests(transaction::begin_batch(item_count), replies) =~= seq![
        RequestView::Outside(AskView::Now),
        RequestView::Outside(AskView::Subscribe),
    ]);
}

proof fn lemma_restored(
    transaction: RiftTransaction,
    source: SourceView,
    replies: Seq<Reply>,
) -> (target: TargetView)
    requires
        dialogue::run(rehome::source_restoration(transaction, source), replies) is Finished,
    ensures
        replies.len() > 0,
        laws::requests(rehome::source_restoration(transaction, source), replies).len() > 0,
        laws::was_read(
            laws::requests(rehome::source_restoration(transaction, source), replies),
            replies,
            target,
            source.workspace_name,
            source.display_uuid,
        ),
        laws::operations(rehome::source_restoration(transaction, source), replies)
            == steps::preparations(transaction, target, source.workspace_name),
{
    broadcast use {dialogue::group_run, laws::group_requests, laws::group_operations};

    reveal(rehome::source_restoration);
    let name = source.workspace_name;
    let uuid = source.display_uuid;
    let displays = dialogue::run(rift::displays(), replies)->Finished_0;
    let reported = laws::requests(rift::displays(), replies);
    let one = laws::left_over(dialogue::run(rift::displays(), replies));
    laws::each_request_has_its_reply(rift::displays(), replies);
    laws::lemma_did_itself(rift::displays(), replies);
    let context = rift::target_context(name, uuid, displays);
    let read = laws::requests(context, one);
    let target = dialogue::run(context, one)->Finished_0;
    let two = laws::left_over(dialogue::run(context, one));
    laws::each_request_has_its_reply(context, one);
    laws::lemma_did_itself(context, one);
    let preparing = placement::target_preparation(transaction, target, name);
    let prepared = laws::requests(preparing, two);
    steps::a_destination_is_prepared_as_far_as_needed(transaction, target, name, two);
    laws::lemma_did_earlier(read, prepared, one, context, target);
    laws::lemma_did_later(reported, read + prepared, replies, context, target);
    laws::lemma_were_reported_earlier(reported, read + prepared, replies, displays);
    following::lemma_looks(name, uuid, displays);
    laws::lemma_no_operations(context, one);
    following::lemma_none_submitted(reported);
    let none = Seq::<OperationView>::empty();
    let shown = steps::preparations(transaction, target, name);
    assert(none + (none + shown) =~= shown);
    target
}

} // verus!
