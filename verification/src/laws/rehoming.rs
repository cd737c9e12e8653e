//! What holds of sending windows home.
use crate::dialogue;
use crate::dialogue::{AskView, Outcome, Program, Reply, RequestView};
use crate::laws;
use crate::laws::looking;
use crate::laws::placing;
use crate::model;
use crate::model::{CommandView, DisplayData, WindowData, WindowId};
use crate::policy::RoutedWindow;
use crate::rift;
use crate::rift::TargetView;
use crate::transaction;
use crate::transaction::RiftTransaction;
use crate::workflow::placement;
use crate::workflow::rehome;
use crate::workflow::rehome::{Errand, GroupView, Place, SourceView};
use vstd::prelude::*;

verus! {

broadcast use {dialogue::group_run, laws::group_count, dialogue::group_asks_only};

/// The home of a group.
pub open spec fn place_of(group: GroupView) -> Place {
    Place { display_uuid: group.display_uuid, workspace_name: group.workspace_name }
}

/// A filter keeps what it accepts.
pub proof fn lemma_filtered<T>(items: Seq<T>, kept: spec_fn(T) -> bool, item: T)
    ensures
        items.filter(kept).contains(item) <==> items.contains(item) && kept(item),
    decreases items.len(),
{
    reveal(Seq::filter);
    if items.len() > 0 {
        let fewer = items.drop_last();
        lemma_filtered(fewer, kept, item);
        assert(items =~= fewer.push(items.last()));
        assert(items.contains(item) <==> fewer.contains(item) || items.last() == item) by {
            if items.contains(item) {
                let i = items.index_of(item);
                if i < fewer.len() {
                    assert(fewer[i] == item);
                }
            }
            if fewer.contains(item) {
                let i = fewer.index_of(item);
                assert(items[i] == item);
            }
            if items.last() == item {
                assert(items[items.len() - 1] == item);
            }
        }
        let before = fewer.filter(kept);
        if kept(items.last()) {
            let after = before.push(items.last());
            assert(after.contains(item) <==> before.contains(item) || items.last() == item) by {
                if after.contains(item) {
                    let i = after.index_of(item);
                    if i < before.len() {
                        assert(before[i] == item);
                    }
                }
                if before.contains(item) {
                    let i = before.index_of(item);
                    assert(after[i] == item);
                }
                if items.last() == item {
                    assert(after[before.len() as int] == item);
                }
            }
        }
    }
}

/// Grouping by home leaves no window out and puts none elsewhere: each window stands in the
/// group of its home, each window of a group belongs there, and in each group the windows keep
/// their order.
pub proof fn every_window_stands_with_its_home(routed: Seq<RoutedWindow>)
    ensures
        forall|w: int|
            0 <= w < routed.len() ==> exists|g: int|
                0 <= g < rehome::grouped(routed).len() && place_of(
                    #[trigger] rehome::grouped(routed)[g],
                ) == rehome::home_of(#[trigger] routed[w]) && rehome::grouped(
                    routed,
                )[g].windows.contains(routed[w]),
        forall|g: int|
            0 <= g < rehome::grouped(routed).len() ==> (#[trigger] rehome::grouped(
                routed,
            )[g]).windows == routed.filter(
                rehome::belongs_to(place_of(rehome::grouped(routed)[g])),
            ),
{
    rehome::lemma_homes(routed);
    let homes = rehome::homes(routed);
    let groups = rehome::grouped(routed);
    assert forall|w: int| 0 <= w < routed.len() implies exists|g: int|
        0 <= g < groups.len() && place_of(#[trigger] groups[g]) == rehome::home_of(
            #[trigger] routed[w],
        ) && groups[g].windows.contains(routed[w]) by {
        let place = rehome::home_of(routed[w]);
        assert(homes.contains(place));
        let g = homes.index_of(place);
        assert(groups[g] == rehome::group_at(routed, place));
        assert(routed.contains(routed[w]));
        lemma_filtered(routed, rehome::belongs_to(place), routed[w]);
        assert(place_of(groups[g]) == place);
    }
    assert forall|g: int| 0 <= g < groups.len() implies (#[trigger] groups[g]).windows
        == routed.filter(rehome::belongs_to(place_of(groups[g]))) by {
        assert(groups[g] == rehome::group_at(routed, homes[g]));
        assert(place_of(groups[g]) == homes[g]);
    }
}

/// No home has two groups.
pub proof fn no_home_has_two_groups(routed: Seq<RoutedWindow>, first: int, second: int)
    requires
        0 <= first < second < rehome::grouped(routed).len(),
    ensures
        place_of(rehome::grouped(routed)[first]) != place_of(rehome::grouped(routed)[second]),
{
    rehome::lemma_homes(routed);
    let homes = rehome::homes(routed);
    assert(place_of(rehome::grouped(routed)[first]) == homes[first]);
    assert(place_of(rehome::grouped(routed)[second]) == homes[second]);
}

/// No group is empty.
pub proof fn no_group_is_empty(routed: Seq<RoutedWindow>, at: int)
    requires
        0 <= at < rehome::grouped(routed).len(),
    ensures
        rehome::grouped(routed)[at].windows.len() > 0,
{
    let place = rehome::homes(routed)[at];
    lemma_home_is_of_a_window(routed, at);
    let w = choose|w: int| 0 <= w < routed.len() && rehome::home_of(#[trigger] routed[w]) == place;
    assert(routed.contains(routed[w]));
    lemma_filtered(routed, rehome::belongs_to(place), routed[w]);
    assert(rehome::grouped(routed)[at].windows.contains(routed[w]));
}

proof fn lemma_home_is_of_a_window(routed: Seq<RoutedWindow>, at: int)
    requires
        0 <= at < rehome::homes(routed).len(),
    ensures
        exists|w: int|
            0 <= w < routed.len() && rehome::home_of(#[trigger] routed[w]) == rehome::homes(
                routed,
            )[at],
    decreases routed.len(),
{
    let fewer = routed.drop_last();
    let earlier = rehome::homes(fewer);
    if at < earlier.len() {
        lemma_home_is_of_a_window(fewer, at);
        let w = choose|w: int|
            0 <= w < fewer.len() && rehome::home_of(#[trigger] fewer[w]) == earlier[at];
        assert(routed[w] == fewer[w]);
    } else {
        assert(rehome::home_of(routed[routed.len() - 1]) == rehome::homes(routed)[at]);
    }
}

/// The groups stand in the order in which their homes come up: where one group stands before
/// another, a window of it comes before each window of the other.
pub proof fn groups_stand_in_the_order_of_first_appearance(
    routed: Seq<RoutedWindow>,
    first: int,
    second: int,
)
    requires
        0 <= first < second < rehome::grouped(routed).len(),
    ensures
        exists|w: int|
            0 <= w < routed.len() && rehome::home_of(#[trigger] routed[w]) == place_of(
                rehome::grouped(routed)[first],
            ) && forall|v: int|
                0 <= v < routed.len() && rehome::home_of(#[trigger] routed[v]) == place_of(
                    rehome::grouped(routed)[second],
                ) ==> w < v,
{
    assert(place_of(rehome::grouped(routed)[first]) == rehome::homes(routed)[first]);
    assert(place_of(rehome::grouped(routed)[second]) == rehome::homes(routed)[second]);
    lemma_homes_in_order(routed, first, second);
}

proof fn lemma_homes_in_order(routed: Seq<RoutedWindow>, first: int, second: int)
    requires
        0 <= first < second < rehome::homes(routed).len(),
    ensures
        exists|w: int|
            0 <= w < routed.len() && rehome::home_of(#[trigger] routed[w]) == rehome::homes(
                routed,
            )[first] && forall|v: int|
                0 <= v < routed.len() && rehome::home_of(#[trigger] routed[v]) == rehome::homes(
                    routed,
                )[second] ==> w < v,
    decreases routed.len(),
{
    let fewer = routed.drop_last();
    let earlier = rehome::homes(fewer);
    let homes = rehome::homes(routed);
    assert(homes[first] == earlier[first]);
    let w = if second < earlier.len() {
        lemma_homes_in_order(fewer, first, second);
        choose|w: int|
            0 <= w < fewer.len() && rehome::home_of(#[trigger] fewer[w]) == earlier[first]
                && forall|v: int|
                0 <= v < fewer.len() && rehome::home_of(#[trigger] fewer[v]) == earlier[second]
                    ==> w < v
    } else {
        lemma_home_is_of_a_window(fewer, first);
        rehome::lemma_homes(fewer);
        choose|w: int|
            0 <= w < fewer.len() && rehome::home_of(#[trigger] fewer[w]) == earlier[first]
    };
    assert(routed[w] == fewer[w]);
    assert forall|v: int|
        0 <= v < routed.len() && rehome::home_of(#[trigger] routed[v])
            == homes[second] implies w < v by {
        if v < fewer.len() {
            assert(fewer[v] == routed[v]);
            if second >= earlier.len() {
                assert(earlier.contains(rehome::home_of(fewer[v])));
            }
        }
    }
}

/// The windows of the groups, one group after the other.
pub open spec fn gathered(groups: Seq<GroupView>) -> Seq<RoutedWindow>
    decreases groups.len(),
{
    if groups.len() == 0 {
        Seq::empty()
    } else {
        gathered(groups.drop_last()) + groups.last().windows
    }
}

/// The group with one window more.
spec fn joined_by(group: GroupView, routed: RoutedWindow) -> GroupView {
    GroupView { windows: group.windows.push(routed), ..group }
}

proof fn lemma_gathered_one_more(groups: Seq<GroupView>, at: int, routed: RoutedWindow)
    requires
        0 <= at < groups.len(),
    ensures
        gathered(groups.update(at, joined_by(groups[at], routed))).to_multiset() == gathered(
            groups,
        ).to_multiset().insert(routed),
    decreases groups.len(),
{
    broadcast use vstd::seq_lib::group_to_multiset_ensures;

    let more = groups.update(at, joined_by(groups[at], routed));
    let earlier = groups.drop_last();
    let last = groups.last().windows;
    vstd::seq_lib::lemma_multiset_commutative(gathered(earlier), last);
    vstd::seq_lib::lemma_multiset_commutative(gathered(more.drop_last()), more.last().windows);
    if at == groups.len() - 1 {
        assert(more.drop_last() =~= earlier);
        assert(more.last().windows =~= last.push(routed));
    } else {
        lemma_gathered_one_more(earlier, at, routed);
        assert(more.drop_last() =~= earlier.update(at, joined_by(earlier[at], routed)));
        assert(more.last() == groups.last());
    }
    assert(gathered(more).to_multiset() =~= gathered(groups).to_multiset().insert(routed));
}

/// Grouping keeps the windows: one group after the other they are a permutation of what was
/// there, so that each window stands in as many places as before.
pub proof fn grouping_permutes_the_windows(routed: Seq<RoutedWindow>)
    ensures
        gathered(rehome::grouped(routed)).to_multiset() == routed.to_multiset(),
    decreases routed.len(),
{
    broadcast use vstd::seq_lib::group_to_multiset_ensures;

    let groups = rehome::grouped(routed);
    if routed.len() == 0 {
        assert(gathered(groups) =~= routed);
    } else {
        let fewer = routed.drop_last();
        let last = routed.last();
        let place = rehome::home_of(last);
        let before = rehome::grouped(fewer);
        let homes = rehome::homes(routed);
        let earlier = rehome::homes(fewer);
        grouping_permutes_the_windows(fewer);
        rehome::lemma_homes(fewer);
        assert(routed =~= fewer.push(last));
        assert forall|p: Place| #[trigger] routed.filter(rehome::belongs_to(p)) == if p == place {
            fewer.filter(rehome::belongs_to(p)).push(last)
        } else {
            fewer.filter(rehome::belongs_to(p))
        } by {
            reveal(Seq::filter);
        }
        if earlier.contains(place) {
            let at = earlier.index_of(place);
            assert forall|g: int| 0 <= g < groups.len() implies groups[g] == before.update(
                at,
                joined_by(before[at], last),
            )[g] by {
                assert(g != at ==> earlier[g] != place);
            }
            assert(groups =~= before.update(at, joined_by(before[at], last)));
            lemma_gathered_one_more(before, at, last);
        } else {
            assert forall|g: int| 0 <= g < before.len() implies groups.drop_last()[g]
                == before[g] by {
                assert(earlier[g] != place);
            }
            assert(groups.drop_last() =~= before);
            lemma_no_window_belongs(fewer, place);
            assert(groups.last().windows =~= seq![last]);
            assert(gathered(groups) =~= gathered(before).push(last));
        }
        assert(routed.to_multiset() =~= fewer.to_multiset().insert(last));
    }
}

proof fn lemma_no_window_belongs(routed: Seq<RoutedWindow>, place: Place)
    requires
        !rehome::homes(routed).contains(place),
    ensures
        routed.filter(rehome::belongs_to(place)) == Seq::<RoutedWindow>::empty(),
{
    rehome::lemma_homes(routed);
    let kept = routed.filter(rehome::belongs_to(place));
    if kept.len() > 0 {
        lemma_filtered(routed, rehome::belongs_to(place), kept[0]);
        assert(kept.contains(kept[0]));
        let w = routed.index_of(kept[0]);
        assert(rehome::homes(routed).contains(rehome::home_of(routed[w])));
    }
    assert(kept =~= Seq::<RoutedWindow>::empty());
}

/// Looks whether a group is at home: whether its windows are in its workspace and on its
/// display, as the displays and the workspace are now.
#[verifier::opaque]
pub open spec fn home_check(group: GroupView) -> Program<bool> {
    dialogue::bind(
        rehome::destination(group),
        |target: TargetView|
            rift::windows_are_at(target, group.workspace_name, rehome::member_ids(group)),
    )
}

/// Where a group is found at home, the displays were read, and in them the group's workspace on
/// its display; then the workspaces of that display's space and each of the group's windows were
/// asked for, and the replies show each window as a member of the workspace, with its frame on
/// the display.
pub proof fn a_home_check_shows_the_group_at_home(group: GroupView, replies: Seq<Reply>)
    requires
        dialogue::run(home_check(group), replies) matches Outcome::Finished(there, _) && there,
    ensures
        ({
            let finding = rehome::destination(group);
            let found = laws::requests(finding, replies);
            let target = dialogue::run(finding, replies)->Finished_0;
            let look = replies.skip(found.len() as int);
            let ids = rehome::member_ids(group);
            &&& dialogue::run(finding, replies) is Finished
            &&& target.display_uuid == group.display_uuid
            &&& laws::was_read(
                found,
                replies,
                target,
                group.workspace_name,
                group.display_uuid,
            )
            &&& laws::requests(home_check(group), replies) == found + (seq![
                RequestView::Outside(AskView::Workspaces { space: target.space }),
            ] + looking::asking_for(ids))
            &&& look.len() >= ids.len() + 1
            &&& look[0] matches Reply::Workspaces(workspaces) && model::first(
                workspaces@,
                model::has_name(group.workspace_name),
            ) matches Some(workspace) && forall|i: int|
                0 <= i < ids.len() ==> model::has_window(workspace.windows@, #[trigger] ids[i])
                    && looking::shows_on_display(target, look[i + 1])
        }),
{
    broadcast use laws::group_requests;

    reveal(home_check);
    let finding = rehome::destination(group);
    let found = laws::requests(finding, replies);
    let target = dialogue::run(finding, replies)->Finished_0;
    let look = replies.skip(found.len() as int);
    let ids = rehome::member_ids(group);
    laws::each_request_has_its_reply(finding, replies);
    lemma_destination(group, replies);
    looking::windows_at_a_destination_are_asked_for(target, group.workspace_name, ids, look);
    looking::windows_at_a_destination_are_members_on_its_display(
        target,
        group.workspace_name,
        ids,
        look,
    );
}

proof fn lemma_destination(group: GroupView, replies: Seq<Reply>)
    requires
        dialogue::run(rehome::destination(group), replies) is Finished,
    ensures
        dialogue::run(rehome::destination(group), replies)->Finished_0.display_uuid
            == group.display_uuid,
        laws::was_read(
            laws::requests(rehome::destination(group), replies),
            replies,
            dialogue::run(rehome::destination(group), replies)->Finished_0,
            group.workspace_name,
            group.display_uuid,
        ),
{
    broadcast use laws::group_requests;

    let target = dialogue::run(rehome::destination(group), replies)->Finished_0;
    let displays = dialogue::run(rift::displays(), replies)->Finished_0;
    let reported = laws::requests(rift::displays(), replies);
    let rest = laws::left_over(dialogue::run(rift::displays(), replies));
    laws::each_request_has_its_reply(rift::displays(), replies);
    laws::lemma_did_itself(rift::displays(), replies);
    let context = rift::target_context(group.workspace_name, group.display_uuid, displays);
    let read = laws::requests(context, rest);
    laws::lemma_did_itself(context, rest);
    laws::lemma_did_later(reported, read, replies, context, target);
    laws::lemma_were_reported_earlier(reported, read, replies, displays);
    looking::a_destination_is_on_its_display(
        group.workspace_name,
        group.display_uuid,
        displays,
        rest,
    );
}

/// Whether the home check of each group from this one on was made, and found it at home.
#[verifier::opaque]
pub open spec fn found_at_home(
    asked: Seq<RequestView>,
    replies: Seq<Reply>,
    groups: Seq<GroupView>,
    at: int,
) -> bool {
    forall|g: int|
        at <= g < groups.len() ==> laws::did(
            asked,
            replies,
            home_check(#[trigger] groups[g]),
            true,
        )
}

proof fn lemma_found_one_more(
    groups: Seq<GroupView>,
    at: int,
    first: Seq<RequestView>,
    next: Seq<RequestView>,
    replies: Seq<Reply>,
)
    requires
        0 <= at < groups.len(),
        first.len() <= replies.len(),
        laws::did(first, replies, home_check(groups[at]), true),
        found_at_home(next, replies.skip(first.len() as int), groups, at + 1),
    ensures
        found_at_home(first + next, replies, groups, at),
{
    reveal(found_at_home);
    assert forall|g: int| at <= g < groups.len() implies laws::did(
        first + next,
        replies,
        home_check(#[trigger] groups[g]),
        true,
    ) by {
        if g == at {
            laws::lemma_did_earlier(first, next, replies, home_check(groups[g]), true);
        } else {
            laws::lemma_did_later(first, next, replies, home_check(groups[g]), true);
        }
    }
}

proof fn lemma_verification_step(groups: Seq<GroupView>, at: int, replies: Seq<Reply>)
    requires
        0 <= at < groups.len(),
        dialogue::run(rehome::verification_from(groups, at), replies) is Finished,
    ensures
        ({
            let checking = home_check(groups[at]);
            let rest = laws::left_over(dialogue::run(checking, replies));
            let next = rehome::verification_from(groups, at + 1);
            &&& dialogue::run(checking, replies) == Outcome::Finished(true, rest)
            &&& dialogue::run(next, rest) is Finished
            &&& laws::requests(rehome::verification_from(groups, at), replies) == laws::requests(
                checking,
                replies,
            ) + laws::requests(next, rest)
        }),
{
    broadcast use laws::group_requests;

    reveal(rehome::verification_from);
    reveal(home_check);
    let group = groups[at];
    let finding = rehome::destination(group);
    let found = laws::requests(finding, replies);
    let target = dialogue::run(finding, replies)->Finished_0;
    let look = laws::left_over(dialogue::run(finding, replies));
    let there = rift::windows_are_at(target, group.workspace_name, rehome::member_ids(group));
    let looked = laws::requests(there, look);
    let rest = laws::left_over(dialogue::run(there, look));
    let next = laws::requests(rehome::verification_from(groups, at + 1), rest);
    assert(looked + Seq::<RequestView>::empty() =~= looked);
    assert(found + (looked + next) =~= (found + looked) + next);
}

proof fn lemma_verified(groups: Seq<GroupView>, at: int, replies: Seq<Reply>)
    requires
        0 <= at <= groups.len(),
        dialogue::run(rehome::verification_from(groups, at), replies) is Finished,
    ensures
        found_at_home(
            laws::requests(rehome::verification_from(groups, at), replies),
            replies,
            groups,
            at,
        ),
    decreases groups.len() - at,
{
    if at < groups.len() {
        let checking = home_check(groups[at]);
        lemma_verification_step(groups, at, replies);
        laws::lemma_did_itself(checking, replies);
        laws::each_request_has_its_reply(checking, replies);
        let rest = laws::left_over(dialogue::run(checking, replies));
        lemma_verified(groups, at + 1, rest);
        lemma_found_one_more(
            groups,
            at,
            laws::requests(checking, replies),
            laws::requests(rehome::verification_from(groups, at + 1), rest),
            replies,
        );
    } else {
        reveal(found_at_home);
    }
}

proof fn lemma_search_step(groups: Seq<GroupView>, at: int, replies: Seq<Reply>)
    requires
        0 <= at < groups.len(),
        dialogue::run(rehome::are_at_home_from(groups, at), replies) matches Outcome::Finished(
            there,
            _,
        ) && there,
    ensures
        ({
            let checking = home_check(groups[at]);
            let rest = laws::left_over(dialogue::run(checking, replies));
            let next = rehome::are_at_home_from(groups, at + 1);
            &&& dialogue::run(checking, replies) == Outcome::Finished(true, rest)
            &&& dialogue::run(next, rest) == Outcome::Finished(
                true,
                laws::left_over(dialogue::run(next, rest)),
            )
            &&& laws::requests(rehome::are_at_home_from(groups, at), replies) == laws::requests(
                checking,
                replies,
            ) + laws::requests(next, rest)
        }),
{
    broadcast use laws::group_requests;

    reveal(rehome::are_at_home_from);
    reveal(home_check);
    let group = groups[at];
    let finding = rehome::destination(group);
    let found = laws::requests(finding, replies);
    let target = dialogue::run(finding, replies)->Finished_0;
    let look = laws::left_over(dialogue::run(finding, replies));
    let there = rift::windows_are_at(target, group.workspace_name, rehome::member_ids(group));
    let looked = laws::requests(there, look);
    let rest = laws::left_over(dialogue::run(there, look));
    let next = laws::requests(rehome::are_at_home_from(groups, at + 1), rest);
    assert(found + (looked + next) =~= (found + looked) + next);
}

proof fn lemma_at_home(groups: Seq<GroupView>, at: int, replies: Seq<Reply>)
    requires
        0 <= at <= groups.len(),
        dialogue::run(rehome::are_at_home_from(groups, at), replies) matches Outcome::Finished(
            there,
            _,
        ) && there,
    ensures
        found_at_home(
            laws::requests(rehome::are_at_home_from(groups, at), replies),
            replies,
            groups,
            at,
        ),
    decreases groups.len() - at,
{
    if at < groups.len() {
        let checking = home_check(groups[at]);
        lemma_search_step(groups, at, replies);
        laws::lemma_did_itself(checking, replies);
        laws::each_request_has_its_reply(checking, replies);
        let rest = laws::left_over(dialogue::run(checking, replies));
        lemma_at_home(groups, at + 1, rest);
        lemma_found_one_more(
            groups,
            at,
            laws::requests(checking, replies),
            laws::requests(rehome::are_at_home_from(groups, at + 1), rest),
            replies,
        );
    } else {
        reveal(found_at_home);
    }
}

/// Whether the last check begins at this request: from there on, nothing was asked but whether
/// each group is at home, and each was found there. Either the check is the one that precedes
/// the moves, and then it follows directly on the errand; or it is the one that concludes them,
/// and then the source was shown again directly before.
#[verifier::opaque]
pub open spec fn is_last_check(
    asked: Seq<RequestView>,
    replies: Seq<Reply>,
    errand: Errand,
    errand_asked: Seq<RequestView>,
    at: int,
) -> bool {
    let groups = rehome::grouped(errand.routed);
    let check = asked.skip(at);
    let look = replies.skip(at);
    &&& 0 <= at <= asked.len()
    &&& at <= replies.len()
    &&& found_at_home(check, look, groups, 0)
    &&& {
        ||| asked.take(at) == errand_asked && check == laws::requests(
            rehome::are_at_home_from(groups, 0),
            look,
        )
        ||| was_shown_again(asked.take(at), replies, errand.source) && check == laws::requests(
            rehome::verification_from(groups, 0),
            look,
        )
    }
}

/// Whether the last of these requests showed the source again.
#[verifier::opaque]
pub open spec fn was_shown_again(
    asked: Seq<RequestView>,
    replies: Seq<Reply>,
    source: SourceView,
) -> bool {
    exists|transaction: RiftTransaction|
        laws::ended_with(
            asked,
            replies,
            #[trigger] rehome::source_restoration(transaction, source),
            (),
        )
}

/// Where the source was shown again, it was read anew as a destination, and brought to be shown.
pub proof fn the_source_is_shown_where_it_was_read(
    transaction: RiftTransaction,
    source: SourceView,
    replies: Seq<Reply>,
)
    requires
        dialogue::run(rehome::source_restoration(transaction, source), replies) is Finished,
    ensures
        exists|target: TargetView|
            laws::was_read(
                laws::requests(rehome::source_restoration(transaction, source), replies),
                replies,
                target,
                source.workspace_name,
                source.display_uuid,
            ) && target.display_uuid == source.display_uuid && laws::ended_with(
                laws::requests(rehome::source_restoration(transaction, source), replies),
                replies,
                #[trigger] placement::target_preparation(
                    transaction,
                    target,
                    source.workspace_name,
                ),
                (),
            ),
{
    broadcast use laws::group_requests;

    reveal(rehome::source_restoration);
    let displays = dialogue::run(rift::displays(), replies)->Finished_0;
    let reported = laws::requests(rift::displays(), replies);
    let one = laws::left_over(dialogue::run(rift::displays(), replies));
    laws::each_request_has_its_reply(rift::displays(), replies);
    laws::lemma_did_itself(rift::displays(), replies);
    let context = rift::target_context(source.workspace_name, source.display_uuid, displays);
    let read = laws::requests(context, one);
    let target = dialogue::run(context, one)->Finished_0;
    let two = laws::left_over(dialogue::run(context, one));
    laws::each_request_has_its_reply(context, one);
    laws::lemma_did_itself(context, one);
    let preparing = placement::target_preparation(transaction, target, source.workspace_name);
    let prepared = laws::requests(preparing, two);
    laws::lemma_did_itself(preparing, two);
    laws::lemma_did_later(read, prepared, one, preparing, ());
    laws::lemma_did_later(reported, read + prepared, replies, preparing, ());
    laws::lemma_did_earlier(read, prepared, one, context, target);
    laws::lemma_did_later(reported, read + prepared, replies, context, target);
    laws::lemma_were_reported_earlier(reported, read + prepared, replies, displays);
    looking::a_destination_is_on_its_display(
        source.workspace_name,
        source.display_uuid,
        displays,
        one,
    );
}

proof fn lemma_nothing_to_do(errand: Errand, replies: Seq<Reply>)
    requires
        errand.routed.len() == 0,
    ensures
        laws::requests(rehome::journey_if_needed(errand.source, errand.routed), replies)
            == Seq::<RequestView>::empty(),
{
    reveal(rehome::journey_if_needed);
}

proof fn lemma_journey(source: SourceView, groups: Seq<GroupView>, replies: Seq<Reply>) -> (until:
    Seq<RequestView>)
    requires
        dialogue::run(rehome::journey(source, groups), replies) is Finished,
    ensures
        until.len() <= replies.len(),
        was_shown_again(until, replies, source),
        dialogue::run(
            rehome::verification_from(groups, 0),
            replies.skip(until.len() as int),
        ) is Finished,
        laws::requests(rehome::journey(source, groups), replies) == until + laws::requests(
            rehome::verification_from(groups, 0),
            replies.skip(until.len() as int),
        ),
{
    let begun = transaction::begin_batch(source.windows.len());
    let began = laws::requests(begun, replies);
    let transaction = dialogue::run(begun, replies)->Finished_0;
    let one = laws::left_over(dialogue::run(begun, replies));
    let placing = rehome::placements_from(transaction, groups, 0);
    let placed = laws::requests(placing, one);
    let two = laws::left_over(dialogue::run(placing, one));
    let restoring = rehome::source_restoration(transaction, source);
    lemma_journey_parts(source, groups, replies);
    laws::each_request_has_its_reply(begun, replies);
    laws::each_request_has_its_reply(placing, one);
    laws::each_request_has_its_reply(restoring, two);
    let until = lemma_three_parts(
        began,
        placed,
        laws::requests(rehome::verification_from(groups, 0), laws::left_over(
            dialogue::run(restoring, two),
        )),
        replies,
        restoring,
    );
    assert(was_shown_again(until, replies, source)) by {
        reveal(was_shown_again);
    }
    until
}

/// What a journey consists of.
pub proof fn lemma_journey_parts(source: SourceView, groups: Seq<GroupView>, replies: Seq<Reply>)
    requires
        dialogue::run(rehome::journey(source, groups), replies) is Finished,
    ensures
        ({
            let begun = transaction::begin_batch(source.windows.len());
            let transaction = dialogue::run(begun, replies)->Finished_0;
            let one = laws::left_over(dialogue::run(begun, replies));
            let placing = rehome::placements_from(transaction, groups, 0);
            let two = laws::left_over(dialogue::run(placing, one));
            let restoring = rehome::source_restoration(transaction, source);
            let three = laws::left_over(dialogue::run(restoring, two));
            let verifying = rehome::verification_from(groups, 0);
            &&& dialogue::run(begun, replies) is Finished
            &&& dialogue::run(placing, one) is Finished
            &&& dialogue::run(restoring, two) is Finished
            &&& dialogue::run(verifying, three) is Finished
            &&& laws::requests(rehome::journey(source, groups), replies) == laws::requests(
                begun,
                replies,
            ) + (laws::requests(placing, one) + (laws::requests(restoring, two) + laws::requests(
                verifying,
                three,
            )))
        }),
{
    broadcast use laws::group_requests;

    reveal(rehome::journey);
}

proof fn lemma_three_parts(
    first: Seq<RequestView>,
    second: Seq<RequestView>,
    last: Seq<RequestView>,
    replies: Seq<Reply>,
    third: Program<()>,
) -> (until: Seq<RequestView>)
    requires
        first.len() <= replies.len(),
        second.len() <= replies.len() - first.len(),
        ({
            let two = replies.skip(first.len() as int).skip(second.len() as int);
            dialogue::run(third, two) is Finished
        }),
    ensures
        ({
            let two = replies.skip(first.len() as int).skip(second.len() as int);
            &&& until.len() <= replies.len()
            &&& laws::ended_with(until, replies, third, ())
            &&& first + (second + (laws::requests(third, two) + last)) == until + last
            &&& replies.skip(until.len() as int) == laws::left_over(dialogue::run(third, two))
        }),
{
    let one = replies.skip(first.len() as int);
    let two = one.skip(second.len() as int);
    let own = laws::requests(third, two);
    laws::each_request_has_its_reply(third, two);
    laws::lemma_did_itself(third, two);
    laws::lemma_did_later(second, own, one, third, ());
    laws::lemma_did_later(first, second + own, replies, third, ());
    let until = first + (second + own);
    assert(first + (second + (own + last)) =~= until + last);
    assert(replies.skip(until.len() as int) =~= two.skip(own.len() as int));
    until
}

proof fn lemma_journey_if_needed(errand: Errand, earlier: Seq<RequestView>, replies: Seq<Reply>)
    requires
        errand.routed.len() > 0,
        earlier.len() <= replies.len(),
        dialogue::run(
            rehome::journey_if_needed(errand.source, errand.routed),
            replies.skip(earlier.len() as int),
        ) is Finished,
    ensures
        exists|at: int|
            is_last_check(
                earlier + laws::requests(
                    rehome::journey_if_needed(errand.source, errand.routed),
                    replies.skip(earlier.len() as int),
                ),
                replies,
                errand,
                earlier,
                at,
            ),
{
    broadcast use laws::group_requests;

    reveal(rehome::journey_if_needed);
    reveal(is_last_check);
    let from = replies.skip(earlier.len() as int);
    let going = rehome::journey_if_needed(errand.source, errand.routed);
    let asked = earlier + laws::requests(going, from);
    let groups = rehome::grouped(errand.routed);
    let home = rehome::are_at_home_from(groups, 0);
    let looked = laws::requests(home, from);
    let one = laws::left_over(dialogue::run(home, from));
    laws::each_request_has_its_reply(home, from);
    if dialogue::run(home, from)->Finished_0 {
        let at = earlier.len() as int;
        lemma_at_home(groups, 0, from);
        assert(looked + Seq::<RequestView>::empty() =~= looked);
        assert(asked.skip(at) =~= looked);
        assert(asked.take(at) =~= earlier);
        assert(is_last_check(asked, replies, errand, earlier, at));
    } else {
        let until = lemma_journey(errand.source, groups, one);
        assert(laws::requests(going, from) == looked + laws::requests(
            rehome::journey(errand.source, groups),
            one,
        ));
        lemma_journey_is_last(errand, earlier, looked, until, replies);
    }
}

proof fn lemma_journey_is_last(
    errand: Errand,
    earlier: Seq<RequestView>,
    looked: Seq<RequestView>,
    until: Seq<RequestView>,
    replies: Seq<Reply>,
)
    requires
        earlier.len() + looked.len() + until.len() <= replies.len(),
        ({
            let one = replies.skip(earlier.len() as int).skip(looked.len() as int);
            &&& was_shown_again(until, one, errand.source)
            &&& dialogue::run(
                rehome::verification_from(rehome::grouped(errand.routed), 0),
                one.skip(until.len() as int),
            ) is Finished
        }),
    ensures
        exists|at: int|
            is_last_check(
                earlier + (looked + (until + laws::requests(
                    rehome::verification_from(rehome::grouped(errand.routed), 0),
                    replies.skip(earlier.len() as int).skip(looked.len() as int).skip(
                        until.len() as int,
                    ),
                ))),
                replies,
                errand,
                earlier,
                at,
            ),
{
    reveal(is_last_check);
    reveal(was_shown_again);
    let groups = rehome::grouped(errand.routed);
    let from = replies.skip(earlier.len() as int);
    let one = from.skip(looked.len() as int);
    let two = one.skip(until.len() as int);
    let verified = laws::requests(rehome::verification_from(groups, 0), two);
    let asked = earlier + (looked + (until + verified));
    let transaction = choose|transaction: RiftTransaction|
        laws::ended_with(
            until,
            one,
            #[trigger] rehome::source_restoration(transaction, errand.source),
            (),
        );
    let restoring = rehome::source_restoration(transaction, errand.source);
    lemma_ended_is_done(until, one, restoring);
    laws::lemma_did_later(looked, until, from, restoring, ());
    laws::lemma_did_later(earlier, looked + until, replies, restoring, ());
    lemma_verified(groups, 0, two);
    let before = earlier + (looked + until);
    let at = before.len() as int;
    assert(asked.take(at) =~= before);
    assert(asked.skip(at) =~= verified);
    assert(replies.skip(at) =~= two);
    assert(was_shown_again(asked.take(at), replies, errand.source));
    assert(is_last_check(asked, replies, errand, earlier, at));
}

proof fn lemma_ended_is_done(asked: Seq<RequestView>, replies: Seq<Reply>, program: Program<()>)
    requires
        laws::ended_with(asked, replies, program, ()),
    ensures
        laws::did(asked, replies, program, ()),
{
}

/// `rehome` that has succeeded asked, where no window has a home, for nothing but the errand.
/// Else the last that was asked is whether each group of windows is at home, on the display that
/// the group belongs to as it was read then, and each was found there: before anything was
/// moved, or after the moves and once the source was shown again.
pub proof fn rehome_ends_with_all_at_home(
    workspace_name: Option<Seq<char>>,
    replies: Seq<Reply>,
)
    requires
        dialogue::run(rehome::rehome_program(workspace_name), replies) is Finished,
    ensures
        dialogue::run(rehome::errand(workspace_name), replies) is Finished,
        ({
            let asked = laws::requests(rehome::rehome_program(workspace_name), replies);
            let errand = dialogue::run(rehome::errand(workspace_name), replies)->Finished_0;
            let errand_asked = laws::requests(rehome::errand(workspace_name), replies);
            if errand.routed.len() == 0 {
                asked == errand_asked
            } else {
                exists|at: int| is_last_check(asked, replies, errand, errand_asked, at)
            }
        }),
{
    broadcast use laws::group_requests;

    let finding = rehome::errand(workspace_name);
    let found = laws::requests(finding, replies);
    let errand = dialogue::run(finding, replies)->Finished_0;
    laws::each_request_has_its_reply(finding, replies);
    let from = replies.skip(found.len() as int);
    let asked = laws::requests(rehome::rehome_program(workspace_name), replies);
    assert(asked == found + laws::requests(
        rehome::journey_if_needed(errand.source, errand.routed),
        from,
    ));
    if errand.routed.len() == 0 {
        lemma_nothing_to_do(errand, from);
        assert(found + Seq::<RequestView>::empty() =~= found);
    } else {
        lemma_journey_if_needed(errand, found, replies);
    }
}

/// The replies that are left when it is time to look whether this window is on the display:
/// those before it have been looked for.
pub open spec fn left_for_display(
    target: TargetView,
    windows: Seq<WindowData>,
    replies: Seq<Reply>,
    at: int,
) -> Seq<Reply>
    decreases at,
{
    if at <= 0 {
        replies
    } else {
        laws::left_over(
            dialogue::run(
                rift::window_is_on_display(target, windows[at - 1].id),
                left_for_display(target, windows, replies, at - 1),
            ),
        )
    }
}

/// Accepts the windows whose own look does not show them on the display.
pub open spec fn shows_elsewhere(
    target: TargetView,
    windows: Seq<WindowData>,
    replies: Seq<Reply>,
) -> spec_fn(int) -> bool {
    |at: int|
        dialogue::run(
            rift::window_is_on_display(target, windows[at].id),
            left_for_display(target, windows, replies, at),
        )->Finished_0 == false
}

proof fn lemma_elsewhere_are_picked(
    target: TargetView,
    windows: Seq<WindowData>,
    at: int,
    replies: Seq<Reply>,
)
    requires
        0 <= at <= windows.len(),
        ({
            let found = looking::picked_before(
                windows,
                shows_elsewhere(target, windows, replies),
                at,
            );
            dialogue::run(
                rehome::off_display_from(target, windows, at, found),
                left_for_display(target, windows, replies, at),
            ) is Finished
        }),
    ensures
        ({
            let picks = shows_elsewhere(target, windows, replies);
            let found = looking::picked_before(windows, picks, at);
            dialogue::run(
                rehome::off_display_from(target, windows, at, found),
                left_for_display(target, windows, replies, at),
            )->Finished_0 == looking::picked(windows, picks)
        }),
    decreases windows.len() - at,
{
    if at < windows.len() {
        looking::lemma_picked_step(windows, shows_elsewhere(target, windows, replies), at);
        let looked = rift::window_is_on_display(target, windows[at].id);
        let before = left_for_display(target, windows, replies, at);
        assert(dialogue::run(looked, before) is Finished);
        assert(left_for_display(target, windows, replies, at + 1) == laws::left_over(
            dialogue::run(looked, before),
        ));
        lemma_elsewhere_are_picked(target, windows, at + 1, replies);
    }
}

/// The windows that are moved to the display are exactly those, in order, whose own look did not
/// show them there.
pub proof fn exactly_the_windows_elsewhere_are_found(
    target: TargetView,
    windows: Seq<WindowData>,
    replies: Seq<Reply>,
)
    requires
        dialogue::run(
            rehome::off_display_from(target, windows, 0, Seq::empty()),
            replies,
        ) is Finished,
    ensures
        dialogue::run(
            rehome::off_display_from(target, windows, 0, Seq::empty()),
            replies,
        )->Finished_0 == looking::picked(windows, shows_elsewhere(target, windows, replies)),
{
    looking::lemma_picked_none(windows, shows_elsewhere(target, windows, replies));
    lemma_elsewhere_are_picked(target, windows, 0, replies);
}

/// Finding the windows that are not on a display does no more than look.
pub proof fn lemma_off_display_looks(
    target: TargetView,
    windows: Seq<WindowData>,
    at: int,
    found: Seq<WindowData>,
)
    ensures
        dialogue::asks_only(
            rehome::off_display_from(target, windows, at, found),
            dialogue::looks(),
        ),
    decreases windows.len() - at,
{
    if 0 <= at < windows.len() {
        looking::queries_only_look(
            target,
            Seq::empty(),
            Seq::empty(),
            Seq::empty(),
            windows[at].id,
            Seq::empty(),
        );
        lemma_off_display_looks(target, windows, at + 1, found);
        lemma_off_display_looks(target, windows, at + 1, found.push(windows[at]));
    }
}

/// Finding a group's workspace does no more than look.
pub proof fn lemma_destination_looks(group: GroupView)
    ensures
        dialogue::asks_only(rehome::destination(group), dialogue::looks()),
{
    assert forall|displays: Seq<DisplayData>|
        dialogue::asks_only(
            #[trigger] rift::target_context(group.workspace_name, group.display_uuid, displays),
            dialogue::looks(),
        ) by {
        looking::queries_only_look(
            arbitrary(),
            group.workspace_name,
            group.display_uuid,
            displays,
            arbitrary(),
            Seq::empty(),
        );
    }
}

proof fn lemma_display_placement_commands(
    transaction: RiftTransaction,
    target: TargetView,
    workspace_name: Seq<char>,
    windows: Seq<WindowData>,
    replies: Seq<Reply>,
)
    ensures
        laws::commands(
            rehome::display_placement(transaction, target, workspace_name, windows),
            replies,
        ) == rehome::transfers_of(target, windows),
{
    broadcast use laws::group_commands;

    if windows.len() == 0 {
        assert(rehome::transfers_of(target, windows) =~= Seq::<CommandView>::empty());
    }
}

proof fn lemma_workspace_placement_commands(
    transaction: RiftTransaction,
    target: TargetView,
    workspace_name: Seq<char>,
    windows: Seq<WindowData>,
    replies: Seq<Reply>,
)
    ensures
        laws::commands(
            rehome::workspace_placement(transaction, target, workspace_name, windows),
            replies,
        ) == rift::placements_of(target, windows),
{
    broadcast use laws::group_commands;

    if windows.len() == 0 {
        assert(rift::placements_of(target, windows) =~= Seq::<CommandView>::empty());
    }
}

/// What sending a group home has found out on its way.
pub struct Findings {
    /// The group's workspace as a destination.
    pub target: TargetView,
    /// The windows that were not on the display.
    pub elsewhere: Seq<WindowData>,
    /// The windows that were still missing from the workspace then.
    pub missing: Seq<WindowId>,
}

/// What sending a group home finds out along the replies.
pub open spec fn findings(
    transaction: RiftTransaction,
    group: GroupView,
    replies: Seq<Reply>,
) -> Findings {
    let windows = rehome::windows_of(group.windows);
    let found = dialogue::run(rehome::destination(group), replies);
    let target = found->Finished_0;
    let prepared = dialogue::run(
        placement::target_preparation(transaction, target, group.workspace_name),
        laws::left_over(found),
    );
    let searched = dialogue::run(
        rehome::off_display_from(target, windows, 0, Seq::empty()),
        laws::left_over(prepared),
    );
    let elsewhere = searched->Finished_0;
    let moved = dialogue::run(
        rehome::display_placement(transaction, target, group.workspace_name, elsewhere),
        laws::left_over(searched),
    );
    let missed = dialogue::run(
        rift::windows_missing_from_workspace(
            target,
            group.workspace_name,
            rehome::member_ids(group),
        ),
        laws::left_over(moved),
    );
    Findings { target, elsewhere, missing: missed->Finished_0 }
}

/// A group is sent home by these commands, and no others: its display is focused and its
/// workspace activated, as far as needed; then the windows that are not on the display are moved
/// there, in order; then those that are still missing from the workspace are moved there, in
/// order.
pub proof fn a_group_is_sent_home_by_these_commands(
    transaction: RiftTransaction,
    group: GroupView,
    replies: Seq<Reply>,
)
    requires
        dialogue::run(rehome::group_placement(transaction, group), replies) is Finished,
    ensures
        ({
            let found = findings(transaction, group, replies);
            laws::commands(rehome::group_placement(transaction, group), replies)
                == placing::preparing(found.target) + (rehome::transfers_of(
                found.target,
                found.elsewhere,
            ) + rift::placements_of(
                found.target,
                rehome::windows_of(group.windows).filter(model::is_one_of(found.missing)),
            ))
        }),
{
    broadcast use laws::lemma_commands_bind;

    reveal(rehome::group_placement);
    let windows = rehome::windows_of(group.windows);
    let name = group.workspace_name;
    let finding = rehome::destination(group);
    lemma_destination_looks(group);
    laws::lemma_looking_submits_nothing(finding, replies);
    let target = dialogue::run(finding, replies)->Finished_0;
    let one = laws::left_over(dialogue::run(finding, replies));
    let preparing = placement::target_preparation(transaction, target, name);
    placing::a_destination_is_focused_then_activated(transaction, target, name, one);
    let two = laws::left_over(dialogue::run(preparing, one));
    let searching = rehome::off_display_from(target, windows, 0, Seq::empty());
    lemma_off_display_looks(target, windows, 0, Seq::empty());
    laws::lemma_looking_submits_nothing(searching, two);
    let elsewhere = dialogue::run(searching, two)->Finished_0;
    let three = laws::left_over(dialogue::run(searching, two));
    let moving = rehome::display_placement(transaction, target, name, elsewhere);
    lemma_display_placement_commands(transaction, target, name, elsewhere, three);
    let four = laws::left_over(dialogue::run(moving, three));
    let ids = rehome::member_ids(group);
    let missing_search = rift::windows_missing_from_workspace(target, name, ids);
    looking::queries_only_look(target, name, name, Seq::empty(), arbitrary(), ids);
    laws::lemma_looking_submits_nothing(missing_search, four);
    let missing = dialogue::run(missing_search, four)->Finished_0;
    let five = laws::left_over(dialogue::run(missing_search, four));
    let chosen = windows.filter(model::is_one_of(missing));
    lemma_workspace_placement_commands(transaction, target, name, chosen, five);
    let none = Seq::<CommandView>::empty();
    let prepared = placing::preparing(target);
    let moved = rehome::transfers_of(target, elsewhere);
    let placed = rift::placements_of(target, chosen);
    assert(none + placed =~= placed);
    assert(laws::commands(rehome::missing_placement(transaction, target, group), four) == placed);
    assert(none + (moved + placed) =~= moved + placed);
    assert(none + (prepared + (moved + placed)) =~= prepared + (moved + placed));
}

/// Looking whether groups are at home does no more than look.
pub proof fn lemma_at_home_looks(groups: Seq<GroupView>, at: int)
    ensures
        dialogue::asks_only(rehome::are_at_home_from(groups, at), dialogue::looks()),
    decreases groups.len() - at,
{
    reveal(rehome::are_at_home_from);
    if 0 <= at < groups.len() {
        lemma_at_home_looks(groups, at + 1);
        assert forall|target: TargetView|
            dialogue::asks_only(
                #[trigger] rift::windows_are_at(
                    target,
                    groups[at].workspace_name,
                    rehome::member_ids(groups[at]),
                ),
                dialogue::looks(),
            ) by {
            rift::lemma_windows_are_at_looks(
                target,
                groups[at].workspace_name,
                rehome::member_ids(groups[at]),
            );
        }
    }
}

/// Windows that are at home are left alone, and so are windows without a home: no operation is
/// asked for.
pub proof fn windows_at_home_are_left_alone(errand: Errand, replies: Seq<Reply>)
    requires
        errand.routed.len() == 0 || (dialogue::run(
            rehome::are_at_home_from(rehome::grouped(errand.routed), 0),
            replies,
        ) matches Outcome::Finished(there, _) && there),
    ensures
        laws::operation_count(
            rehome::journey_if_needed(errand.source, errand.routed),
            replies,
        ) == 0,
        dialogue::run(rehome::journey_if_needed(errand.source, errand.routed), replies) is
            Finished,
{
    reveal(rehome::journey_if_needed);
    lemma_at_home_looks(rehome::grouped(errand.routed), 0);
}

} // verus!
