//! What holds of the queries of Rift's state.
use crate::dialogue;
use crate::dialogue::{AskView, Outcome, Reply, RequestView};
use crate::geometry;
use crate::laws;
use crate::model;
use crate::model::{DisplayData, WindowData, WindowId};
use crate::rift;
use crate::rift::TargetView;
use vstd::prelude::*;

verus! {

broadcast use {dialogue::group_run, dialogue::group_asks_only};

/// Whether a reply shows a window's frame on the destination's display.
pub open spec fn shows_on_display(target: TargetView, reply: Reply) -> bool {
    reply matches Reply::WindowInfo(window) && geometry::frame_matches(
        window.frame,
        target.frame_validation,
    )
}

proof fn lemma_placed(
    target: TargetView,
    members: Seq<WindowData>,
    window_ids: Seq<WindowId>,
    at: int,
    replies: Seq<Reply>,
)
    requires
        0 <= at <= window_ids.len(),
        dialogue::run(rift::windows_are_placed_from(target, members, window_ids, at), replies)
            matches Outcome::Finished(placed, _) && placed,
    ensures
        replies.len() >= window_ids.len() - at,
        dialogue::run(rift::windows_are_placed_from(target, members, window_ids, at), replies)
            == Outcome::Finished(true, replies.skip(window_ids.len() - at)),
        forall|i: int|
            at <= i < window_ids.len() ==> model::has_window(members, #[trigger] window_ids[i])
                && shows_on_display(target, replies[i - at]),
    decreases window_ids.len() - at,
{
    if at < window_ids.len() {
        assert(replies.len() > 0);
        assert(model::has_window(members, window_ids[at]) && shows_on_display(target, replies[0]));
        let rest = replies.skip(1);
        lemma_placed(target, members, window_ids, at + 1, rest);
        assert(replies.skip(1).skip(window_ids.len() - at - 1) =~= replies.skip(
            window_ids.len() - at,
        ));
        assert forall|i: int| at <= i < window_ids.len() implies model::has_window(
            members,
            #[trigger] window_ids[i],
        ) && shows_on_display(target, replies[i - at]) by {
            if i > at {
                assert(model::has_window(members, window_ids[i]));
                assert(shows_on_display(target, rest[i - (at + 1)]));
                assert(rest[i - (at + 1)] == replies[i - at]);
            }
        }
    } else {
        assert(replies.skip(0) =~= replies);
    }
}

/// Windows that are found to be at a destination are members of the named workspace there, each
/// of them with its frame on the display.
pub proof fn windows_at_a_destination_are_members_on_its_display(
    target: TargetView,
    workspace_name: Seq<char>,
    window_ids: Seq<WindowId>,
    replies: Seq<Reply>,
)
    requires
        dialogue::run(rift::windows_are_at(target, workspace_name, window_ids), replies) matches
            Outcome::Finished(there, _) && there,
    ensures
        replies.len() > window_ids.len(),
        dialogue::run(rift::windows_are_at(target, workspace_name, window_ids), replies)
            == Outcome::Finished(true, replies.skip(window_ids.len() as int + 1)),
        replies[0] matches Reply::Workspaces(workspaces) && model::first(
            workspaces@,
            model::has_name(workspace_name),
        ) matches Some(workspace) && forall|i: int|
            0 <= i < window_ids.len() ==> model::has_window(
                workspace.windows@,
                #[trigger] window_ids[i],
            ) && shows_on_display(target, replies[i + 1]),
{
    let rest = replies.skip(1);
    assert(replies.len() > 0);
    let workspaces = replies[0]->Workspaces_0@;
    let members = model::first(workspaces, model::has_name(workspace_name))->0.windows@;
    lemma_placed(target, members, window_ids, 0, rest);
    assert(rest.skip(window_ids.len() as int) =~= replies.skip(window_ids.len() as int + 1));
    assert forall|i: int| 0 <= i < window_ids.len() implies model::has_window(
        members,
        #[trigger] window_ids[i],
    ) && shows_on_display(target, replies[i + 1]) by {
        assert(rest[i] == replies[i + 1]);
    }
}

/// The requests for windows, one after the other.
pub open spec fn asking_for(window_ids: Seq<WindowId>) -> Seq<RequestView> {
    Seq::new(
        window_ids.len(),
        |i: int| RequestView::Outside(AskView::WindowInfo { window_id: window_ids[i] }),
    )
}

proof fn lemma_placed_asked_for(
    target: TargetView,
    members: Seq<WindowData>,
    window_ids: Seq<WindowId>,
    at: int,
    replies: Seq<Reply>,
)
    requires
        0 <= at <= window_ids.len(),
        dialogue::run(rift::windows_are_placed_from(target, members, window_ids, at), replies)
            matches Outcome::Finished(placed, _) && placed,
    ensures
        laws::requests(
            rift::windows_are_placed_from(target, members, window_ids, at),
            replies,
        ) == asking_for(window_ids).skip(at),
    decreases window_ids.len() - at,
{
    broadcast use laws::group_requests;

    if at < window_ids.len() {
        assert(replies.len() > 0);
        lemma_placed_asked_for(target, members, window_ids, at + 1, replies.skip(1));
        let all = asking_for(window_ids);
        assert(laws::requests(
            rift::window_is_placed(target, members, window_ids[at]),
            replies,
        ) =~= seq![all[at]]);
        assert(seq![all[at]] + all.skip(at + 1) =~= all.skip(at));
    } else {
        assert(asking_for(window_ids).skip(at) =~= Seq::<RequestView>::empty());
    }
}

/// To find windows at a destination, the workspaces of its space and each of the windows are
/// asked for.
pub proof fn windows_at_a_destination_are_asked_for(
    target: TargetView,
    workspace_name: Seq<char>,
    window_ids: Seq<WindowId>,
    replies: Seq<Reply>,
)
    requires
        dialogue::run(rift::windows_are_at(target, workspace_name, window_ids), replies) matches
            Outcome::Finished(there, _) && there,
    ensures
        laws::requests(rift::windows_are_at(target, workspace_name, window_ids), replies) == seq![
            RequestView::Outside(AskView::Workspaces { space: target.space }),
        ] + asking_for(window_ids),
{
    broadcast use laws::group_requests;

    assert(replies.len() > 0);
    let found = replies[0]->Workspaces_0@;
    let members = model::first(found, model::has_name(workspace_name))->0.windows@;
    lemma_placed_asked_for(target, members, window_ids, 0, replies.skip(1));
    assert(asking_for(window_ids).skip(0) =~= asking_for(window_ids));
}

/// The items before this index that are picked by their index, in order.
pub open spec fn picked_before<T>(items: Seq<T>, picks: spec_fn(int) -> bool, until: int) -> Seq<
    T,
> {
    Seq::new(until as nat, |i: int| i).filter(picks).map_values(|i: int| items[i])
}

/// The items that are picked by their index, in order.
pub open spec fn picked<T>(items: Seq<T>, picks: spec_fn(int) -> bool) -> Seq<T> {
    picked_before(items, picks, items.len() as int)
}

/// One item more is picked, or left out.
pub proof fn lemma_picked_step<T>(items: Seq<T>, picks: spec_fn(int) -> bool, at: int)
    requires
        0 <= at < items.len(),
    ensures
        picked_before(items, picks, at + 1) == if picks(at) {
            picked_before(items, picks, at).push(items[at])
        } else {
            picked_before(items, picks, at)
        },
{
    reveal(Seq::filter);
    let all = Seq::new((at + 1) as nat, |i: int| i);
    assert(all.drop_last() =~= Seq::new(at as nat, |i: int| i));
    assert(all.last() == at);
    assert(picked_before(items, picks, at + 1) =~= if picks(at) {
        picked_before(items, picks, at).push(items[at])
    } else {
        picked_before(items, picks, at)
    });
}

/// Without a look no item is picked.
pub proof fn lemma_picked_none<T>(items: Seq<T>, picks: spec_fn(int) -> bool)
    ensures
        picked_before(items, picks, 0) == Seq::<T>::empty(),
{
    reveal(Seq::filter);
    assert(picked_before(items, picks, 0) =~= Seq::<T>::empty());
}

/// The replies that are left when it is time to look for this window: those before it have been
/// looked for.
pub open spec fn left_for_window(
    target: TargetView,
    members: Seq<WindowData>,
    window_ids: Seq<WindowId>,
    replies: Seq<Reply>,
    at: int,
) -> Seq<Reply>
    decreases at,
{
    if at <= 0 {
        replies
    } else {
        laws::left_over(
            dialogue::run(
                rift::window_is_placed(target, members, window_ids[at - 1]),
                left_for_window(target, members, window_ids, replies, at - 1),
            ),
        )
    }
}

/// Accepts the windows whose own look does not show them among the members and on the display.
pub open spec fn shows_missing(
    target: TargetView,
    members: Seq<WindowData>,
    window_ids: Seq<WindowId>,
    replies: Seq<Reply>,
) -> spec_fn(int) -> bool {
    |at: int|
        dialogue::run(
            rift::window_is_placed(target, members, window_ids[at]),
            left_for_window(target, members, window_ids, replies, at),
        )->Finished_0 == false
}

proof fn lemma_missing_are_picked(
    target: TargetView,
    members: Seq<WindowData>,
    window_ids: Seq<WindowId>,
    at: int,
    replies: Seq<Reply>,
)
    requires
        0 <= at <= window_ids.len(),
        ({
            let picks = shows_missing(target, members, window_ids, replies);
            let found = picked_before(window_ids, picks, at);
            dialogue::run(
                rift::windows_missing_from(target, members, window_ids, at, found),
                left_for_window(target, members, window_ids, replies, at),
            ) is Finished
        }),
    ensures
        ({
            let picks = shows_missing(target, members, window_ids, replies);
            let found = picked_before(window_ids, picks, at);
            dialogue::run(
                rift::windows_missing_from(target, members, window_ids, at, found),
                left_for_window(target, members, window_ids, replies, at),
            )->Finished_0 == picked(window_ids, picks)
        }),
    decreases window_ids.len() - at,
{
    if at < window_ids.len() {
        let picks = shows_missing(target, members, window_ids, replies);
        lemma_picked_step(window_ids, picks, at);
        lemma_missing_are_picked(target, members, window_ids, at + 1, replies);
    }
}

/// The windows that are missing from a workspace are exactly those, in order, whose own look did
/// not show them there: each is looked for in turn, and is missing unless it is a member of the
/// named workspace and its frame is on the display.
pub proof fn exactly_the_windows_not_shown_are_missing(
    target: TargetView,
    workspace_name: Seq<char>,
    window_ids: Seq<WindowId>,
    replies: Seq<Reply>,
)
    requires
        dialogue::run(
            rift::windows_missing_from_workspace(target, workspace_name, window_ids),
            replies,
        ) is Finished,
    ensures
        replies.len() > 0,
        replies[0] is Workspaces,
        dialogue::run(
            rift::windows_missing_from_workspace(target, workspace_name, window_ids),
            replies,
        )->Finished_0 == picked(
            window_ids,
            shows_missing(
                target,
                rift::members_of(replies[0]->Workspaces_0@, workspace_name),
                window_ids,
                replies.skip(1),
            ),
        ),
{
    assert(replies.len() > 0);
    let members = rift::members_of(replies[0]->Workspaces_0@, workspace_name);
    let picks = shows_missing(target, members, window_ids, replies.skip(1));
    lemma_picked_none(window_ids, picks);
    lemma_missing_are_picked(target, members, window_ids, 0, replies.skip(1));
}

/// What the look for a window shows: whether it is among the members, and then whether the frame
/// in the reply to it is on the destination's display.
pub proof fn a_window_is_shown_by_its_own_look(
    target: TargetView,
    members: Seq<WindowData>,
    window_id: WindowId,
    replies: Seq<Reply>,
)
    requires
        dialogue::run(rift::window_is_placed(target, members, window_id), replies) is Finished,
    ensures
        dialogue::run(rift::window_is_placed(target, members, window_id), replies)->Finished_0
            == (model::has_window(members, window_id) && replies.len() > 0
            && shows_on_display(target, replies[0])),
        model::has_window(members, window_id) ==> laws::requests(
            rift::window_is_placed(target, members, window_id),
            replies,
        ) == seq![RequestView::Outside(AskView::WindowInfo { window_id })],
{
    broadcast use laws::group_requests;

    if model::has_window(members, window_id) {
        assert(laws::requests(rift::window_is_placed(target, members, window_id), replies) =~= seq![
            RequestView::Outside(AskView::WindowInfo { window_id }),
        ]);
    }
}

proof fn lemma_missing(
    target: TargetView,
    members: Seq<WindowData>,
    window_ids: Seq<WindowId>,
    at: int,
    found: Seq<WindowId>,
    replies: Seq<Reply>,
)
    requires
        0 <= at <= window_ids.len(),
        dialogue::run(
            rift::windows_missing_from(target, members, window_ids, at, found),
            replies,
        ) is Finished,
    ensures
        ({
            let missing = dialogue::run(
                rift::windows_missing_from(target, members, window_ids, at, found),
                replies,
            )->Finished_0;
            let placed = dialogue::run(
                rift::windows_are_placed_from(target, members, window_ids, at),
                replies,
            );
            &&& found.len() <= missing.len() <= found.len() + window_ids.len() - at
            &&& missing.take(found.len() as int) == found
            &&& forall|k: int|
                found.len() <= k < missing.len() ==> window_ids.contains(#[trigger] missing[k])
            &&& missing.len() == found.len() <==> (placed matches Outcome::Finished(all, _) && all)
        }),
    decreases window_ids.len() - at,
{
    let program = rift::windows_missing_from(target, members, window_ids, at, found);
    if at < window_ids.len() {
        let looked = rift::window_is_placed(target, members, window_ids[at]);
        let placed = dialogue::run(looked, replies)->Finished_0;
        let rest = dialogue::run(looked, replies)->Finished_1;
        let now = if placed {
            found
        } else {
            found.push(window_ids[at])
        };
        lemma_missing(target, members, window_ids, at + 1, now, rest);
        let missing = dialogue::run(program, replies)->Finished_0;
        assert(missing == dialogue::run(
            rift::windows_missing_from(target, members, window_ids, at + 1, now),
            rest,
        )->Finished_0);
        if !placed {
            assert(missing.take(now.len() as int)[found.len() as int] == window_ids[at]);
            assert(missing.take(found.len() as int) =~= missing.take(now.len() as int).take(
                found.len() as int,
            ));
            assert(now.take(found.len() as int) =~= found);
            assert(window_ids.contains(window_ids[at]));
        }
    } else {
        assert(found.take(found.len() as int) =~= found);
    }
}

/// The windows that are missing from a workspace are among those asked for, and none is missing
/// exactly where all of them are found to be there. (Where nothing is asked for and there is no
/// such workspace, nothing is missing, and yet the windows are not there.)
pub proof fn none_is_missing_where_all_are_there(
    target: TargetView,
    workspace_name: Seq<char>,
    window_ids: Seq<WindowId>,
    replies: Seq<Reply>,
)
    requires
        dialogue::run(
            rift::windows_missing_from_workspace(target, workspace_name, window_ids),
            replies,
        ) is Finished,
        window_ids.len() > 0 || (replies[0] matches Reply::Workspaces(workspaces) && model::first(
            workspaces@,
            model::has_name(workspace_name),
        ) is Some),
    ensures
        ({
            let missing = dialogue::run(
                rift::windows_missing_from_workspace(target, workspace_name, window_ids),
                replies,
            )->Finished_0;
            let there = dialogue::run(
                rift::windows_are_at(target, workspace_name, window_ids),
                replies,
            );
            &&& missing.len() <= window_ids.len()
            &&& forall|k: int|
                0 <= k < missing.len() ==> window_ids.contains(#[trigger] missing[k])
            &&& missing.len() == 0 <==> (there matches Outcome::Finished(all, _) && all)
        }),
{
    assert(replies.len() > 0);
    let workspaces = replies[0]->Workspaces_0@;
    let members = rift::members_of(workspaces, workspace_name);
    lemma_missing(target, members, window_ids, 0, Seq::empty(), replies.skip(1));
    if model::first(workspaces, model::has_name(workspace_name)) is None {
        assert(!model::has_window(members, window_ids[0]));
        assert(dialogue::run(
            rift::windows_are_placed_from(target, members, window_ids, 0),
            replies.skip(1),
        ) == Outcome::Finished(false, replies.skip(1)));
    }
}

/// A destination is on the display that was asked for, in the space that the display shows.
pub proof fn a_destination_is_on_its_display(
    workspace_name: Seq<char>,
    display_uuid: Seq<char>,
    displays: Seq<DisplayData>,
    replies: Seq<Reply>,
)
    requires
        dialogue::run(rift::target_context(workspace_name, display_uuid, displays), replies) is
            Finished,
    ensures
        ({
            let target = dialogue::run(
                rift::target_context(workspace_name, display_uuid, displays),
                replies,
            )->Finished_0;
            &&& target.display_uuid == display_uuid
            &&& model::first(displays, model::has_uuid(display_uuid)) matches Some(display)
                && model::space_of(display) == Some(target.space) && target.display_is_active
                == display.is_active_context
        }),
{
    model::lemma_first_accepted(displays, model::has_uuid(display_uuid));
}

/// The focused workspace holds the focused window, and one of the displays shows it.
pub proof fn the_focused_workspace_holds_the_focused_window(
    displays: Seq<DisplayData>,
    replies: Seq<Reply>,
)
    requires
        dialogue::run(rift::focused_workspace(displays), replies) is Finished,
    ensures
        ({
            let focused = dialogue::run(rift::focused_workspace(displays), replies)->Finished_0;
            &&& focused.focused_window.is_focused
            &&& model::has_window(focused.workspace.windows@, focused.focused_window.id)
            &&& exists|i: int|
                0 <= i < displays.len() && (#[trigger] displays[i]).uuid@ == focused.display_uuid
                    && model::space_of(displays[i]) is Some
        }),
{
    lemma_focused_workspace_from(displays, 0, replies);
}

proof fn lemma_focused_workspace_from(displays: Seq<DisplayData>, at: int, replies: Seq<Reply>)
    requires
        0 <= at <= displays.len(),
        dialogue::run(rift::focused_workspace_from(displays, at), replies) is Finished,
    ensures
        ({
            let focused = dialogue::run(
                rift::focused_workspace_from(displays, at),
                replies,
            )->Finished_0;
            &&& focused.focused_window.is_focused
            &&& model::has_window(focused.workspace.windows@, focused.focused_window.id)
            &&& exists|i: int|
                0 <= i < displays.len() && (#[trigger] displays[i]).uuid@ == focused.display_uuid
                    && model::space_of(displays[i]) is Some
        }),
    decreases displays.len() - at,
{
    if at < displays.len() {
        match model::space_of(displays[at]) {
            None => {
                lemma_focused_workspace_from(displays, at + 1, replies);
            },
            Some(space) => {
                assert(replies.len() > 0);
                let windows = replies[0]->Windows_0@;
                let rest = replies.skip(1);
                model::lemma_first_accepted(windows, model::is_focused());
                match model::first(windows, model::is_focused()) {
                    None => {
                        lemma_focused_workspace_from(displays, at + 1, rest);
                    },
                    Some(window) => {
                        assert(rest.len() > 0);
                        let workspaces = rest[0]->Workspaces_0@;
                        model::lemma_first_accepted(workspaces, model::holds(window.id));
                        if model::first(workspaces, model::holds(window.id)) is None {
                            lemma_focused_workspace_from(displays, at + 1, rest.skip(1));
                        }
                    },
                }
            },
        }
    }
}

/// A window that is found to be focused at a destination is found to be there.
pub proof fn a_window_focused_at_a_destination_is_there(
    target: TargetView,
    workspace_name: Seq<char>,
    window_id: WindowId,
    replies: Seq<Reply>,
)
    requires
        dialogue::run(
            rift::window_is_focused_at(target, workspace_name, window_id),
            replies,
        ) matches Outcome::Finished(focused, _) && focused,
    ensures
        dialogue::run(rift::window_is_at(target, workspace_name, window_id), replies) matches
            Outcome::Finished(there, _) && there,
{
}

proof fn lemma_focused_workspace_looks(displays: Seq<DisplayData>, at: int)
    ensures
        dialogue::asks_only(rift::focused_workspace_from(displays, at), dialogue::looks()),
    decreases displays.len() - at,
{
    if 0 <= at < displays.len() {
        lemma_focused_workspace_looks(displays, at + 1);
    }
}

proof fn lemma_missing_looks(
    target: TargetView,
    members: Seq<WindowData>,
    window_ids: Seq<WindowId>,
    at: int,
    found: Seq<WindowId>,
)
    ensures
        dialogue::asks_only(
            rift::windows_missing_from(target, members, window_ids, at, found),
            dialogue::looks(),
        ),
    decreases window_ids.len() - at,
{
    if 0 <= at < window_ids.len() {
        lemma_missing_looks(target, members, window_ids, at + 1, found);
        lemma_missing_looks(
            target,
            members,
            window_ids,
            at + 1,
            found.push(window_ids[at]),
        );
    }
}

/// Finding out where windows are, what is missing and what is focused does no more than look.
pub proof fn queries_only_look(
    target: TargetView,
    workspace_name: Seq<char>,
    display_uuid: Seq<char>,
    displays: Seq<DisplayData>,
    window_id: WindowId,
    window_ids: Seq<WindowId>,
)
    ensures
        dialogue::asks_only(
            rift::target_context(workspace_name, display_uuid, displays),
            dialogue::looks(),
        ),
        dialogue::asks_only(
            rift::active_target_context(display_uuid, displays),
            dialogue::looks(),
        ),
        dialogue::asks_only(rift::focused_workspace(displays), dialogue::looks()),
        dialogue::asks_only(rift::focused_window(displays), dialogue::looks()),
        dialogue::asks_only(rift::window_location(target, window_id), dialogue::looks()),
        dialogue::asks_only(
            rift::window_is_at(target, workspace_name, window_id),
            dialogue::looks(),
        ),
        dialogue::asks_only(rift::window_is_on_display(target, window_id), dialogue::looks()),
        dialogue::asks_only(
            rift::window_is_focused_at(target, workspace_name, window_id),
            dialogue::looks(),
        ),
        dialogue::asks_only(
            rift::windows_are_at(target, workspace_name, window_ids),
            dialogue::looks(),
        ),
        dialogue::asks_only(
            rift::windows_missing_from_workspace(target, workspace_name, window_ids),
            dialogue::looks(),
        ),
        dialogue::asks_only(rift::workspace_at(target, workspace_name), dialogue::looks()),
{
    lemma_focused_workspace_looks(displays, 0);
    rift::lemma_windows_are_at_looks(target, workspace_name, window_ids);
    assert forall|members: Seq<WindowData>|
        dialogue::asks_only(
            #[trigger] rift::windows_missing_from(target, members, window_ids, 0, Seq::empty()),
            dialogue::looks(),
        ) by {
        lemma_missing_looks(target, members, window_ids, 0, Seq::empty());
    }
}

} // verus!
