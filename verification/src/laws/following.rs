//! What moving the focused window and following it brings about, in terms of what was asked and
//! replied.
use crate::dialogue;
use crate::dialogue::{AskView, Reply, RequestView};
use crate::laws;
use crate::laws::{command_line, looking, outcomes, placing, policies, queries, steps};
use crate::model;
use crate::model::DisplayData;
use crate::policy;
use crate::rift;
use crate::rift::{FocusedWindowView, FocusedWorkspaceView, TargetView};
use crate::space_escape;
use crate::transaction;
use crate::transaction::{OperationView, RiftTransaction};
use crate::workflow::move_follow::Aim;
use crate::workflow::{move_follow, move_window_to_display, placement, DisplayDirection};
use vstd::prelude::*;

verus! {

/// The limits of a single command.
pub open spec fn single() -> RiftTransaction {
    RiftTransaction { step_timeout: 2_500, batch_deadline: None }
}

/// Bringing a display to a space that Rift manages takes no operation.
pub proof fn lemma_escaping_takes_no_operation(
    display_uuid: Seq<char>,
    displays: Seq<DisplayData>,
)
    ensures
        dialogue::asks_only(
            space_escape::managed_space(display_uuid, displays),
            laws::without_operations(),
        ),
{
    match model::first(displays, model::has_uuid(display_uuid)) {
        Some(display) => {
            lemma_escape_takes_no_operation(
                display_uuid,
                displays,
                display.inactive_space_ids@,
                0,
            );
        },
        None => {},
    }
}

proof fn lemma_escape_takes_no_operation(
    display_uuid: Seq<char>,
    displays: Seq<DisplayData>,
    spaces: Seq<u64>,
    at: int,
)
    ensures
        dialogue::asks_only(
            space_escape::escape_from(display_uuid, displays, spaces, at),
            laws::without_operations(),
        ),
    decreases spaces.len() - at,
{
    broadcast use dialogue::group_asks_only;

    if 0 <= at < spaces.len() {
        lemma_escape_takes_no_operation(display_uuid, displays, spaces, at + 1);
    }
}

/// Finding a destination, or the focused window, takes no operation.
pub proof fn lemma_looks(workspace_name: Seq<char>, display_uuid: Seq<char>, displays: Seq<DisplayData>)
    ensures
        dialogue::asks_only(rift::focused_window(displays), laws::without_operations()),
        dialogue::asks_only(
            rift::target_context(workspace_name, display_uuid, displays),
            laws::without_operations(),
        ),
{
    looking::queries_only_look(
        arbitrary(),
        workspace_name,
        display_uuid,
        displays,
        arbitrary(),
        Seq::empty(),
    );
    dialogue::lemma_asks_only_of_more(
        rift::focused_window(displays),
        dialogue::looks(),
        laws::without_operations(),
    );
    dialogue::lemma_asks_only_of_more(
        rift::target_context(workspace_name, display_uuid, displays),
        dialogue::looks(),
        laws::without_operations(),
    );
}

proof fn lemma_aiming_takes_no_operation(
    workspace_name: Seq<char>,
    display_uuid: Seq<char>,
    displays: Seq<DisplayData>,
)
    ensures
        dialogue::asks_only(
            move_follow::aim_at(workspace_name, display_uuid, displays),
            laws::without_operations(),
        ),
{
    broadcast use dialogue::group_asks_only;

    lemma_looks(workspace_name, display_uuid, displays);
    lemma_escaping_takes_no_operation(display_uuid, displays);
    assert forall|refreshed: Seq<DisplayData>|
        dialogue::asks_only(
            #[trigger] rift::target_context(workspace_name, display_uuid, refreshed),
            laws::without_operations(),
        ) by {
        lemma_looks(workspace_name, display_uuid, refreshed);
    }
}

/// Finding where a workspace belongs, and the focused window, takes no operation.
pub proof fn aiming_takes_no_operation(workspace_name: Seq<char>, replies: Seq<Reply>)
    ensures
        laws::operations(move_follow::aim_for(workspace_name), replies) == Seq::<
            OperationView,
        >::empty(),
{
    broadcast use dialogue::group_asks_only;

    assert forall|uuid: Seq<char>, displays: Seq<DisplayData>|
        dialogue::asks_only(
            #[trigger] move_follow::aim_at(workspace_name, uuid, displays),
            laws::without_operations(),
        ) by {
        lemma_aiming_takes_no_operation(workspace_name, uuid, displays);
    }
    assert forall|displays: Seq<DisplayData>|
        dialogue::asks_only(
            #[trigger] policy::display_for(workspace_name, displays),
            laws::without_operations(),
        ) by {}
    laws::lemma_no_operations(move_follow::aim_for(workspace_name), replies);
}

proof fn lemma_aim_at_parts(
    workspace_name: Seq<char>,
    display_uuid: Seq<char>,
    displays: Seq<DisplayData>,
    replies: Seq<Reply>,
)
    requires
        dialogue::run(
            move_follow::aim_at(workspace_name, display_uuid, displays),
            replies,
        ) is Finished,
    ensures
        ({
            let aiming = move_follow::aim_at(workspace_name, display_uuid, displays);
            let asked = laws::requests(aiming, replies);
            let finding = rift::focused_window(displays);
            let found = laws::requests(finding, replies);
            let aim = dialogue::run(aiming, replies)->Finished_0;
            &&& dialogue::run(finding, replies) is Finished
            &&& aim.focused == dialogue::run(finding, replies)->Finished_0
            &&& aim.target.display_uuid == display_uuid
            &&& found.len() <= asked.len()
            &&& asked == found + asked.skip(found.len() as int)
        }),
{
    broadcast use {dialogue::group_run, laws::group_requests};

    let aiming = move_follow::aim_at(workspace_name, display_uuid, displays);
    let asked = laws::requests(aiming, replies);
    let finding = dialogue::attempt(rift::focused_window(displays));
    let found = laws::requests(finding, replies);
    let one = laws::left_over(dialogue::run(finding, replies));
    let escaping = space_escape::managed_space(display_uuid, displays);
    let refreshed = dialogue::run(escaping, one)->Finished_0;
    let two = laws::left_over(dialogue::run(escaping, one));
    looking::a_destination_is_on_its_display(workspace_name, display_uuid, refreshed, two);
    assert(found + asked.skip(found.len() as int) =~= asked);
}

proof fn lemma_aim_parts(workspace_name: Seq<char>, replies: Seq<Reply>)
    requires
        dialogue::run(move_follow::aim_for(workspace_name), replies) is Finished,
    ensures
        replies.len() > 2,
        replies[1] is Displays,
        replies[2] is Policy,
        ({
            let aiming = move_follow::aim_for(workspace_name);
            let asked = laws::requests(aiming, replies);
            let displays = replies[1]->Displays_0@;
            let aim = dialogue::run(aiming, replies)->Finished_0;
            let finding = rift::focused_window(displays);
            let found = laws::requests(finding, replies.skip(3));
            let outcome = dialogue::run(finding, replies.skip(3));
            &&& policies::gives(
                replies[2]->Policy_0,
                displays,
                workspace_name,
                aim.target.display_uuid,
            )
            &&& outcome is Finished
            &&& aim.focused == outcome->Finished_0
            &&& asked.len() >= 3 + found.len()
            &&& asked[0] == RequestView::Outside(AskView::Connect)
            &&& asked[1] == RequestView::Outside(AskView::Displays)
            &&& asked[2] == RequestView::Outside(AskView::Policy)
            &&& asked.subrange(3, 3 + found.len() as int) == found
        }),
{
    broadcast use {dialogue::group_run, laws::group_requests};

    let aiming = move_follow::aim_for(workspace_name);
    let asked = laws::requests(aiming, replies);
    assert(replies.len() > 1);
    assert(replies.skip(1)[0] == replies[1]);
    let displays = replies[1]->Displays_0@;
    let two = replies.skip(2);
    assert(replies.skip(1).skip(1) =~= two);
    policies::a_display_that_was_found_is_given_by_the_policy(workspace_name, displays, two);
    assert(two[0] == replies[2]);
    assert(two.skip(1) =~= replies.skip(3));
    let uuid = dialogue::run(policy::display_for(workspace_name, displays), two)->Finished_0;
    let three = replies.skip(3);
    lemma_aim_at_parts(workspace_name, uuid, displays, three);
    let rest = laws::requests(move_follow::aim_at(workspace_name, uuid, displays), three);
    let start = seq![
        RequestView::Outside(AskView::Connect),
        RequestView::Outside(AskView::Displays),
        RequestView::Outside(AskView::Policy),
    ];
    assert(asked =~= start + rest);
    let found = laws::requests(rift::focused_window(displays), three);
    assert(asked.subrange(3, 3 + found.len() as int) =~= found);
}

/// Whether, from this request on, this window was found to be the focused one among the displays,
/// in this workspace and on the display of that.
pub open spec fn window_found_by(
    asked: Seq<RequestView>,
    replies: Seq<Reply>,
    displays: Seq<DisplayData>,
    source: FocusedWorkspaceView,
    from: int,
) -> bool {
    exists|count: int| outcomes::focus_found_by(asked, replies, displays, source, from, count)
}

proof fn lemma_window_found(
    asked: Seq<RequestView>,
    replies: Seq<Reply>,
    displays: Seq<DisplayData>,
    from: int,
) -> (source: FocusedWorkspaceView)
    requires
        0 <= from <= replies.len(),
        dialogue::run(rift::focused_window(displays), replies.skip(from)) is Finished,
        ({
            let found = laws::requests(rift::focused_window(displays), replies.skip(from));
            from + found.len() <= asked.len() && asked.subrange(from, from + found.len() as int)
                == found
        }),
    ensures
        window_found_by(asked, replies, displays, source, from),
        ({
            let focused = dialogue::run(
                rift::focused_window(displays),
                replies.skip(from),
            )->Finished_0;
            &&& focused.window == source.focused_window
            &&& focused.location.display_uuid == source.display_uuid
            &&& focused.location.workspace_name == source.workspace.name@
            &&& focused.location.is_focused
        }),
{
    let look = replies.skip(from);
    let found = laws::requests(rift::focused_window(displays), look);
    let focused = dialogue::run(rift::focused_window(displays), look)->Finished_0;
    queries::the_focused_window_is_that_of_the_focused_workspace(displays, look);
    let source = choose|source: FocusedWorkspaceView|
        #[trigger] queries::is_focused_workspace(displays, 0, found, look, source)
            && focused.window == source.focused_window && focused.location.display_uuid
            == source.display_uuid && focused.location.workspace_name == source.workspace.name@
            && focused.location.is_focused;
    assert(outcomes::focus_found_by(
        asked,
        replies,
        displays,
        source,
        from,
        found.len() as int,
    ));
    source
}

/// Whether `move-follow` did what it is for, with this window and this destination: the window was
/// in the workspace and on the display, and then nothing was submitted; or it was moved there by
/// the operations of following, and the last that was asked shows it there, and focused.
pub open spec fn followed_to(
    asked: Seq<RequestView>,
    replies: Seq<Reply>,
    workspace_name: Seq<char>,
    display_uuid: Seq<char>,
    source: FocusedWorkspaceView,
    target: TargetView,
) -> bool {
    &&& outcomes::is_read(asked, replies, target, workspace_name, display_uuid)
    &&& if source.display_uuid == display_uuid && source.workspace.name@ == workspace_name {
        laws::operations_of(asked) == Seq::<OperationView>::empty()
    } else {
        &&& steps::are_those_of_following(
            laws::operations_of(asked),
            single(),
            target,
            workspace_name,
            source.focused_window,
            source.display_uuid,
        )
        &&& outcomes::window_ended_in(
            asked,
            replies,
            target,
            workspace_name,
            source.focused_window.id,
        )
    }
}

proof fn lemma_move_follow_parts(workspace_name: Seq<char>, replies: Seq<Reply>)
    requires
        dialogue::run(move_follow::move_follow_program(workspace_name), replies) is Finished,
    ensures
        dialogue::run(move_follow::aim_for(workspace_name), replies) is Finished,
        ({
            let whole = move_follow::move_follow_program(workspace_name);
            let aiming = move_follow::aim_for(workspace_name);
            let aim = dialogue::run(aiming, replies)->Finished_0;
            let rest = laws::left_over(dialogue::run(aiming, replies));
            let going = move_follow::follow_unless_there(
                workspace_name,
                aim.target,
                aim.focused,
            );
            &&& dialogue::run(going, rest) is Finished
            &&& laws::requests(whole, replies) == laws::requests(aiming, replies) + laws::requests(
                going,
                rest,
            )
        }),
{
    let aiming = move_follow::aim_for(workspace_name);
    laws::lemma_requests_bind(
        aiming,
        |aim: Aim| move_follow::follow_unless_there(workspace_name, aim.target, aim.focused),
        replies,
    );
    dialogue::lemma_run_bind(
        aiming,
        |aim: Aim| move_follow::follow_unless_there(workspace_name, aim.target, aim.focused),
        replies,
    );
}

proof fn lemma_going(
    workspace_name: Seq<char>,
    target: TargetView,
    focused: FocusedWindowView,
    replies: Seq<Reply>,
)
    requires
        focused.location.is_focused,
        dialogue::run(
            move_follow::follow_unless_there(workspace_name, target, focused),
            replies,
        ) is Finished,
    ensures
        ({
            let submitted = laws::operations(
                move_follow::follow_unless_there(workspace_name, target, focused),
                replies,
            );
            if focused.location.display_uuid == target.display_uuid
                && focused.location.workspace_name == workspace_name {
                submitted == Seq::<OperationView>::empty()
            } else {
                steps::are_those_of_following(
                    submitted,
                    single(),
                    target,
                    workspace_name,
                    focused.window,
                    focused.location.display_uuid,
                )
            }
        }),
{
    broadcast use {dialogue::group_run, laws::group_operations};

    if !(focused.location.display_uuid == target.display_uuid && focused.location.workspace_name
        == workspace_name) {
        let beginning = transaction::begin_single();
        assert(replies.len() > 0 && replies[0] is Done);
        steps::a_single_command_has_two_and_a_half_seconds(replies);
        let none = Seq::<OperationView>::empty();
        assert(laws::operations(beginning, replies) =~= none) by {
            broadcast use dialogue::group_asks_only;

            laws::lemma_no_operations(beginning, replies);
        }
        let rest = replies.skip(1);
        steps::a_window_is_moved_and_followed_by_these_operations(
            single(),
            target,
            workspace_name,
            focused,
            rest,
        );
        let followed = laws::operations(
            placement::window_follow(single(), target, workspace_name, focused),
            rest,
        );
        assert(none + followed =~= followed);
    }
}

/// `move-follow` that has succeeded read the displays and the policy, and found the focused window.
/// Where that was in the named workspace on the display that the policy gives the workspace,
/// nothing was submitted. Else it was moved to that workspace on that display and followed, and the
/// last that was asked shows it there, and focused.
pub proof fn move_follow_brings_the_window_to_the_assigned_display(
    workspace_name: Seq<char>,
    replies: Seq<Reply>,
)
    requires
        dialogue::run(move_follow::move_follow_program(workspace_name), replies) is Finished,
    ensures
        ({
            let asked = laws::requests(move_follow::move_follow_program(workspace_name), replies);
            let displays = replies[1]->Displays_0@;
            &&& outcomes::begins_with_displays(asked, replies, displays)
            &&& asked.len() > 2 && asked[2] == RequestView::Outside(AskView::Policy)
            &&& replies.len() > 2 && replies[2] is Policy
            &&& exists|source: FocusedWorkspaceView, target: TargetView|
                #[trigger] window_found_by(asked, replies, displays, source, 3)
                    && policies::gives(
                    replies[2]->Policy_0,
                    displays,
                    workspace_name,
                    target.display_uuid,
                ) && #[trigger] followed_to(
                    asked,
                    replies,
                    workspace_name,
                    target.display_uuid,
                    source,
                    target,
                )
        }),
{
    let whole = move_follow::move_follow_program(workspace_name);
    let asked = laws::requests(whole, replies);
    let aiming = move_follow::aim_for(workspace_name);
    let aimed = laws::requests(aiming, replies);
    let displays = replies[1]->Displays_0@;
    placing::move_follow_ends_in_place(workspace_name, replies);
    lemma_move_follow_parts(workspace_name, replies);
    lemma_aim_parts(workspace_name, replies);
    let aim = dialogue::run(aiming, replies)->Finished_0;
    let rest = laws::left_over(dialogue::run(aiming, replies));
    let going = move_follow::follow_unless_there(workspace_name, aim.target, aim.focused);
    let found = laws::requests(rift::focused_window(displays), replies.skip(3));
    assert(asked.subrange(3, 3 + found.len() as int) =~= aimed.subrange(
        3,
        3 + found.len() as int,
    ));
    let source = lemma_window_found(asked, replies, displays, 3);
    outcomes::lemma_read(
        asked,
        replies,
        aim.target,
        workspace_name,
        aim.target.display_uuid,
    );
    aiming_takes_no_operation(workspace_name, replies);
    lemma_going(workspace_name, aim.target, aim.focused, rest);
    laws::lemma_operations_of_append(aimed, laws::requests(going, rest));
    let none = Seq::<OperationView>::empty();
    let submitted = laws::operations(going, rest);
    assert(none + submitted =~= submitted);
    if !(source.display_uuid == aim.target.display_uuid && source.workspace.name@
        == workspace_name) {
        outcomes::lemma_window_ended(
            asked,
            replies,
            aim.target,
            workspace_name,
            aim.focused.window.id,
        );
    }
    assert(followed_to(
        asked,
        replies,
        workspace_name,
        aim.target.display_uuid,
        source,
        aim.target,
    ));
}

/// Whether a destination is the active workspace of a display, out of these displays: its name is
/// the one of the first active workspace in the reply to the request at `at`, and the rest is read
/// from the first workspace with that name in the reply to the next.
pub open spec fn active_read_at(
    asked: Seq<RequestView>,
    replies: Seq<Reply>,
    displays: Seq<DisplayData>,
    target: TargetView,
    workspace_name: Seq<char>,
    display_uuid: Seq<char>,
    display: int,
    at: int,
    active: int,
    place: int,
) -> bool {
    &&& queries::is_display(displays, display_uuid, display)
    &&& queries::shows_space(displays[display], target.space)
    &&& 0 <= at
    &&& at + 1 < asked.len()
    &&& at + 1 < replies.len()
    &&& asked[at] == queries::asks_workspaces(target.space)
    &&& asked[at + 1] == queries::asks_workspaces(target.space)
    &&& replies[at] matches Reply::Workspaces(first) && queries::is_active_workspace(
        first@,
        active,
    ) && first@[active].name@ == workspace_name
    &&& replies[at + 1] matches Reply::Workspaces(second) && queries::is_workspace(
        second@,
        workspace_name,
        place,
    ) && queries::is_destination(
        target,
        displays[display],
        displays,
        target.space,
        second@,
        place,
    )
}

/// Whether a destination is the active workspace of a display, out of these displays.
pub open spec fn is_active_read(
    asked: Seq<RequestView>,
    replies: Seq<Reply>,
    displays: Seq<DisplayData>,
    target: TargetView,
    workspace_name: Seq<char>,
    display_uuid: Seq<char>,
) -> bool {
    exists|display: int, at: int, active: int, place: int|
        active_read_at(
            asked,
            replies,
            displays,
            target,
            workspace_name,
            display_uuid,
            display,
            at,
            active,
            place,
        )
}

/// Whether the window that was focused was moved to the active workspace of the display beside its
/// own, and followed: by the operations of following, and so that the last that was asked shows it
/// there, and focused.
pub open spec fn followed_beside(
    asked: Seq<RequestView>,
    replies: Seq<Reply>,
    displays: Seq<DisplayData>,
    source: FocusedWorkspaceView,
    direction: DisplayDirection,
) -> bool {
    exists|at: int, target: TargetView, workspace_name: Seq<char>|
        #[trigger] queries::is_display(displays, source.display_uuid, at)
            && #[trigger] is_active_read(
            asked,
            replies,
            displays,
            target,
            workspace_name,
            displays[command_line::place_beside(at, direction, displays.len() as int)].uuid@,
        ) && steps::are_those_of_following(
            laws::operations_of(asked),
            single(),
            target,
            workspace_name,
            source.focused_window,
            source.display_uuid,
        ) && outcomes::window_ended_in(
            asked,
            replies,
            target,
            workspace_name,
            source.focused_window.id,
        )
}

proof fn lemma_onto(
    display: DisplayData,
    displays: Seq<DisplayData>,
    focused: FocusedWindowView,
    earlier: Seq<RequestView>,
    replies: Seq<Reply>,
) -> (named: (Seq<char>, TargetView))
    requires
        earlier.len() <= replies.len(),
        laws::operations_of(earlier) == Seq::<OperationView>::empty(),
        dialogue::run(
            move_window_to_display::move_window_onto(display, displays, focused),
            replies.skip(earlier.len() as int),
        ) is Finished,
    ensures
        ({
            let asked = earlier + laws::requests(
                move_window_to_display::move_window_onto(display, displays, focused),
                replies.skip(earlier.len() as int),
            );
            &&& is_active_read(asked, replies, displays, named.1, named.0, display.uuid@)
            &&& steps::are_those_of_following(
                laws::operations_of(asked),
                single(),
                named.1,
                named.0,
                focused.window,
                focused.location.display_uuid,
            )
            &&& outcomes::window_ended_in(
                asked,
                replies,
                named.1,
                named.0,
                focused.window.id,
            )
        }),
{
    let from = replies.skip(earlier.len() as int);
    let whole = move_window_to_display::move_window_onto(display, displays, focused);
    let context = rift::active_target_context(display.uuid@, displays);
    let (one, two) = lemma_onto_parts(display, displays, focused, from);
    let named = dialogue::run(context, from)->Finished_0;
    let aimed = laws::requests(context, from);
    let begun = seq![RequestView::Outside(AskView::Subscribe)];
    let following = placement::window_follow(single(), named.1, named.0, focused);
    let followed = laws::requests(following, two);
    let asked = earlier + laws::requests(whole, from);
    let (at, active, place) =
        queries::an_active_destination_is_the_active_workspace_of_the_display(
        display.uuid@,
        displays,
        from,
    );
    let n = earlier.len() as int;
    assert(asked =~= (earlier + aimed) + (begun + followed));
    assert(asked[n] == aimed[0] && asked[n + 1] == aimed[1]);
    assert(from[0] == replies[n] && from[1] == replies[n + 1]);
    assert(active_read_at(
        asked,
        replies,
        displays,
        named.1,
        named.0,
        display.uuid@,
        at,
        n,
        active,
        place,
    ));
    steps::a_window_is_moved_and_followed_by_these_operations(
        single(),
        named.1,
        named.0,
        focused,
        two,
    );
    placing::a_followed_window_ends_in_place(single(), named.1, named.0, focused, two);
    let before = earlier + (aimed + begun);
    assert(asked =~= before + followed);
    assert(replies.skip(before.len() as int) =~= two);
    placing::lemma_ended_in_place_later(
        before,
        followed,
        replies,
        named.1,
        named.0,
        focused.window.id,
    );
    outcomes::lemma_window_ended(asked, replies, named.1, named.0, focused.window.id);
    laws::lemma_operations_of_append(earlier, aimed + begun);
    laws::lemma_operations_of_append(before, followed);
    lemma_none_submitted(aimed + begun);
    let none = Seq::<OperationView>::empty();
    assert(none + none =~= none);
    assert(none + laws::operations_of(followed) =~= laws::operations_of(followed));
    named
}

/// Requests without an operation have none.
pub proof fn lemma_none_submitted(asked: Seq<RequestView>)
    requires
        forall|i: int| 0 <= i < asked.len() ==> !((#[trigger] asked[i]) is Transact),
    ensures
        laws::operations_of(asked) == Seq::<OperationView>::empty(),
    decreases asked.len(),
{
    if asked.len() > 0 {
        assert forall|i: int| 0 <= i < asked.drop_last().len() implies !((
        #[trigger] asked.drop_last()[i]) is Transact) by {
            assert(asked.drop_last()[i] == asked[i]);
        }
        lemma_none_submitted(asked.drop_last());
        assert(!(asked[asked.len() - 1] is Transact));
    }
}

proof fn lemma_onto_parts(
    display: DisplayData,
    displays: Seq<DisplayData>,
    focused: FocusedWindowView,
    replies: Seq<Reply>,
) -> (rests: (Seq<Reply>, Seq<Reply>))
    requires
        dialogue::run(
            move_window_to_display::move_window_onto(display, displays, focused),
            replies,
        ) is Finished,
    ensures
        ({
            let context = rift::active_target_context(display.uuid@, displays);
            let named = dialogue::run(context, replies)->Finished_0;
            let following = placement::window_follow(single(), named.1, named.0, focused);
            let (one, two) = rests;
            &&& dialogue::run(context, replies) is Finished
            &&& laws::requests(context, replies).len() <= replies.len()
            &&& one == replies.skip(laws::requests(context, replies).len() as int)
            &&& one.len() > 0
            &&& two == one.skip(1)
            &&& dialogue::run(following, two) is Finished
            &&& laws::requests(
                move_window_to_display::move_window_onto(display, displays, focused),
                replies,
            ) == laws::requests(context, replies) + (seq![
                RequestView::Outside(AskView::Subscribe),
            ] + laws::requests(following, two))
        }),
{
    broadcast use {dialogue::group_run, laws::group_requests};

    reveal(move_window_to_display::move_window_onto);
    let context = rift::active_target_context(display.uuid@, displays);
    laws::each_request_has_its_reply(context, replies);
    let one = laws::left_over(dialogue::run(context, replies));
    assert(one.len() > 0 && one[0] is Done);
    steps::a_single_command_has_two_and_a_half_seconds(one);
    (one, one.skip(1))
}

/// `move-window-to-display` that has succeeded read the displays and found the focused window. With
/// fewer than two displays it did no more. Else the window was moved to the active workspace of the
/// display beside its own and followed, and the last that was asked shows it there, and focused.
pub proof fn a_moved_window_arrives_beside(direction: DisplayDirection, replies: Seq<Reply>)
    requires
        dialogue::run(move_window_to_display::move_window_program(direction), replies) is Finished,
    ensures
        ({
            let asked = laws::requests(
                move_window_to_display::move_window_program(direction),
                replies,
            );
            let displays = replies[1]->Displays_0@;
            &&& outcomes::begins_with_displays(asked, replies, displays)
            &&& exists|source: FocusedWorkspaceView|
                #[trigger] window_found_by(asked, replies, displays, source, 2) && if displays.len()
                    < 2 {
                    laws::operations_of(asked) == Seq::<OperationView>::empty() && asked.len() == 2
                        + laws::requests(rift::focused_window(displays), replies.skip(2)).len()
                } else {
                    followed_beside(asked, replies, displays, source, direction)
                }
        }),
{
    let whole = move_window_to_display::move_window_program(direction);
    let asked = laws::requests(whole, replies);
    placing::lemma_move_window_parts(direction, replies);
    let displays = replies[1]->Displays_0@;
    let finding = rift::focused_window(displays);
    let one = replies.skip(2);
    let found = laws::requests(finding, one);
    let focused = dialogue::run(finding, one)->Finished_0;
    laws::each_request_has_its_reply(finding, one);
    let rest = laws::left_over(dialogue::run(finding, one));
    let start = seq![
        RequestView::Outside(AskView::Connect),
        RequestView::Outside(AskView::Displays),
    ];
    assert(asked.subrange(2, 2 + found.len() as int) =~= found);
    let source = lemma_window_found(asked, replies, displays, 2);
    command_line::the_neighbour_stands_beside_the_display(
        displays,
        source.display_uuid,
        direction,
    );
    lemma_looks(Seq::empty(), Seq::empty(), displays);
    laws::lemma_no_operations(finding, one);
    laws::lemma_operations_of_append(start, found);
    lemma_none_submitted(start);
    let none = Seq::<OperationView>::empty();
    assert(none + none =~= none);
    if displays.len() >= 2 {
        let earlier = start + found;
        assert(replies.skip(earlier.len() as int) =~= rest);
        let at = outcomes::lemma_stands(displays, source.display_uuid);
        let display = displays[command_line::place_beside(
            at,
            direction,
            displays.len() as int,
        )];
        let named = lemma_onto(display, displays, focused, earlier, replies);
        let moved = laws::requests(
            move_window_to_display::move_window_onto(display, displays, focused),
            rest,
        );
        assert(asked =~= earlier + moved);
        assert(is_active_read(asked, replies, displays, named.1, named.0, display.uuid@));
        assert(followed_beside(asked, replies, displays, source, direction));
    }
}

} // verus!
