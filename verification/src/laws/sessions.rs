//! What holds of a command under way.
use crate::dialogue;
use crate::dialogue::{Outcome, Reply};
use crate::laws::waiting;
use crate::session;
use crate::session::{ActivityView, Progress, SessionView};
use crate::space_escape;
use crate::space_escape::{WatchStage, WatchTurn};
use crate::transaction;
use crate::transaction::{OperationView, Stage};
use vstd::prelude::*;

verus! {

broadcast use dialogue::group_run;

/// A wait for a display reports displays only where they show it on a space that Rift manages.
pub proof fn a_wait_reports_only_managed_displays(
    display_uuid: Seq<char>,
    watch: WatchStage,
    before: SessionView,
    after: SessionView,
    progress: Progress,
)
    requires
        before.activity == (ActivityView::Watch { display_uuid, watch }),
        session::steps(before, after, progress),
        after.activity is Command,
    ensures
        after.replies.len() == before.replies.len() + 1,
        match after.replies.last() {
            Reply::Displays(displays) => space_escape::is_managed(displays@, display_uuid),
            Reply::Nothing => true,
            Reply::Failed(_) => true,
            _ => false,
        },
{
    let turn = space_escape::watch_turn(display_uuid, watch);
    match dialogue::run(turn, before.turn_replies) {
        Outcome::Finished(WatchTurn::Escaped, _) => {
            space_escape::an_escape_is_shown_by_the_displays(
                display_uuid,
                watch,
                before.turn_replies,
            );
        },
        _ => {},
    }
}

/// A session at the start of a turn asks the outside next: it cannot go round by itself.
pub proof fn a_turn_starts_by_asking(before: SessionView, after: SessionView, progress: Progress)
    requires
        !(before.activity is Command),
        before.turn_replies.len() == 0,
        session::steps(before, after, progress),
    ensures
        progress is Ask,
        after == before,
{
    assert(before.turn_replies =~= Seq::<Reply>::empty());
}

/// An operation is answered only once it is over: as done where its wait ended, as failed where
/// it failed.
pub proof fn an_operation_is_answered_by_its_end(
    before: SessionView,
    after: SessionView,
    progress: Progress,
)
    requires
        before.activity is Operation,
        session::steps(before, after, progress),
        after.activity is Command,
    ensures
        after.replies.len() == before.replies.len() + 1,
        after.replies.drop_last() == before.replies,
        progress is Waited <==> after.replies.last() is Done,
        !(progress is Waited) <==> after.replies.last() is Failed,
{
    assert(after.replies.drop_last() =~= before.replies);
}

/// An operation counts as done only once Rift's state has shown it: where it waited, the check
/// held at the last look of its last turn; where it settled, the state had lasted for 350
/// milliseconds.
pub proof fn an_operation_is_done_once_its_check_held(
    operation: OperationView,
    stage: Stage,
    before: SessionView,
    after: SessionView,
    progress: Progress,
)
    requires
        before.activity == (ActivityView::Operation { operation, stage }),
        session::steps(before, after, progress),
        progress is Waited,
    ensures
        stage is Waiting || stage is Settling,
        stage is Waiting ==> exists|rest: Seq<Reply>|
            waiting::ended_with_check(operation, before.turn_replies, rest),
        stage is Settling ==> (stage->stable_since matches Some(since)
            && before.turn_replies.len() >= 2 && before.turn_replies[1] is Now
            && before.turn_replies[1]->Now_0 - since >= 350_000_000),
{
    let replies = before.turn_replies;
    let rest = dialogue::run(transaction::turn(operation, stage), replies)->Finished_1;
    match stage {
        Stage::Waiting { started, deadline, matching_event_seen } => {
            waiting::a_wait_ends_with_the_check(
                operation,
                started,
                deadline,
                matching_event_seen,
                replies,
            );
            assert(waiting::ended_with_check(operation, replies, rest));
        },
        Stage::Settling { started, deadline, stable_since } => {
            waiting::a_settled_state_has_lasted(
                operation,
                started,
                deadline,
                stable_since,
                replies,
            );
        },
        _ => {},
    }
}

} // verus!
