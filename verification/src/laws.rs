//! What holds of every run of the worker, whatever the commands are and
//! whatever the backend answers.

use crate::storage::{Exchange, Request};
use crate::trace::{carried, earlier, latest, lemma_stop_index, posted, run_events, span, stop_index, stops_at};
use crate::worker::{answer, conducts, CommandView, EventView};
use vstd::prelude::*;

verus! {

/// The position in `cmds` of the command for which call `k` of `calls` was
/// made.
pub open spec fn owner(cmds: Seq<CommandView>, calls: Seq<Exchange>, k: int) -> int
    decreases cmds.len(),
{
    if cmds.len() == 0 {
        0
    } else if k >= calls.len() - span(cmds.last(), calls) {
        cmds.len() - 1
    } else {
        owner(cmds.drop_last(), earlier(cmds, calls), k)
    }
}

/// Whether carrying out `cmd` may make the call `request`.
pub open spec fn asks(cmd: CommandView, request: Request) -> bool {
    match cmd {
        CommandView::AddAction(name) => request == Request::CreateAction { name },
        CommandView::AddSubject(name) => request == Request::CreateSubject { name },
        CommandView::AddSession(session, total) => {
            ||| request == Request::AddSession { session }
            ||| request == Request::UpdateTime { topic: session.topic(), total }
        },
        CommandView::Stop => false,
    }
}

/// The calls in `calls` that were made for the command at position `i` of
/// `cmds`.
pub open spec fn segment(cmds: Seq<CommandView>, calls: Seq<Exchange>, i: int) -> Seq<Exchange>
    decreases cmds.len(),
{
    if cmds.len() == 0 {
        Seq::empty()
    } else if i >= cmds.len() - 1 {
        latest(cmds, calls)
    } else {
        segment(cmds.drop_last(), earlier(cmds, calls), i)
    }
}

/// How many of the events report an error.
pub open spec fn errors(events: Seq<EventView>) -> nat
    decreases events.len(),
{
    if events.len() == 0 {
        0
    } else {
        errors(events.drop_last()) + if events.last() is Error { 1nat } else { 0nat }
    }
}

/// How many of the events say that the worker has stopped.
pub open spec fn stops(events: Seq<EventView>) -> nat
    decreases events.len(),
{
    if events.len() == 0 {
        0
    } else {
        stops(events.drop_last()) + if events.last() is Stopped { 1nat } else { 0nat }
    }
}

/// How many of the calls failed.
pub open spec fn failures(calls: Seq<Exchange>) -> nat
    decreases calls.len(),
{
    if calls.len() == 0 {
        0
    } else {
        failures(calls.drop_last()) + if calls.last().reply is Failed { 1nat } else { 0nat }
    }
}

proof fn lemma_failures_add(a: Seq<Exchange>, b: Seq<Exchange>)
    ensures
        failures(a + b) == failures(a) + failures(b),
    decreases b.len(),
{
    if b.len() == 0 {
        assert(a + b =~= a);
    } else {
        lemma_failures_add(a, b.drop_last());
        assert((a + b).drop_last() =~= a + b.drop_last());
        assert((a + b).last() == b.last());
    }
}

/// Each call in the record was made for one of the commands, and is a call
/// that this command asks for.
pub proof fn lemma_call_has_owner(cmds: Seq<CommandView>, calls: Seq<Exchange>, k: int)
    requires
        carried(cmds, calls),
        0 <= k < calls.len(),
    ensures
        0 <= owner(cmds, calls, k) < cmds.len(),
        asks(cmds[owner(cmds, calls, k)], calls[k].request),
    decreases cmds.len(),
{
    let n = span(cmds.last(), calls);
    if k >= calls.len() - n {
        let seg = latest(cmds, calls);
        assert(seg[k - (calls.len() - n)] == calls[k]);
    } else {
        lemma_call_has_owner(cmds.drop_last(), earlier(cmds, calls), k);
    }
}

/// The calls on the backend come in the order in which the
/// commands were queued: of two calls, the earlier one was made for the same
/// command as the later one or for a command queued before it.
pub proof fn lemma_calls_keep_queue_order(cmds: Seq<CommandView>, calls: Seq<Exchange>, j: int, k: int)
    requires
        carried(cmds, calls),
        0 <= j <= k < calls.len(),
    ensures
        0 <= owner(cmds, calls, j) <= owner(cmds, calls, k) < cmds.len(),
        asks(cmds[owner(cmds, calls, j)], calls[j].request),
        asks(cmds[owner(cmds, calls, k)], calls[k].request),
    decreases cmds.len(),
{
    lemma_call_has_owner(cmds, calls, j);
    lemma_call_has_owner(cmds, calls, k);
    let n = span(cmds.last(), calls);
    if k < calls.len() - n {
        lemma_calls_keep_queue_order(cmds.drop_last(), earlier(cmds, calls), j, k);
    }
}

/// A failure does not end the run: every command is carried out in full,
/// whatever the backend answered to the commands before it.
pub proof fn lemma_every_command_is_carried_out(cmds: Seq<CommandView>, calls: Seq<Exchange>, i: int)
    requires
        carried(cmds, calls),
        0 <= i < cmds.len(),
    ensures
        conducts(cmds[i], segment(cmds, calls, i)),
    decreases cmds.len(),
{
    if i < cmds.len() - 1 {
        lemma_every_command_is_carried_out(cmds.drop_last(), earlier(cmds, calls), i);
    }
}

/// The worker posts exactly one `Error` for
/// each call that failed, and none besides. Where one call fails and all
/// others succeed, one `Error` is posted.
pub proof fn lemma_one_error_per_failure(cmds: Seq<CommandView>, calls: Seq<Exchange>)
    requires
        carried(cmds, calls),
    ensures
        errors(posted(cmds, calls)) == failures(calls),
    decreases cmds.len(),
{
    if cmds.len() > 0 {
        let before = earlier(cmds, calls);
        let seg = latest(cmds, calls);
        lemma_one_error_per_failure(cmds.drop_last(), before);
        assert(calls =~= before + seg);
        lemma_failures_add(before, seg);
        let prior = posted(cmds.drop_last(), before);
        assert(failures(seg) == if seg.len() > 0 && seg.last().reply is Failed { 1nat } else { 0nat }) by {
            reveal_with_fuel(failures, 3);
            assert(conducts(cmds.last(), seg));
            if seg.len() == 2 {
                assert(seg.drop_last().last() == seg[0]);
            }
        }
        match answer(cmds.last(), seg) {
            Some(event) => {
                assert(prior.push(event).drop_last() =~= prior);
            },
            None => {},
        }
    }
}

/// A command whose calls all succeeded posts its success: the category that
/// the backend created, under the name that the backend gave it. A session
/// that was stored posts nothing.
pub proof fn lemma_success_is_posted(cmd: CommandView, seg: Seq<Exchange>)
    requires
        conducts(cmd, seg),
        forall|k: int| 0 <= k < seg.len() ==> !((#[trigger] seg[k]).reply is Failed),
    ensures
        answer(cmd, seg) == match cmd {
            CommandView::AddAction(_) => Some(EventView::ActionAdded(seg[0].reply->name)),
            CommandView::AddSubject(_) => Some(EventView::SubjectAdded(seg[0].reply->name)),
            CommandView::AddSession(_, _) => None::<EventView>,
            CommandView::Stop => None::<EventView>,
        },
{
    if seg.len() > 0 {
        assert(!(seg[seg.len() - 1].reply is Failed));
        assert(!(seg[0].reply is Failed));
    }
}

/// A command with a call that failed posts the message of that failure as an
/// `Error`, and nothing else.
pub proof fn lemma_failure_is_posted(cmd: CommandView, seg: Seq<Exchange>, k: int)
    requires
        conducts(cmd, seg),
        0 <= k < seg.len(),
        seg[k].reply is Failed,
    ensures
        k == seg.len() - 1,
        answer(cmd, seg) == Some(EventView::Error(seg[k].reply->message)),
{
}

/// No event of a command is `Stopped`: that event is kept for the end of the
/// run.
pub proof fn lemma_no_early_stop(cmds: Seq<CommandView>, calls: Seq<Exchange>)
    ensures
        stops(posted(cmds, calls)) == 0,
    decreases cmds.len(),
{
    if cmds.len() > 0 {
        let before = earlier(cmds, calls);
        lemma_no_early_stop(cmds.drop_last(), before);
        let prior = posted(cmds.drop_last(), before);
        match answer(cmds.last(), latest(cmds, calls)) {
            Some(event) => {
                assert(prior.push(event).drop_last() =~= prior);
            },
            None => {},
        }
    }
}

/// `Stop` is terminal. Where the first `Stop` stands at position `k` of
/// the queue, the run posts the events of the commands before it and then
/// `Stopped`, once. What is queued behind that `Stop` has no part in the run:
/// another queue that is the same up to and including position `k` gives the
/// same run.
pub proof fn lemma_stop_is_terminal(
    cmds: Seq<CommandView>,
    other: Seq<CommandView>,
    calls: Seq<Exchange>,
    k: int,
)
    requires
        stops_at(cmds, k),
        k < cmds.len(),
        k < other.len(),
        other.take(k + 1) == cmds.take(k + 1),
    ensures
        stop_index(cmds) == k,
        stop_index(other) == k,
        run_events(cmds, calls) == posted(cmds.take(k), calls).push(EventView::Stopped),
        run_events(other, calls) == run_events(cmds, calls),
        stops(run_events(cmds, calls)) == 1,
{
    lemma_stop_index(cmds, k);
    assert forall|i: int| 0 <= i <= k implies other[i] == cmds[i] by {
        assert(other.take(k + 1)[i] == other[i]);
        assert(cmds.take(k + 1)[i] == cmds[i]);
    }
    assert(stops_at(other, k));
    lemma_stop_index(other, k);
    assert(other.take(k) =~= cmds.take(k));
    lemma_no_early_stop(cmds.take(k), calls);
    let events = posted(cmds.take(k), calls);
    assert(events.push(EventView::Stopped).drop_last() =~= events);
}

/// A queue without `Stop` leaves the worker running: no `Stopped` is posted.
pub proof fn lemma_no_stop_no_stopped(cmds: Seq<CommandView>, calls: Seq<Exchange>)
    requires
        stops_at(cmds, cmds.len() as int),
    ensures
        stops(run_events(cmds, calls)) == 0,
{
    lemma_stop_index(cmds, cmds.len() as int);
    lemma_no_early_stop(cmds.take(cmds.len() as int), calls);
}

} // verus!
