//! What a run of the worker leaves behind: the calls on the backend and the
//! events posted, as functions of the commands taken and of what the backend
//! answered.

use crate::storage::Exchange;
use crate::worker::{answer, conducts, CommandView, Event, EventView};
use vstd::prelude::*;

verus! {

/// Whether the worker stops taking commands from `cmds` at position `k`: the
/// first `Stop` stands there, or `cmds` holds none and `k` is its length.
pub open spec fn stops_at(cmds: Seq<CommandView>, k: int) -> bool {
    &&& 0 <= k <= cmds.len()
    &&& forall|i: int| 0 <= i < k ==> (#[trigger] cmds[i]) !is Stop
    &&& k < cmds.len() ==> cmds[k] is Stop
}

/// The position of the first `Stop` in `cmds`, or the length of `cmds` where
/// it holds none. The commands before it are the ones that are carried out.
pub open spec fn stop_index(cmds: Seq<CommandView>) -> int {
    choose|k: int| stops_at(cmds, k)
}

/// There is one position at which the worker stops, and `stop_index` is it.
pub proof fn lemma_stop_index(cmds: Seq<CommandView>, k: int)
    requires
        stops_at(cmds, k),
    ensures
        stop_index(cmds) == k,
{
    let j = stop_index(cmds);
    assert(stops_at(cmds, j));
    if j < k {
        assert(cmds[j] !is Stop);
    } else if k < j {
        assert(cmds[k] !is Stop);
    }
}

/// Every queue has a position at which the worker stops.
pub proof fn lemma_stop_index_exists(cmds: Seq<CommandView>)
    ensures
        stops_at(cmds, stop_index(cmds)),
    decreases cmds.len(),
{
    if cmds.len() == 0 {
        assert(stops_at(cmds, 0));
    } else {
        let init = cmds.drop_last();
        lemma_stop_index_exists(init);
        let k = stop_index(init);
        if k < init.len() {
            assert(forall|i: int| 0 <= i < k ==> cmds[i] == init[i]);
            assert(cmds[k] == init[k]);
            assert(stops_at(cmds, k));
        } else if cmds.last() is Stop {
            assert(forall|i: int| 0 <= i < k ==> cmds[i] == init[i]);
            assert(stops_at(cmds, k));
        } else {
            assert forall|i: int| 0 <= i < cmds.len() implies (#[trigger] cmds[i]) !is Stop by {
                if i < k {
                    assert(cmds[i] == init[i]);
                }
            }
            assert(stops_at(cmds, cmds.len() as int));
        }
    }
}

/// How many of the last calls in `calls` were made for `cmd`, where `cmd` was
/// the last command carried out.
pub open spec fn span(cmd: CommandView, calls: Seq<Exchange>) -> int {
    match cmd {
        CommandView::Stop => 0,
        CommandView::AddSession(_, _) => if calls.len() > 0 && calls.last().request is UpdateTime {
            2
        } else {
            1
        },
        _ => 1,
    }
}

/// The calls in `calls` that were made before the last command of `cmds`.
pub open spec fn earlier(cmds: Seq<CommandView>, calls: Seq<Exchange>) -> Seq<Exchange> {
    calls.take(calls.len() - span(cmds.last(), calls))
}

/// The calls in `calls` that were made for the last command of `cmds`.
pub open spec fn latest(cmds: Seq<CommandView>, calls: Seq<Exchange>) -> Seq<Exchange> {
    calls.skip(calls.len() - span(cmds.last(), calls))
}

/// `calls` is the record that carrying out `cmds`, one after the other, leaves
/// on a backend: the calls of the first command, then those of the second, and
/// so on, with nothing before, between or after them.
pub open spec fn carried(cmds: Seq<CommandView>, calls: Seq<Exchange>) -> bool
    decreases cmds.len(),
{
    if cmds.len() == 0 {
        calls.len() == 0
    } else {
        &&& span(cmds.last(), calls) <= calls.len()
        &&& conducts(cmds.last(), latest(cmds, calls))
        &&& carried(cmds.drop_last(), earlier(cmds, calls))
    }
}

/// The events that the worker posts while it carries out `cmds` and the
/// backend answers as `calls` records, in the order in which it posts them.
pub open spec fn posted(cmds: Seq<CommandView>, calls: Seq<Exchange>) -> Seq<EventView>
    decreases cmds.len(),
{
    if cmds.len() == 0 {
        Seq::empty()
    } else {
        let before = posted(cmds.drop_last(), earlier(cmds, calls));
        match answer(cmds.last(), latest(cmds, calls)) {
            Some(event) => before.push(event),
            None => before,
        }
    }
}

/// The events that a run over the queue `cmds` posts: those of the commands
/// before the first `Stop`, then `Stopped` if there is a `Stop`.
pub open spec fn run_events(cmds: Seq<CommandView>, calls: Seq<Exchange>) -> Seq<EventView> {
    let k = stop_index(cmds);
    if k < cmds.len() {
        posted(cmds.take(k), calls).push(EventView::Stopped)
    } else {
        posted(cmds.take(k), calls)
    }
}

/// The views of a list of events.
pub open spec fn views(events: Seq<Event>) -> Seq<EventView> {
    Seq::new(events.len(), |i: int| events[i]@)
}

/// The views of a list of commands.
pub open spec fn command_views(cmds: Seq<crate::worker::Command>) -> Seq<CommandView> {
    Seq::new(cmds.len(), |i: int| cmds[i]@)
}

/// One more command, carried out after `cmds` with the calls `seg`, extends
/// the record and the events at their ends.
pub proof fn lemma_carry_on(cmds: Seq<CommandView>, calls: Seq<Exchange>, cmd: CommandView, seg: Seq<Exchange>)
    requires
        carried(cmds, calls),
        conducts(cmd, seg),
    ensures
        carried(cmds.push(cmd), calls + seg),
        posted(cmds.push(cmd), calls + seg) == match answer(cmd, seg) {
            Some(event) => posted(cmds, calls).push(event),
            None => posted(cmds, calls),
        },
{
    let all = cmds.push(cmd);
    let both = calls + seg;
    assert(all.last() == cmd);
    assert(all.drop_last() =~= cmds);
    assert(span(cmd, both) == seg.len()) by {
        if seg.len() > 0 {
            assert(both.last() == seg.last());
        }
    }
    assert(earlier(all, both) =~= calls);
    assert(latest(all, both) =~= seg);
}

} // verus!
