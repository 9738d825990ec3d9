//! The worker: it takes commands one at a time, in the order in which they were
//! queued, carries each out against the backend that it alone uses, and says
//! which event is to be posted to the user interface.
//!
//! Waiting for a command and posting an event are left to the caller. The
//! worker is handed what came of either and answers with what is to be done
//! next.

use crate::session::{Session, SessionView};
use crate::state::{Action, SpentTime, Subject};
use crate::storage::{Backend, BackendError, Exchange, Owned, Reply, Request};
use crate::trace::{carried, command_views, lemma_carry_on, lemma_stop_index, posted, run_events, stop_index, stops_at, views};
use vstd::prelude::*;

verus! {

/// An instruction from the user interface to the worker.
#[derive(Debug)]
pub enum Command {
    AddAction(String),
    AddSubject(String),
    /// A closed session, with the new total of its topic as the sender
    /// computed it.
    AddSession(Session, SpentTime),
    Stop,
}

/// A command, with names as sequences of characters and times in nanoseconds.
pub enum CommandView {
    AddAction(Seq<char>),
    AddSubject(Seq<char>),
    AddSession(SessionView, nat),
    Stop,
}

impl View for Command {
    type V = CommandView;

    open spec fn view(&self) -> CommandView {
        match self {
            Command::AddAction(name) => CommandView::AddAction(name@),
            Command::AddSubject(name) => CommandView::AddSubject(name@),
            Command::AddSession(session, total) => CommandView::AddSession(session@, total@),
            Command::Stop => CommandView::Stop,
        }
    }
}

/// A notification from the worker to the user interface.
#[derive(Debug, PartialEq, Eq)]
pub enum Event {
    ActionAdded(Action),
    SubjectAdded(Subject),
    Error(String),
    Stopped,
}

/// An event, with names and messages as sequences of characters.
pub enum EventView {
    ActionAdded(Seq<char>),
    SubjectAdded(Seq<char>),
    Error(Seq<char>),
    Stopped,
}

impl View for Event {
    type V = EventView;

    open spec fn view(&self) -> EventView {
        match self {
            Event::ActionAdded(action) => EventView::ActionAdded(action@),
            Event::SubjectAdded(subject) => EventView::SubjectAdded(subject@),
            Event::Error(message) => EventView::Error(message@),
            Event::Stopped => EventView::Stopped,
        }
    }
}

/// Whether the worker goes on to the next command.
#[derive(Clone, Copy, Debug, PartialEq, Eq, Structural)]
pub enum Continue {
    Yes,
    No,
}

/// The calls that carrying out `cmd` makes on a backend, as `seg` records
/// them: one call to create a category; for a session the append and, only if
/// that succeeded, the update of the total; none for `Stop`.
pub open spec fn conducts(cmd: CommandView, seg: Seq<Exchange>) -> bool {
    match cmd {
        CommandView::AddAction(name) => {
            &&& seg.len() == 1
            &&& seg[0].request == Request::CreateAction { name }
            &&& seg[0].reply !is Done
        },
        CommandView::AddSubject(name) => {
            &&& seg.len() == 1
            &&& seg[0].request == Request::CreateSubject { name }
            &&& seg[0].reply !is Done
        },
        CommandView::AddSession(session, total) => {
            &&& seg.len() >= 1
            &&& seg[0].request == Request::AddSession { session }
            &&& seg[0].reply !is Created
            &&& if seg[0].reply is Done {
                &&& seg.len() == 2
                &&& seg[1].request == Request::UpdateTime { topic: session.topic(), total }
                &&& seg[1].reply !is Created
            } else {
                seg.len() == 1
            }
        },
        CommandView::Stop => seg.len() == 0,
    }
}

/// The event that the worker posts for `cmd` once the backend has answered as
/// `seg` records: the error of the call that failed, else the category that
/// was created, else nothing.
pub open spec fn answer(cmd: CommandView, seg: Seq<Exchange>) -> Option<EventView> {
    if seg.len() == 0 {
        None
    } else {
        match seg.last().reply {
            Reply::Failed { message } => Some(EventView::Error(message)),
            Reply::Created { name } => match cmd {
                CommandView::AddAction(_) => Some(EventView::ActionAdded(name)),
                CommandView::AddSubject(_) => Some(EventView::SubjectAdded(name)),
                _ => None,
            },
            Reply::Done => None,
        }
    }
}

/// What `handle_command` returns for `cmd` once the backend has answered as
/// `seg` records.
pub open spec fn outcome(cmd: CommandView, seg: Seq<Exchange>) -> Result<
    (Continue, Option<EventView>),
    Seq<char>,
> {
    match answer(cmd, seg) {
        Some(EventView::Error(message)) => Err(message),
        reply => Ok((if cmd is Stop { Continue::No } else { Continue::Yes }, reply)),
    }
}

/// The view of an event, if there is one.
pub open spec fn event_view(event: Option<Event>) -> Option<EventView> {
    match event {
        Some(e) => Some(e@),
        None => None,
    }
}

/// The result of `handle_command` over views.
pub open spec fn handled_view(r: Result<(Continue, Option<Event>), BackendError>) -> Result<
    (Continue, Option<EventView>),
    Seq<char>,
> {
    match r {
        Ok((proceed, event)) => Ok((proceed, event_view(event))),
        Err(e) => Err(e@),
    }
}

/// The exchanges that `after` holds beyond those of `before`.
pub open spec fn added(before: Seq<Exchange>, after: Seq<Exchange>) -> Seq<Exchange> {
    after.skip(before.len() as int)
}

/// Carries out one command against the backend.
///
/// Returns the event to post on success, if the command has one, and whether
/// the worker goes on; or the error of the backend call that failed. A failed
/// call ends the command: no later call of it is made.
pub fn handle_command<B: Backend>(cmd: Command, backend: &mut Owned<B>) -> (r: Result<
    (Continue, Option<Event>),
    BackendError,
>)
    ensures
        old(backend).history().is_prefix_of(final(backend).history()),
        conducts(cmd@, added(old(backend).history(), final(backend).history())),
        handled_view(r) == outcome(cmd@, added(old(backend).history(), final(backend).history())),
{
    let ghost before = backend.history();
    match cmd {
        Command::AddAction(name) => {
            let created = backend.create_action(name.as_str());
            assert(added(before, backend.history()) =~= seq![backend.history().last()]);
            match created {
                Ok(action) => Ok((Continue::Yes, Some(Event::ActionAdded(action)))),
                Err(e) => Err(e),
            }
        },
        Command::AddSubject(name) => {
            let created = backend.create_subject(name.as_str());
            assert(added(before, backend.history()) =~= seq![backend.history().last()]);
            match created {
                Ok(subject) => Ok((Continue::Yes, Some(Event::SubjectAdded(subject)))),
                Err(e) => Err(e),
            }
        },
        Command::AddSession(session, total) => {
            let appended = backend.add_session(&session);
            let ghost first = backend.history().last();
            assert(added(before, backend.history()) =~= seq![first]);
            match appended {
                Ok(_) => {
                    let topic = session.topic();
                    let updated = backend.update_time(&topic, &total);
                    assert(added(before, backend.history()) =~= seq![first, backend.history().last()]);
                    match updated {
                        Ok(_) => Ok((Continue::Yes, None)),
                        Err(e) => Err(e),
                    }
                },
                Err(e) => Err(e),
            }
        },
        Command::Stop => {
            assert(added(before, backend.history()) =~= Seq::<Exchange>::empty());
            Ok((Continue::No, None))
        },
    }
}

/// Why the worker came to its end.
#[derive(Clone, Copy, Debug, PartialEq, Eq, Structural)]
pub enum Ending {
    /// A `Stop` command was taken from the queue.
    Stopped,
    /// The queue was closed while the worker waited for a command.
    QueueClosed,
    /// The report of an error could not be posted.
    SinkClosed,
}

/// Which kind of event is out for delivery.
#[derive(Clone, Copy, Debug, PartialEq, Eq, Structural)]
pub enum Awaiting {
    /// The success of a command.
    Reply,
    /// The report of an error.
    Report,
    /// The notice that the worker has stopped.
    Farewell(Ending),
}

/// The two states of the worker.
#[derive(Clone, Copy, Debug, PartialEq, Eq, Structural)]
pub enum WorkerState {
    Running,
    Stopped,
}

/// A worker that waits for its next command.
#[derive(Debug)]
pub struct Worker {
    ready: (),
}

/// A worker that has handed out an event and waits to hear whether it was
/// delivered.
#[derive(Debug)]
pub struct Pending {
    awaiting: Awaiting,
}

impl View for Pending {
    type V = Awaiting;

    closed spec fn view(&self) -> Awaiting {
        self.awaiting
    }
}

/// What the caller does next on behalf of the worker.
#[derive(Debug)]
pub enum Next {
    /// Wait for a command and hand it to the worker.
    Receive(Worker),
    /// Post the event and tell the worker whether it was delivered.
    Post(Event, Pending),
    /// Leave: the worker is done.
    Exit(Ending),
}

/// What is to be done next, with the event as its view and the kind of event
/// that is out for delivery.
pub enum NextView {
    Receive,
    Post(EventView, Awaiting),
    Exit(Ending),
}

impl View for Next {
    type V = NextView;

    open spec fn view(&self) -> NextView {
        match self {
            Next::Receive(_) => NextView::Receive,
            Next::Post(event, pending) => NextView::Post(event@, pending@),
            Next::Exit(ending) => NextView::Exit(*ending),
        }
    }
}

impl NextView {
    /// The state of the worker: it runs until the notice of its end is out.
    pub open spec fn state(self) -> WorkerState {
        match self {
            NextView::Receive => WorkerState::Running,
            NextView::Post(_, Awaiting::Farewell(_)) => WorkerState::Stopped,
            NextView::Post(_, _) => WorkerState::Running,
            NextView::Exit(_) => WorkerState::Stopped,
        }
    }
}

/// What follows a command that was carried out with the calls `seg`: the
/// success is posted, or the error is, or the worker waits for the next
/// command; after `Stop` the notice of the end is posted.
pub open spec fn after_command(cmd: CommandView, seg: Seq<Exchange>) -> NextView {
    match outcome(cmd, seg) {
        Ok((Continue::Yes, Some(event))) => NextView::Post(event, Awaiting::Reply),
        Ok((Continue::Yes, None)) => NextView::Receive,
        Ok((Continue::No, _)) => NextView::Post(EventView::Stopped, Awaiting::Farewell(Ending::Stopped)),
        Err(message) => NextView::Post(EventView::Error(message), Awaiting::Report),
    }
}

/// What follows an event that was delivered.
pub open spec fn after_delivery(awaiting: Awaiting) -> NextView {
    match awaiting {
        Awaiting::Reply => NextView::Receive,
        Awaiting::Report => NextView::Receive,
        Awaiting::Farewell(ending) => NextView::Exit(ending),
    }
}

/// What follows an event that could not be delivered, for the given reason: a
/// lost success is reported as an error, a lost report ends the worker, and a
/// lost notice of the end changes nothing.
pub open spec fn after_failure(awaiting: Awaiting, reason: Seq<char>) -> NextView {
    match awaiting {
        Awaiting::Reply => NextView::Post(EventView::Error(reason), Awaiting::Report),
        Awaiting::Report => NextView::Post(EventView::Stopped, Awaiting::Farewell(Ending::SinkClosed)),
        Awaiting::Farewell(ending) => NextView::Exit(ending),
    }
}

impl Pending {
    /// The event was delivered.
    pub fn delivered(self) -> (next: Next)
        ensures
            next@ == after_delivery(self@),
    {
        match self.awaiting {
            Awaiting::Reply => Next::Receive(Worker { ready: () }),
            Awaiting::Report => Next::Receive(Worker { ready: () }),
            Awaiting::Farewell(ending) => Next::Exit(ending),
        }
    }

    /// The event could not be delivered; `reason` is the message of that
    /// failure.
    pub fn undelivered(self, reason: String) -> (next: Next)
        ensures
            next@ == after_failure(self@, reason@),
    {
        match self.awaiting {
            Awaiting::Reply => Next::Post(Event::Error(reason), Pending { awaiting: Awaiting::Report }),
            Awaiting::Report => Next::Post(
                Event::Stopped,
                Pending { awaiting: Awaiting::Farewell(Ending::SinkClosed) },
            ),
            Awaiting::Farewell(ending) => Next::Exit(ending),
        }
    }
}

impl Worker {
    /// Prepares the storage and, if that succeeds, gives the worker that will
    /// use it. A failure is returned and no worker comes to be.
    pub fn start<B: Backend>(backend: &mut Owned<B>) -> (r: Result<Worker, BackendError>)
        ensures
            final(backend).history().len() == old(backend).history().len() + 1,
            final(backend).history().drop_last() == old(backend).history(),
            final(backend).history().last().request == Request::Setup,
            match r {
                Ok(_) => final(backend).history().last().reply == Reply::Done,
                Err(e) => final(backend).history().last().reply == (Reply::Failed { message: e@ }),
            },
    {
        let ghost before = backend.history();
        let prepared = backend.setup();
        assert(backend.history().drop_last() =~= before);
        match prepared {
            Ok(_) => Ok(Worker { ready: () }),
            Err(e) => Err(e),
        }
    }

    /// Takes one command from the queue and carries it out.
    pub fn on_command<B: Backend>(self, cmd: Command, backend: &mut Owned<B>) -> (next: Next)
        ensures
            old(backend).history().is_prefix_of(final(backend).history()),
            conducts(cmd@, added(old(backend).history(), final(backend).history())),
            next@ == after_command(cmd@, added(old(backend).history(), final(backend).history())),
    {
        match handle_command(cmd, backend) {
            Ok((Continue::Yes, Some(event))) => Next::Post(event, Pending { awaiting: Awaiting::Reply }),
            Ok((Continue::Yes, None)) => Next::Receive(self),
            Ok((Continue::No, _)) => Next::Post(
                Event::Stopped,
                Pending { awaiting: Awaiting::Farewell(Ending::Stopped) },
            ),
            Err(e) => Next::Post(Event::Error(e.to_string()), Pending { awaiting: Awaiting::Report }),
        }
    }

    /// The queue was closed while the worker waited: the worker stops.
    pub fn on_queue_closed(self) -> (next: Next)
        ensures
            next@ == NextView::Post(EventView::Stopped, Awaiting::Farewell(Ending::QueueClosed)),
    {
        Next::Post(Event::Stopped, Pending { awaiting: Awaiting::Farewell(Ending::QueueClosed) })
    }

    /// Carries out the commands of a queue in their order, as far as the first
    /// `Stop`, with every event taken as delivered.
    ///
    /// Returns the events in the order in which they are posted, and the
    /// worker if it still runs: it does unless a `Stop` was taken, after which
    /// no further command is carried out.
    pub fn run<B: Backend>(self, commands: Vec<Command>, backend: &mut Owned<B>) -> (r: (Vec<Event>, Option<Worker>))
        ensures
            old(backend).history().is_prefix_of(final(backend).history()),
            carried(
                command_views(commands@).take(stop_index(command_views(commands@))),
                added(old(backend).history(), final(backend).history()),
            ),
            views(r.0@) == run_events(
                command_views(commands@),
                added(old(backend).history(), final(backend).history()),
            ),
            r.1 is Some <==> stop_index(command_views(commands@)) == commands@.len(),
    {
        let ghost cmds = command_views(commands@);
        let ghost before = backend.history();
        let mut events: Vec<Event> = Vec::new();
        let mut worker = self;
        assert(added(before, backend.history()) =~= Seq::<Exchange>::empty());
        assert(views(events@) =~= Seq::<EventView>::empty());
        assert(cmds.take(0) =~= Seq::<CommandView>::empty());
        for cmd in it: commands
            invariant
                cmds == command_views(commands@),
                it.seq() == commands@,
                before == old(backend).history(),
                before.is_prefix_of(backend.history()),
                forall|i: int| 0 <= i < it.index() ==> (#[trigger] cmds[i]) !is Stop,
                carried(cmds.take(it.index() as int), added(before, backend.history())),
                views(events@) == posted(cmds.take(it.index() as int), added(before, backend.history())),
        {
            let ghost i = it.index() as int;
            let ghost mid = backend.history();
            assert(cmd@ == cmds[i]);
            let next = worker.on_command(cmd, backend);
            let ghost seg = added(mid, backend.history());
            proof {
                assert(backend.history() =~= mid + seg);
                assert(added(before, mid) + seg =~= added(before, backend.history()));
                assert(before.is_prefix_of(backend.history()));
                assert(cmds.take(i).push(cmds[i]) =~= cmds.take(i + 1));
                if cmds[i] is Stop {
                    assert(stops_at(cmds, i));
                    lemma_stop_index(cmds, i);
                    assert(added(before, mid) =~= added(before, backend.history()));
                } else {
                    lemma_carry_on(cmds.take(i), added(before, mid), cmds[i], seg);
                }
            }
            let ghost earlier = views(events@);
            match next {
                Next::Receive(w) => {
                    worker = w;
                },
                Next::Post(event, pending) => {
                    let ghost posted_event = event@;
                    events.push(event);
                    assert(views(events@) =~= earlier.push(posted_event));
                    match pending.delivered() {
                        Next::Receive(w) => {
                            worker = w;
                        },
                        _ => {
                            return (events, None);
                        },
                    }
                },
                Next::Exit(_) => {
                    return (events, None);
                },
            }
        }
        proof {
            assert(stops_at(cmds, cmds.len() as int));
            lemma_stop_index(cmds, cmds.len() as int);
        }
        (events, Some(worker))
    }
}

} // verus!
