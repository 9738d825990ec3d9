//! Tracked intervals: the one that is running and the record of one that was
//! closed.

use crate::state::{Action, AppState, Setup, SpentTime, Subject, NANOS_PER_SEC};
use vstd::prelude::*;

verus! {

/// A point in time, in whole seconds since the Unix epoch.
#[derive(Clone, Copy, Debug, PartialEq, Eq, Structural)]
pub struct Timestamp {
    pub secs: u64,
}

/// The interval that is being tracked: when it began and how long it has run.
#[derive(Clone, Copy, Debug)]
pub struct ActiveSession {
    pub started: Timestamp,
    pub duration: SpentTime,
}

/// A closed interval of work on one topic.
#[derive(Debug)]
pub struct Session {
    pub action: Action,
    pub subject: Subject,
    pub started: Timestamp,
    pub duration: SpentTime,
    pub ended: Timestamp,
}

/// What a session records, over names as sequences of characters and the
/// duration in nanoseconds.
pub struct SessionView {
    pub action: Seq<char>,
    pub subject: Seq<char>,
    pub started: Timestamp,
    pub duration: nat,
    pub ended: Timestamp,
}

impl SessionView {
    /// The topic that the session adds time to.
    pub open spec fn topic(self) -> (Seq<char>, Seq<char>) {
        (self.action, self.subject)
    }
}

impl View for Session {
    type V = SessionView;

    open spec fn view(&self) -> SessionView {
        SessionView {
            action: self.action@,
            subject: self.subject@,
            started: self.started,
            duration: self.duration@,
            ended: self.ended,
        }
    }
}

impl Clone for Session {
    fn clone(&self) -> (r: Self)
        ensures
            r@ == self@,
    {
        Session {
            action: self.action.clone(),
            subject: self.subject.clone(),
            started: self.started,
            duration: self.duration,
            ended: self.ended,
        }
    }
}

impl Session {
    /// The topic that the session adds time to.
    pub fn topic(&self) -> (r: Setup)
        ensures
            r@ == self@.topic(),
    {
        Setup(self.action.clone(), self.subject.clone())
    }
}

/// A tracked interval counts as a session only if it ran longer than this
/// many seconds.
pub const MIN_SESSION_SECS: u64 = 30;

/// Whether closing the tracked interval of `data` records a session: one is
/// being tracked, and it ran longer than the minimum.
pub open spec fn records_session(data: AppState) -> bool {
    data.active matches Some(active) && active.duration@ > MIN_SESSION_SECS as nat * NANOS_PER_SEC as nat
}

/// The session that closing the tracked interval of `data` at `now` records.
pub open spec fn closed_session(data: AppState, now: Timestamp) -> SessionView {
    SessionView {
        action: data.selected_action->0@,
        subject: data.selected_subject->0@,
        started: data.active->0.started,
        duration: data.active->0.duration@,
        ended: now,
    }
}

/// Whether two states agree in everything but the tracked interval and the
/// closed sessions.
pub open spec fn same_but_tracking(a: AppState, b: AppState) -> bool {
    &&& a.new_name == b.new_name
    &&& a.actions == b.actions
    &&& a.selected_action == b.selected_action
    &&& a.subjects == b.subjects
    &&& a.selected_subject == b.selected_subject
    &&& a.time_table == b.time_table
    &&& a.creating == b.creating
    &&& a.creating_name == b.creating_name
    &&& a.error == b.error
}

/// Whether closing the tracked interval of `data` records a session.
pub fn records_on_close(data: &AppState) -> (r: bool)
    ensures
        r == records_session(*data),
{
    match &data.active {
        Some(active) => active.duration.longer_than(&SpentTime::from_secs(MIN_SESSION_SECS)),
        None => false,
    }
}

/// Begins to track an interval at `now`. One that was being tracked is
/// dropped.
pub fn start_new_session(data: &mut AppState, now: Timestamp)
    ensures
        final(data).active matches Some(active) && active.started == now && active.duration@ == 0,
        final(data).history == old(data).history,
        same_but_tracking(*final(data), *old(data)),
{
    data.active = Some(ActiveSession { started: now, duration: SpentTime::from_secs(0) });
}

/// Closes the tracked interval at `now`. If it ran longer than the minimum it
/// is recorded as a session on the selected topic; else it is dropped.
pub fn end_session(data: &mut AppState, now: Timestamp)
    requires
        records_session(*old(data)) ==> old(data).selected_action is Some && old(data).selected_subject
            is Some,
    ensures
        final(data).active is None,
        same_but_tracking(*final(data), *old(data)),
        records_session(*old(data)) ==> {
            &&& final(data).history@.len() == old(data).history@.len() + 1
            &&& final(data).history@.drop_last() == old(data).history@
            &&& final(data).history@.last()@ == closed_session(*old(data), now)
        },
        !records_session(*old(data)) ==> final(data).history == old(data).history,
{
    let active = data.active.take();
    match active {
        Some(active) => {
            let minimum = SpentTime::from_secs(MIN_SESSION_SECS);
            if active.duration.longer_than(&minimum) {
                if let (Some(action), Some(subject)) = (&data.selected_action, &data.selected_subject) {
                    let session = Session {
                        action: action.clone(),
                        subject: subject.clone(),
                        started: active.started,
                        duration: active.duration,
                        ended: now,
                    };
                    data.history.push(session);
                    assert(data.history@.drop_last() =~= old(data).history@);
                }
            }
        },
        None => {},
    }
}

} // verus!
