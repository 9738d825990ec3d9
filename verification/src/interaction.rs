//! What the user's actions and the worker's events do to the application
//! state.

use crate::format::rendered;
use crate::session::{
    closed_session, end_session, records_session, same_but_tracking, start_new_session, ActiveSession,
    Timestamp,
};
use crate::state::{Action, AppState, Creating, SpentTime, Subject, NANOS_PER_SEC};
use crate::worker::{Event, EventView};
use vstd::prelude::*;
use vstd::string::StringExecFns;

verus! {

/// The names of a list of actions.
pub open spec fn action_names(actions: Seq<Action>) -> Seq<Seq<char>> {
    Seq::new(actions.len(), |i: int| actions[i]@)
}

/// The names of a list of subjects.
pub open spec fn subject_names(subjects: Seq<Subject>) -> Seq<Seq<char>> {
    Seq::new(subjects.len(), |i: int| subjects[i]@)
}

/// What pressing a button for a kind of category does to the entry that is
/// open: it closes the entry of that kind, and opens one of that kind
/// otherwise.
pub open spec fn toggled(creating: Creating, kind: Creating) -> Creating {
    if creating == kind {
        Creating::Nothing
    } else {
        kind
    }
}

/// Whether two states agree in what is selected, tracked and recorded.
pub open spec fn same_selection(a: AppState, b: AppState) -> bool {
    &&& a.new_name == b.new_name
    &&& a.selected_action == b.selected_action
    &&& a.selected_subject == b.selected_subject
    &&& a.time_table == b.time_table
    &&& a.active == b.active
    &&& a.history == b.history
    &&& a.error == b.error
}

impl AppState {
    /// The label of the button that starts and stops tracking.
    pub fn session_button_label(&self) -> (r: &'static str)
        ensures
            r@ == (if self.active is Some { "Stop"@ } else { "Start"@ }),
    {
        match self.active {
            Some(_) => "Stop",
            None => "Start",
        }
    }

    /// The title above the entry for a new name.
    pub fn creating_title(&self) -> (r: &'static str)
        ensures
            r@ == match self.creating {
                Creating::Nothing => "No Title"@,
                Creating::Action => "Add new action"@,
                Creating::Subject => "Add new subject"@,
            },
    {
        match self.creating {
            Creating::Nothing => "No Title",
            Creating::Action => "Add new action",
            Creating::Subject => "Add new subject",
        }
    }

    /// The label of the button that opens and closes the entry for `kind`.
    pub fn creating_button_label(&self, kind: Creating) -> (r: &'static str)
        ensures
            r@ == (if self.creating == kind && kind != Creating::Nothing {
                "Cancel"@
            } else {
                match kind {
                    Creating::Nothing => ""@,
                    Creating::Action => "New Action"@,
                    Creating::Subject => "New Subject"@,
                }
            }),
    {
        match kind {
            Creating::Nothing => "",
            Creating::Action => if self.creating == Creating::Action {
                "Cancel"
            } else {
                "New Action"
            },
            Creating::Subject => if self.creating == Creating::Subject {
                "Cancel"
            } else {
                "New Subject"
            },
        }
    }

    /// Opens the entry for a new category of `kind`, or closes it if it is
    /// open.
    pub fn toggle_creating(&mut self, kind: Creating)
        ensures
            final(self).creating == toggled(old(self).creating, kind),
            *final(self) == (AppState { creating: final(self).creating, ..*old(self) }),
    {
        self.creating = if self.creating == kind {
            Creating::Nothing
        } else {
            kind
        };
    }

    /// The button that starts and stops tracking was pressed at `now`.
    pub fn toggle_session(&mut self, now: Timestamp)
        requires
            records_session(*old(self)) ==> old(self).selected_action is Some && old(self).selected_subject
                is Some,
        ensures
            old(self).active is None ==> (final(self).active matches Some(active) && active.started == now
                && active.duration@ == 0 && final(self).history == old(self).history),
            old(self).active is Some ==> final(self).active is None,
            !records_session(*old(self)) ==> final(self).history == old(self).history,
            records_session(*old(self)) ==> {
                &&& final(self).history@.len() == old(self).history@.len() + 1
                &&& final(self).history@.drop_last() == old(self).history@
                &&& final(self).history@.last()@ == closed_session(*old(self), now)
            },
            same_but_tracking(*final(self), *old(self)),
    {
        let tracking = self.active.is_some();
        if tracking {
            end_session(self, now);
        } else {
            start_new_session(self, now);
        }
    }

    /// An action was picked at `now`: the tracked interval is closed and the
    /// action becomes the selected one.
    pub fn select_action(&mut self, action: Action, now: Timestamp)
        requires
            records_session(*old(self)) ==> old(self).selected_action is Some && old(self).selected_subject
                is Some,
        ensures
            final(self).selected_action == Some(action),
            final(self).active is None,
            final(self).selected_subject == old(self).selected_subject,
            final(self).actions == old(self).actions,
            final(self).subjects == old(self).subjects,
            final(self).time_table == old(self).time_table,
            final(self).new_name == old(self).new_name,
            final(self).creating == old(self).creating,
            final(self).creating_name == old(self).creating_name,
            final(self).error == old(self).error,
            !records_session(*old(self)) ==> final(self).history == old(self).history,
            records_session(*old(self)) ==> {
                &&& final(self).history@.len() == old(self).history@.len() + 1
                &&& final(self).history@.drop_last() == old(self).history@
                &&& final(self).history@.last()@ == closed_session(*old(self), now)
            },
    {
        end_session(self, now);
        self.selected_action = Some(action);
    }

    /// A subject was picked at `now`: the tracked interval is closed and the
    /// subject becomes the selected one.
    pub fn select_subject(&mut self, subject: Subject, now: Timestamp)
        requires
            records_session(*old(self)) ==> old(self).selected_action is Some && old(self).selected_subject
                is Some,
        ensures
            final(self).selected_subject == Some(subject),
            final(self).active is None,
            final(self).selected_action == old(self).selected_action,
            final(self).actions == old(self).actions,
            final(self).subjects == old(self).subjects,
            final(self).time_table == old(self).time_table,
            final(self).new_name == old(self).new_name,
            final(self).creating == old(self).creating,
            final(self).creating_name == old(self).creating_name,
            final(self).error == old(self).error,
            !records_session(*old(self)) ==> final(self).history == old(self).history,
            records_session(*old(self)) ==> {
                &&& final(self).history@.len() == old(self).history@.len() + 1
                &&& final(self).history@.drop_last() == old(self).history@
                &&& final(self).history@.last()@ == closed_session(*old(self), now)
            },
    {
        end_session(self, now);
        self.selected_subject = Some(subject);
    }

    /// The name in the entry was confirmed. It becomes a new action or subject,
    /// as the open entry says, and the entry is emptied. Returns whether the
    /// state is to be saved: it is unless no entry was open.
    pub fn confirm_name(&mut self) -> (save: bool)
        ensures
            save == (old(self).creating != Creating::Nothing),
            final(self).creating == old(self).creating,
            match old(self).creating {
                Creating::Nothing => *final(self) == *old(self),
                Creating::Action => {
                    &&& action_names(final(self).actions@) == action_names(old(self).actions@).push(
                        old(self).creating_name@,
                    )
                    &&& final(self).subjects == old(self).subjects
                    &&& final(self).creating_name@.len() == 0
                    &&& same_selection(*final(self), *old(self))
                },
                Creating::Subject => {
                    &&& subject_names(final(self).subjects@) == subject_names(old(self).subjects@).push(
                        old(self).creating_name@,
                    )
                    &&& final(self).actions == old(self).actions
                    &&& final(self).creating_name@.len() == 0
                    &&& same_selection(*final(self), *old(self))
                },
            },
    {
        match self.creating {
            Creating::Nothing => false,
            Creating::Action => {
                let mut name = String::new();
                core::mem::swap(&mut self.creating_name, &mut name);
                self.actions.push(Action::new(name));
                assert(action_names(self.actions@) =~= action_names(old(self).actions@).push(
                    old(self).creating_name@,
                ));
                true
            },
            Creating::Subject => {
                let mut name = String::new();
                core::mem::swap(&mut self.creating_name, &mut name);
                self.subjects.push(Subject::new(name));
                assert(subject_names(self.subjects@) =~= subject_names(old(self).subjects@).push(
                    old(self).creating_name@,
                ));
                true
            },
        }
    }

    /// An event came from the worker. A new category joins its list, an error
    /// becomes the error shown, and `Stopped` changes nothing. Returns whether
    /// the worker has stopped, so that the application may close.
    pub fn apply(&mut self, event: Event) -> (stopped: bool)
        ensures
            stopped == (event@ is Stopped),
            match event@ {
                EventView::ActionAdded(name) => {
                    &&& action_names(final(self).actions@) == action_names(old(self).actions@).push(name)
                    &&& final(self).subjects == old(self).subjects
                    &&& final(self).error == old(self).error
                },
                EventView::SubjectAdded(name) => {
                    &&& subject_names(final(self).subjects@) == subject_names(old(self).subjects@).push(name)
                    &&& final(self).actions == old(self).actions
                    &&& final(self).error == old(self).error
                },
                EventView::Error(message) => {
                    &&& (final(self).error matches Some(shown) && shown@ == message)
                    &&& final(self).actions == old(self).actions
                    &&& final(self).subjects == old(self).subjects
                },
                EventView::Stopped => *final(self) == *old(self),
            },
            final(self).time_table == old(self).time_table,
            final(self).active == old(self).active,
            final(self).history == old(self).history,
            final(self).selected_action == old(self).selected_action,
            final(self).selected_subject == old(self).selected_subject,
            final(self).new_name == old(self).new_name,
            final(self).creating == old(self).creating,
            final(self).creating_name == old(self).creating_name,
    {
        match event {
            Event::ActionAdded(action) => {
                self.actions.push(action);
                assert(action_names(self.actions@) =~= action_names(old(self).actions@).push(action@));
                false
            },
            Event::SubjectAdded(subject) => {
                self.subjects.push(subject);
                assert(subject_names(self.subjects@) =~= subject_names(old(self).subjects@).push(subject@));
                false
            },
            Event::Error(message) => {
                self.error = Some(message);
                false
            },
            Event::Stopped => true,
        }
    }
}

/// The text that shows the selected action.
pub fn selected_action_label(selected: &Option<Action>) -> (r: String)
    ensures
        r@ == match selected {
            Some(action) => action@,
            None => "No Action"@,
        },
{
    match selected {
        Some(action) => action.as_ref().to_owned(),
        None => "No Action".to_owned(),
    }
}

/// The text that shows the selected subject.
pub fn selected_subject_label(selected: &Option<Subject>) -> (r: String)
    ensures
        r@ == match selected {
            Some(subject) => subject@,
            None => "No Subject"@,
        },
{
    match selected {
        Some(subject) => subject.as_ref().to_owned(),
        None => "No Subject".to_owned(),
    }
}

/// The text that shows how long the tracked interval has run.
pub fn session_duration_label(active: &Option<ActiveSession>) -> (r: String)
    ensures
        r@ == match active {
            Some(session) => "Session: "@ + rendered(session.duration@ / (NANOS_PER_SEC as nat)),
            None => "Session: not running"@,
        },
{
    match active {
        Some(session) => {
            let mut text = "Session: ".to_owned();
            let duration = session.duration.to_string();
            text.append(duration.as_str());
            text
        },
        None => "Session: not running".to_owned(),
    }
}

/// The text that shows the time spent on the selected topic.
pub fn total_label(time: &SpentTime) -> (r: String)
    ensures
        r@ == "Total: "@ + rendered(time@ / (NANOS_PER_SEC as nat)),
{
    let mut text = "Total: ".to_owned();
    let total = time.to_string();
    text.append(total.as_str());
    text
}

} // verus!
