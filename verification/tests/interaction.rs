use zeitig::interaction::{selected_action_label, selected_subject_label, session_duration_label, total_label};
use zeitig::session::{ActiveSession, Timestamp};
use zeitig::state::{Action, AppState, Creating, SpentTime, Subject};
use zeitig::worker::Event;

#[test]
fn the_session_button_says_what_it_will_do() {
    let mut state = AppState::default();
    assert_eq!(state.session_button_label(), "Start");
    state.toggle_session(Timestamp { secs: 10 });
    assert_eq!(state.session_button_label(), "Stop");
    assert_eq!(state.active.unwrap().started, Timestamp { secs: 10 });
    state.toggle_session(Timestamp { secs: 20 });
    assert_eq!(state.session_button_label(), "Start");
    assert!(state.active.is_none());
    assert!(state.history.is_empty());
}

#[test]
fn the_entry_opens_and_closes() {
    let mut state = AppState::default();
    assert_eq!(state.creating_title(), "No Title");
    assert_eq!(state.creating_button_label(Creating::Action), "New Action");
    assert_eq!(state.creating_button_label(Creating::Subject), "New Subject");
    state.toggle_creating(Creating::Action);
    assert_eq!(state.creating, Creating::Action);
    assert_eq!(state.creating_title(), "Add new action");
    assert_eq!(state.creating_button_label(Creating::Action), "Cancel");
    assert_eq!(state.creating_button_label(Creating::Subject), "New Subject");
    state.toggle_creating(Creating::Subject);
    assert_eq!(state.creating, Creating::Subject);
    assert_eq!(state.creating_title(), "Add new subject");
    assert_eq!(state.creating_button_label(Creating::Subject), "Cancel");
    state.toggle_creating(Creating::Subject);
    assert_eq!(state.creating, Creating::Nothing);
}

#[test]
fn a_confirmed_name_becomes_a_category() {
    let mut state = AppState::default();
    state.creating_name = "ignored".to_string();
    assert!(!state.confirm_name());
    assert_eq!(state.creating_name, "ignored");
    assert!(state.actions.is_empty());

    state.creating = Creating::Action;
    state.creating_name = "Reading".to_string();
    assert!(state.confirm_name());
    assert_eq!(state.actions, vec![Action::new("Reading".to_string())]);
    assert!(state.creating_name.is_empty());
    assert!(state.subjects.is_empty());

    state.creating = Creating::Subject;
    state.creating_name = "Math".to_string();
    assert!(state.confirm_name());
    assert_eq!(state.subjects, vec![Subject::new("Math".to_string())]);
    assert!(state.creating_name.is_empty());
    assert_eq!(state.actions.len(), 1);
}

#[test]
fn picking_a_category_closes_the_tracked_interval() {
    let mut state = AppState::default();
    state.select_action(Action::new("a".to_string()), Timestamp { secs: 1 });
    state.select_subject(Subject::new("s".to_string()), Timestamp { secs: 2 });
    state.active = Some(ActiveSession { started: Timestamp { secs: 3 }, duration: SpentTime::from_secs(31) });
    state.select_action(Action::new("b".to_string()), Timestamp { secs: 40 });
    assert!(state.active.is_none());
    assert_eq!(state.selected_action, Some(Action::new("b".to_string())));
    assert_eq!(state.history.len(), 1);
    assert_eq!(state.history[0].action.as_ref(), "a");
    assert_eq!(state.history[0].subject.as_ref(), "s");

    state.active = Some(ActiveSession { started: Timestamp { secs: 50 }, duration: SpentTime::from_secs(5) });
    state.select_subject(Subject::new("t".to_string()), Timestamp { secs: 55 });
    assert!(state.active.is_none());
    assert_eq!(state.selected_subject, Some(Subject::new("t".to_string())));
    assert_eq!(state.history.len(), 1);
}

#[test]
fn events_of_the_worker_change_the_state() {
    let mut state = AppState::default();
    assert!(!state.apply(Event::ActionAdded(Action::new("a".to_string()))));
    assert!(!state.apply(Event::SubjectAdded(Subject::new("s".to_string()))));
    assert!(!state.apply(Event::ActionAdded(Action::new("b".to_string()))));
    assert_eq!(state.actions, vec![Action::new("a".to_string()), Action::new("b".to_string())]);
    assert_eq!(state.subjects, vec![Subject::new("s".to_string())]);
    assert!(state.error.is_none());
    assert!(!state.apply(Event::Error("disk full".to_string())));
    assert_eq!(state.error, Some("disk full".to_string()));
    assert!(state.apply(Event::Stopped));
    assert_eq!(state.actions.len(), 2);
    assert_eq!(state.error, Some("disk full".to_string()));
}

#[test]
fn labels_show_the_selection() {
    assert_eq!(selected_action_label(&None), "No Action");
    assert_eq!(selected_action_label(&Some(Action::new("Reading".to_string()))), "Reading");
    assert_eq!(selected_subject_label(&None), "No Subject");
    assert_eq!(selected_subject_label(&Some(Subject::new("Math".to_string()))), "Math");
}

#[test]
fn labels_show_the_times() {
    assert_eq!(session_duration_label(&None), "Session: not running");
    let active = ActiveSession { started: Timestamp { secs: 0 }, duration: SpentTime::from_secs(3723) };
    assert_eq!(session_duration_label(&Some(active)), "Session: 1h 2m 3s");
    assert_eq!(total_label(&SpentTime::from_secs(45 * 60)), "Total: 0h 45m 0s");
    assert_eq!(total_label(&SpentTime::default()), "Total: 0h 0m 0s");
}
