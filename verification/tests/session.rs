use zeitig::session::{end_session, start_new_session, ActiveSession, Session, Timestamp};
use zeitig::state::{Action, AppState, SpentTime, Subject};

fn tracking(duration: SpentTime) -> AppState {
    let mut state = AppState::default();
    state.selected_action = Some(Action::new("Reading".to_string()));
    state.selected_subject = Some(Subject::new("Math".to_string()));
    state.active = Some(ActiveSession { started: Timestamp { secs: 100 }, duration });
    state
}

#[test]
fn a_new_session_starts_at_zero() {
    let mut state = AppState::default();
    start_new_session(&mut state, Timestamp { secs: 77 });
    let active = state.active.unwrap();
    assert_eq!(active.started, Timestamp { secs: 77 });
    assert_eq!(active.duration.as_secs(), 0);
    assert_eq!(active.duration.subsec_nanos(), 0);
    assert!(state.history.is_empty());
}

#[test]
fn starting_again_drops_the_tracked_interval() {
    let mut state = tracking(SpentTime::from_secs(500));
    start_new_session(&mut state, Timestamp { secs: 900 });
    assert_eq!(state.active.unwrap().started, Timestamp { secs: 900 });
    assert!(state.history.is_empty());
    assert_eq!(state.selected_action, Some(Action::new("Reading".to_string())));
}

#[test]
fn a_long_interval_becomes_a_session() {
    let mut state = tracking(SpentTime::from_secs(45 * 60));
    end_session(&mut state, Timestamp { secs: 100 + 45 * 60 });
    assert!(state.active.is_none());
    assert_eq!(state.history.len(), 1);
    let session = &state.history[0];
    assert_eq!(session.action.as_ref(), "Reading");
    assert_eq!(session.subject.as_ref(), "Math");
    assert_eq!(session.started, Timestamp { secs: 100 });
    assert_eq!(session.ended, Timestamp { secs: 2800 });
    assert_eq!(session.duration.as_secs(), 2700);
}

#[test]
fn an_interval_of_thirty_seconds_is_dropped() {
    let mut state = tracking(SpentTime::from_secs(30));
    end_session(&mut state, Timestamp { secs: 130 });
    assert!(state.active.is_none());
    assert!(state.history.is_empty());
}

#[test]
fn an_interval_just_over_thirty_seconds_is_kept() {
    let mut state = tracking(SpentTime::new(30, 1));
    end_session(&mut state, Timestamp { secs: 131 });
    assert!(state.active.is_none());
    assert_eq!(state.history.len(), 1);
    assert_eq!(state.history[0].duration.subsec_nanos(), 1);
}

#[test]
fn a_short_interval_without_a_topic_is_dropped() {
    let mut state = AppState::default();
    state.active = Some(ActiveSession { started: Timestamp { secs: 1 }, duration: SpentTime::from_secs(3) });
    end_session(&mut state, Timestamp { secs: 4 });
    assert!(state.active.is_none());
    assert!(state.history.is_empty());
}

#[test]
fn ending_without_a_tracked_interval_changes_nothing() {
    let mut state = AppState::default();
    state.selected_action = Some(Action::new("a".to_string()));
    end_session(&mut state, Timestamp { secs: 4 });
    assert!(state.active.is_none());
    assert!(state.history.is_empty());
    assert_eq!(state.selected_action, Some(Action::new("a".to_string())));
}

#[test]
fn sessions_are_kept_in_the_order_they_ended() {
    let mut state = tracking(SpentTime::from_secs(60));
    end_session(&mut state, Timestamp { secs: 160 });
    start_new_session(&mut state, Timestamp { secs: 200 });
    state.active = Some(ActiveSession { started: Timestamp { secs: 200 }, duration: SpentTime::from_secs(90) });
    end_session(&mut state, Timestamp { secs: 290 });
    assert_eq!(state.history.len(), 2);
    assert_eq!(state.history[0].ended, Timestamp { secs: 160 });
    assert_eq!(state.history[1].ended, Timestamp { secs: 290 });
}

#[test]
fn a_session_names_its_topic() {
    let session = Session {
        action: Action::new("a".to_string()),
        subject: Subject::new("s".to_string()),
        started: Timestamp { secs: 1 },
        duration: SpentTime::from_secs(2),
        ended: Timestamp { secs: 3 },
    };
    let topic = session.topic();
    assert_eq!(topic.0.as_ref(), "a");
    assert_eq!(topic.1.as_ref(), "s");
    let copy = session.clone();
    assert_eq!(copy.action, session.action);
    assert_eq!(copy.ended, session.ended);
    assert_eq!(copy.duration.as_secs(), 2);
}

#[test]
fn only_a_long_tracked_interval_records_a_session() {
    assert!(!zeitig::session::records_on_close(&AppState::default()));
    assert!(!zeitig::session::records_on_close(&tracking(SpentTime::from_secs(30))));
    assert!(zeitig::session::records_on_close(&tracking(SpentTime::new(30, 1))));
    assert!(zeitig::session::records_on_close(&tracking(SpentTime::from_secs(3600))));
}
