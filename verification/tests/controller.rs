use zeitig::controller::{BackendController, Message};
use zeitig::session::{Session, Timestamp};
use zeitig::state::{Action, AppState, SpentTime, Subject};
use zeitig::worker::Command;

fn session(minutes: u64) -> Session {
    Session {
        action: Action::new("Reading".to_string()),
        subject: Subject::new("Math".to_string()),
        started: Timestamp { secs: 0 },
        duration: SpentTime::from_secs(minutes * 60),
        ended: Timestamp { secs: minutes * 60 },
    }
}

fn running() -> BackendController<u8> {
    let mut controller = BackendController::new();
    controller.init(7u8);
    controller
}

#[test]
fn a_new_controller_is_not_running() {
    let mut controller: BackendController<u8> = BackendController::new();
    assert!(!controller.running());
    controller.init(1);
    assert!(controller.running());
}

#[test]
fn names_are_passed_on() {
    let controller = running();
    let state = AppState::default();
    match controller.event(Message::AddAction("Reading".to_string()), &state) {
        Some((sender, Command::AddAction(name))) => {
            assert_eq!(*sender, 7);
            assert_eq!(name, "Reading");
        },
        _ => panic!("an action was to be added"),
    }
    match controller.event(Message::AddSubject("Math".to_string()), &state) {
        Some((_, Command::AddSubject(name))) => assert_eq!(name, "Math"),
        _ => panic!("a subject was to be added"),
    }
    assert!(matches!(controller.event(Message::Stop, &state), Some((_, Command::Stop))));
    assert!(controller.event(Message::Other, &state).is_none());
}

#[test]
fn a_session_is_sent_with_the_new_total() {
    let controller = running();
    let mut state = AppState::default();
    match controller.event(Message::AddSession(session(45)), &state) {
        Some((_, Command::AddSession(sent, total))) => {
            assert_eq!(sent.duration.as_secs(), 45 * 60);
            assert_eq!(total.as_secs(), 45 * 60);
        },
        _ => panic!("a session was to be added"),
    }
    *state.time_table.get_mut(&Action::new("Reading".to_string()), &Subject::new("Math".to_string())) =
        SpentTime::new(600, 5);
    *state.time_table.get_mut(&Action::new("Reading".to_string()), &Subject::new("Art".to_string())) =
        SpentTime::from_secs(1);
    match controller.event(Message::AddSession(session(45)), &state) {
        Some((_, Command::AddSession(_, total))) => {
            assert_eq!(total.as_secs(), 600 + 45 * 60);
            assert_eq!(total.subsec_nanos(), 5);
        },
        _ => panic!("a session was to be added"),
    }
}

#[test]
fn a_total_beyond_the_range_does_not_fit() {
    let mut state = AppState::default();
    assert!(Message::AddSession(session(1)).fits(&state));
    assert!(Message::Stop.fits(&state));
    assert!(Message::Other.fits(&state));
    assert!(Message::AddAction("a".to_string()).fits(&state));
    *state.time_table.get_mut(&Action::new("Reading".to_string()), &Subject::new("Math".to_string())) =
        SpentTime::from_secs(u64::MAX - 59);
    assert!(!Message::AddSession(session(1)).fits(&state));
    *state.time_table.get_mut(&Action::new("Reading".to_string()), &Subject::new("Math".to_string())) =
        SpentTime::from_secs(u64::MAX - 60);
    assert!(Message::AddSession(session(1)).fits(&state));
}
