use zeitig::session::{Session, Timestamp};
use zeitig::state::{Action, Setup, SpentTime, Subject};
use zeitig::storage::{Backend, BackendError, Owned};
use zeitig::worker::{handle_command, Command, Continue, Ending, Event, Next, Worker};

/// A backend that keeps everything in memory, notes every call, refuses a
/// name it holds already, and fails the calls it is told to fail.
struct Memory {
    ready: bool,
    calls: Vec<String>,
    fail_on: Vec<usize>,
    busy: bool,
    actions: Vec<String>,
    subjects: Vec<String>,
    sessions: Vec<(String, String, u64)>,
    totals: Vec<(String, String, u64)>,
}

impl Memory {
    fn new() -> Memory {
        Memory {
            ready: false,
            calls: Vec::new(),
            fail_on: Vec::new(),
            busy: false,
            actions: Vec::new(),
            subjects: Vec::new(),
            sessions: Vec::new(),
            totals: Vec::new(),
        }
    }

    fn failing(calls: Vec<usize>) -> Memory {
        let mut memory = Memory::new();
        memory.fail_on = calls;
        memory
    }

    fn enter(&mut self, call: String) -> Result<(), BackendError> {
        assert!(!self.busy);
        self.busy = true;
        let n = self.calls.len();
        self.calls.push(call);
        let r = if self.fail_on.contains(&n) {
            Err(BackendError::new(format!("call {} failed", n)))
        } else {
            Ok(())
        };
        self.busy = false;
        r
    }

    fn total(&self, action: &str, subject: &str) -> Option<u64> {
        self.totals.iter().find(|t| t.0 == action && t.1 == subject).map(|t| t.2)
    }
}

impl Backend for Memory {
    fn setup(&mut self) -> Result<(), BackendError> {
        self.enter("setup".to_string())?;
        self.ready = true;
        Ok(())
    }

    fn create_action(&mut self, name: &str) -> Result<Action, BackendError> {
        self.enter(format!("create_action {}", name))?;
        if self.actions.iter().any(|a| a == name) {
            return Err(BackendError::new(format!("action {} exists", name)));
        }
        self.actions.push(name.to_string());
        Ok(Action::new(name.to_string()))
    }

    fn create_subject(&mut self, name: &str) -> Result<Subject, BackendError> {
        self.enter(format!("create_subject {}", name))?;
        if self.subjects.iter().any(|s| s == name) {
            return Err(BackendError::new(format!("subject {} exists", name)));
        }
        self.subjects.push(name.to_string());
        Ok(Subject::new(name.to_string()))
    }

    fn add_session(&mut self, session: &Session) -> Result<(), BackendError> {
        self.enter(format!("add_session {} {}", session.action.as_ref(), session.subject.as_ref()))?;
        self.sessions.push((
            session.action.as_ref().to_string(),
            session.subject.as_ref().to_string(),
            session.duration.as_secs(),
        ));
        Ok(())
    }

    fn update_time(&mut self, topic: &Setup, total: &SpentTime) -> Result<(), BackendError> {
        self.enter(format!("update_time {} {} {}", topic.0.as_ref(), topic.1.as_ref(), total.as_secs()))?;
        let (action, subject) = (topic.0.as_ref().to_string(), topic.1.as_ref().to_string());
        self.totals.retain(|t| !(t.0 == action && t.1 == subject));
        self.totals.push((action, subject, total.as_secs()));
        Ok(())
    }
}

fn session(action: &str, subject: &str, minutes: u64) -> Session {
    Session {
        action: Action::new(action.to_string()),
        subject: Subject::new(subject.to_string()),
        started: Timestamp { secs: 1_000 },
        duration: SpentTime::from_secs(minutes * 60),
        ended: Timestamp { secs: 1_000 + minutes * 60 },
    }
}

fn add_action(name: &str) -> Command {
    Command::AddAction(name.to_string())
}

fn add_subject(name: &str) -> Command {
    Command::AddSubject(name.to_string())
}

fn started(memory: Memory) -> (Worker, Owned<Memory>) {
    let mut backend = Owned::new(memory);
    let worker = Worker::start(&mut backend).unwrap();
    (worker, backend)
}

#[test]
fn scenario_reading_math() {
    let (worker, mut backend) = started(Memory::new());
    let (events, rest) = worker.run(
        vec![
            add_action("Reading"),
            add_subject("Math"),
            Command::AddSession(session("Reading", "Math", 45), SpentTime::from_secs(45 * 60)),
            Command::Stop,
        ],
        &mut backend,
    );
    assert_eq!(
        events,
        vec![
            Event::ActionAdded(Action::new("Reading".to_string())),
            Event::SubjectAdded(Subject::new("Math".to_string())),
            Event::Stopped,
        ]
    );
    assert!(rest.is_none());
    let memory = backend.into_backend();
    assert_eq!(memory.total("Reading", "Math"), Some(45 * 60));
    assert_eq!(memory.sessions, vec![("Reading".to_string(), "Math".to_string(), 45 * 60)]);
}

#[test]
fn scenario_failure_mid_stream() {
    let (worker, mut backend) = started(Memory::failing(vec![1]));
    let (events, rest) = worker.run(vec![add_action("X"), add_action("Y"), Command::Stop], &mut backend);
    assert_eq!(
        events,
        vec![
            Event::Error("call 1 failed".to_string()),
            Event::ActionAdded(Action::new("Y".to_string())),
            Event::Stopped,
        ]
    );
    assert!(rest.is_none());
    assert_eq!(backend.backend().calls, vec!["setup", "create_action X", "create_action Y"]);
}

#[test]
fn calls_follow_the_order_of_the_queue() {
    let (worker, mut backend) = started(Memory::new());
    let (events, rest) = worker.run(
        vec![
            add_subject("b"),
            add_action("a"),
            Command::AddSession(session("a", "b", 1), SpentTime::from_secs(60)),
            add_action("c"),
            Command::AddSession(session("c", "b", 2), SpentTime::from_secs(180)),
            add_subject("d"),
        ],
        &mut backend,
    );
    assert_eq!(
        backend.backend().calls,
        vec![
            "setup",
            "create_subject b",
            "create_action a",
            "add_session a b",
            "update_time a b 60",
            "create_action c",
            "add_session c b",
            "update_time c b 180",
            "create_subject d",
        ]
    );
    assert_eq!(events.len(), 4);
    assert!(rest.is_some());
}

#[test]
fn a_failed_call_does_not_end_the_run() {
    for failing in 1..=5usize {
        let (worker, mut backend) = started(Memory::failing(vec![failing]));
        let (events, rest) = worker.run(
            vec![add_action("a"), add_subject("b"), add_action("c"), add_subject("d"), add_action("e")],
            &mut backend,
        );
        assert!(rest.is_some());
        assert_eq!(backend.backend().calls.len(), 6);
        assert_eq!(events.len(), 5);
        for (i, event) in events.iter().enumerate() {
            if i + 1 == failing {
                assert_eq!(*event, Event::Error(format!("call {} failed", failing)));
            } else {
                assert!(matches!(event, Event::ActionAdded(_) | Event::SubjectAdded(_)));
            }
        }
    }
}

#[test]
fn a_failed_append_skips_the_update_of_the_total() {
    let (worker, mut backend) = started(Memory::failing(vec![1]));
    let (events, rest) = worker.run(
        vec![Command::AddSession(session("a", "b", 5), SpentTime::from_secs(300)), add_action("z")],
        &mut backend,
    );
    assert_eq!(
        events,
        vec![Event::Error("call 1 failed".to_string()), Event::ActionAdded(Action::new("z".to_string()))]
    );
    assert_eq!(backend.backend().calls, vec!["setup", "add_session a b", "create_action z"]);
    assert_eq!(backend.backend().total("a", "b"), None);
    assert!(rest.is_some());
}

#[test]
fn a_failed_update_is_reported() {
    let (worker, mut backend) = started(Memory::failing(vec![2]));
    let (events, _) = worker.run(
        vec![Command::AddSession(session("a", "b", 5), SpentTime::from_secs(300))],
        &mut backend,
    );
    assert_eq!(events, vec![Event::Error("call 2 failed".to_string())]);
    assert_eq!(backend.backend().calls, vec!["setup", "add_session a b", "update_time a b 300"]);
}

#[test]
fn a_duplicate_name_is_reported_and_the_run_goes_on() {
    let (worker, mut backend) = started(Memory::new());
    let (events, _) = worker.run(vec![add_action("X"), add_action("X"), add_action("Y")], &mut backend);
    assert_eq!(
        events,
        vec![
            Event::ActionAdded(Action::new("X".to_string())),
            Event::Error("action X exists".to_string()),
            Event::ActionAdded(Action::new("Y".to_string())),
        ]
    );
}

#[test]
fn nothing_behind_stop_is_carried_out() {
    let (worker, mut backend) = started(Memory::new());
    let (events, rest) = worker.run(
        vec![add_action("a"), Command::Stop, add_action("b"), Command::Stop, add_subject("c")],
        &mut backend,
    );
    assert_eq!(events, vec![Event::ActionAdded(Action::new("a".to_string())), Event::Stopped]);
    assert!(rest.is_none());
    assert_eq!(backend.backend().calls, vec!["setup", "create_action a"]);
    assert_eq!(events.iter().filter(|e| **e == Event::Stopped).count(), 1);
}

#[test]
fn a_queue_without_stop_leaves_the_worker_running() {
    let (worker, mut backend) = started(Memory::new());
    let (events, rest) = worker.run(vec![add_action("a")], &mut backend);
    assert_eq!(events, vec![Event::ActionAdded(Action::new("a".to_string()))]);
    let worker = rest.unwrap();
    let (events, rest) = worker.run(vec![add_subject("b"), Command::Stop], &mut backend);
    assert_eq!(events, vec![Event::SubjectAdded(Subject::new("b".to_string())), Event::Stopped]);
    assert!(rest.is_none());
}

#[test]
fn an_empty_queue_does_nothing() {
    let (worker, mut backend) = started(Memory::new());
    let (events, rest) = worker.run(Vec::new(), &mut backend);
    assert!(events.is_empty());
    assert!(rest.is_some());
    assert_eq!(backend.backend().calls, vec!["setup"]);
}

#[test]
fn the_total_is_overwritten_not_added() {
    let (worker, mut backend) = started(Memory::new());
    let (_, _) = worker.run(
        vec![
            Command::AddSession(session("a", "b", 10), SpentTime::from_secs(600)),
            Command::AddSession(session("a", "b", 5), SpentTime::from_secs(900)),
        ],
        &mut backend,
    );
    assert_eq!(backend.backend().total("a", "b"), Some(900));
    assert_eq!(backend.backend().sessions.len(), 2);
}

#[test]
fn no_two_calls_overlap() {
    let (worker, mut backend) = started(Memory::new());
    let (_, _) = worker.run(
        vec![
            add_action("a"),
            add_subject("b"),
            Command::AddSession(session("a", "b", 1), SpentTime::from_secs(60)),
            Command::Stop,
        ],
        &mut backend,
    );
    assert!(!backend.backend().busy);
    assert_eq!(backend.backend().calls.len(), 5);
}

#[test]
fn setup_twice_succeeds_twice() {
    let mut backend = Owned::new(Memory::new());
    assert!(backend.setup().is_ok());
    assert!(backend.setup().is_ok());
    assert!(backend.backend().ready);
    assert_eq!(backend.backend().calls, vec!["setup", "setup"]);
}

#[test]
fn a_failed_setup_gives_no_worker() {
    let mut backend = Owned::new(Memory::failing(vec![0]));
    match Worker::start(&mut backend) {
        Ok(_) => panic!("the worker must not start"),
        Err(e) => assert_eq!(e.to_string(), "call 0 failed"),
    }
    assert_eq!(backend.backend().calls, vec!["setup"]);
}

#[test]
fn handle_command_gives_the_event_of_each_command() {
    let mut backend = Owned::new(Memory::new());
    match handle_command(add_action("a"), &mut backend) {
        Ok((Continue::Yes, Some(Event::ActionAdded(a)))) => assert_eq!(a.as_ref(), "a"),
        _ => panic!("an action was to be added"),
    }
    match handle_command(add_subject("s"), &mut backend) {
        Ok((Continue::Yes, Some(Event::SubjectAdded(s)))) => assert_eq!(s.as_ref(), "s"),
        _ => panic!("a subject was to be added"),
    }
    let added = handle_command(
        Command::AddSession(session("a", "s", 3), SpentTime::from_secs(180)),
        &mut backend,
    );
    assert!(matches!(added, Ok((Continue::Yes, None))));
    assert!(matches!(handle_command(Command::Stop, &mut backend), Ok((Continue::No, None))));
    assert_eq!(
        backend.backend().calls,
        vec!["create_action a", "create_subject s", "add_session a s", "update_time a s 180"]
    );
}

#[test]
fn handle_command_returns_the_error_of_the_backend() {
    let mut backend = Owned::new(Memory::failing(vec![0]));
    match handle_command(add_subject("s"), &mut backend) {
        Err(e) => assert_eq!(e.to_string(), "call 0 failed"),
        Ok(_) => panic!("the call was to fail"),
    }
}

#[test]
fn a_success_is_posted_and_then_the_worker_receives() {
    let (worker, mut backend) = started(Memory::new());
    match worker.on_command(add_action("a"), &mut backend) {
        Next::Post(event, pending) => {
            assert_eq!(event, Event::ActionAdded(Action::new("a".to_string())));
            assert!(matches!(pending.delivered(), Next::Receive(_)));
        },
        _ => panic!("an event was to be posted"),
    }
}

#[test]
fn a_session_is_silent() {
    let (worker, mut backend) = started(Memory::new());
    let next = worker.on_command(
        Command::AddSession(session("a", "b", 1), SpentTime::from_secs(60)),
        &mut backend,
    );
    assert!(matches!(next, Next::Receive(_)));
}

#[test]
fn an_error_is_posted_and_then_the_worker_receives() {
    let (worker, mut backend) = started(Memory::failing(vec![1]));
    match worker.on_command(add_action("a"), &mut backend) {
        Next::Post(event, pending) => {
            assert_eq!(event, Event::Error("call 1 failed".to_string()));
            assert!(matches!(pending.delivered(), Next::Receive(_)));
        },
        _ => panic!("an error was to be posted"),
    }
}

#[test]
fn a_lost_success_is_reported_as_an_error() {
    let (worker, mut backend) = started(Memory::new());
    match worker.on_command(add_action("a"), &mut backend) {
        Next::Post(_, pending) => match pending.undelivered("sink closed".to_string()) {
            Next::Post(event, pending) => {
                assert_eq!(event, Event::Error("sink closed".to_string()));
                match pending.undelivered("sink closed".to_string()) {
                    Next::Post(event, pending) => {
                        assert_eq!(event, Event::Stopped);
                        assert!(matches!(pending.undelivered("gone".to_string()), Next::Exit(Ending::SinkClosed)));
                    },
                    _ => panic!("the worker was to stop"),
                }
            },
            _ => panic!("an error was to be posted"),
        },
        _ => panic!("an event was to be posted"),
    }
}

#[test]
fn a_lost_error_ends_the_worker() {
    let (worker, mut backend) = started(Memory::failing(vec![1]));
    match worker.on_command(add_action("a"), &mut backend) {
        Next::Post(_, pending) => match pending.undelivered("sink closed".to_string()) {
            Next::Post(event, pending) => {
                assert_eq!(event, Event::Stopped);
                assert!(matches!(pending.delivered(), Next::Exit(Ending::SinkClosed)));
            },
            _ => panic!("the worker was to stop"),
        },
        _ => panic!("an error was to be posted"),
    }
}

#[test]
fn stop_posts_stopped_and_exits() {
    let (worker, mut backend) = started(Memory::new());
    match worker.on_command(Command::Stop, &mut backend) {
        Next::Post(event, pending) => {
            assert_eq!(event, Event::Stopped);
            assert!(matches!(pending.delivered(), Next::Exit(Ending::Stopped)));
        },
        _ => panic!("the worker was to stop"),
    }
    assert_eq!(backend.backend().calls, vec!["setup"]);
}

#[test]
fn a_closed_queue_stops_the_worker() {
    let (worker, backend) = started(Memory::new());
    match worker.on_queue_closed() {
        Next::Post(event, pending) => {
            assert_eq!(event, Event::Stopped);
            assert!(matches!(pending.delivered(), Next::Exit(Ending::QueueClosed)));
        },
        _ => panic!("the worker was to stop"),
    }
    assert_eq!(backend.backend().calls, vec!["setup"]);
}
