//! The persistence contract: what the worker asks of a backend, and the record
//! of what was asked and answered.

use crate::session::{Session, SessionView};
use crate::state::{Action, Setup, SpentTime, Subject};
use vstd::prelude::*;

verus! {

/// A failure that a backend reports, with its message.
#[derive(Debug)]
pub struct BackendError {
    pub message: String,
}

impl View for BackendError {
    type V = Seq<char>;

    open spec fn view(&self) -> Seq<char> {
        self.message@
    }
}

impl BackendError {
    pub fn new(message: String) -> (r: Self)
        ensures
            r@ == message@,
    {
        BackendError { message }
    }

    /// The message of the failure.
    pub fn to_string(&self) -> (r: String)
        ensures
            r@ == self@,
    {
        self.message.clone()
    }
}

/// What a backend was asked to do, with the values it was given.
pub enum Request {
    Setup,
    CreateAction { name: Seq<char> },
    CreateSubject { name: Seq<char> },
    AddSession { session: SessionView },
    UpdateTime { topic: (Seq<char>, Seq<char>), total: nat },
}

/// What a backend answered: the name of the category it created, where it
/// created one, or the message of its failure.
pub enum Reply {
    Done,
    Created { name: Seq<char> },
    Failed { message: Seq<char> },
}

/// One call on a backend: the request and the reply to it.
pub struct Exchange {
    pub request: Request,
    pub reply: Reply,
}

/// The reply that stands for the result of a call that creates nothing.
pub open spec fn reply_of(r: Result<(), BackendError>) -> Reply {
    match r {
        Ok(_) => Reply::Done,
        Err(e) => Reply::Failed { message: e@ },
    }
}

/// The reply that stands for the result of creating an action.
pub open spec fn reply_of_action(r: Result<Action, BackendError>) -> Reply {
    match r {
        Ok(a) => Reply::Created { name: a@ },
        Err(e) => Reply::Failed { message: e@ },
    }
}

/// The reply that stands for the result of creating a subject.
pub open spec fn reply_of_subject(r: Result<Subject, BackendError>) -> Reply {
    match r {
        Ok(s) => Reply::Created { name: s@ },
        Err(e) => Reply::Failed { message: e@ },
    }
}

/// A persistence engine. Every operation blocks until it is done and may fail.
/// Nothing is promised of what an engine answers.
pub trait Backend {
    /// Prepares the storage. It is safe to call on storage that is prepared
    /// already.
    fn setup(&mut self) -> Result<(), BackendError>;

    /// Stores a new action and returns the handle under which it is kept.
    fn create_action(&mut self, name: &str) -> Result<Action, BackendError>;

    /// Stores a new subject and returns the handle under which it is kept.
    fn create_subject(&mut self, name: &str) -> Result<Subject, BackendError>;

    /// Appends a session to the stored history of sessions.
    fn add_session(&mut self, session: &Session) -> Result<(), BackendError>;

    /// Overwrites the stored total of a topic with `total`.
    fn update_time(&mut self, topic: &Setup, total: &SpentTime) -> Result<(), BackendError>;
}

/// A backend in the hands of its only user, with the record of the calls made
/// on it, oldest first. Each operation makes one call on the backend and adds
/// one exchange to the record: the request, with the values it was called
/// with, and the reply that came back.
pub struct Owned<B: Backend> {
    backend: B,
    record: Ghost<Seq<Exchange>>,
}

impl<B: Backend> Owned<B> {
    /// Every call made on the backend since it was taken, oldest first.
    pub closed spec fn history(&self) -> Seq<Exchange> {
        self.record@
    }

    /// The backend that is held, as the calls made on it have left it.
    pub closed spec fn held(&self) -> B {
        self.backend
    }

    /// Takes a backend. No call has been made on it yet.
    pub fn new(backend: B) -> (r: Self)
        ensures
            r.history() == Seq::<Exchange>::empty(),
            r.held() == backend,
    {
        Owned { backend, record: Ghost(Seq::empty()) }
    }

    /// The backend, for reading.
    pub fn backend(&self) -> (r: &B)
        ensures
            *r == self.held(),
    {
        &self.backend
    }

    /// Gives the backend up, as the calls made on it have left it.
    pub fn into_backend(self) -> (r: B)
        ensures
            r == self.held(),
    {
        self.backend
    }

    pub fn setup(&mut self) -> (r: Result<(), BackendError>)
        ensures
            final(self).history() == old(self).history().push(
                Exchange { request: Request::Setup, reply: reply_of(r) },
            ),
    {
        let r = self.backend.setup();
        proof {
            self.record@ = self.record@.push(Exchange { request: Request::Setup, reply: reply_of(r) });
        }
        r
    }

    pub fn create_action(&mut self, name: &str) -> (r: Result<Action, BackendError>)
        ensures
            final(self).history() == old(self).history().push(
                Exchange { request: Request::CreateAction { name: name@ }, reply: reply_of_action(r) },
            ),
    {
        let r = self.backend.create_action(name);
        proof {
            self.record@ = self.record@.push(
                Exchange { request: Request::CreateAction { name: name@ }, reply: reply_of_action(r) },
            );
        }
        r
    }

    pub fn create_subject(&mut self, name: &str) -> (r: Result<Subject, BackendError>)
        ensures
            final(self).history() == old(self).history().push(
                Exchange { request: Request::CreateSubject { name: name@ }, reply: reply_of_subject(r) },
            ),
    {
        let r = self.backend.create_subject(name);
        proof {
            self.record@ = self.record@.push(
                Exchange { request: Request::CreateSubject { name: name@ }, reply: reply_of_subject(r) },
            );
        }
        r
    }

    pub fn add_session(&mut self, session: &Session) -> (r: Result<(), BackendError>)
        ensures
            final(self).history() == old(self).history().push(
                Exchange { request: Request::AddSession { session: session@ }, reply: reply_of(r) },
            ),
    {
        let r = self.backend.add_session(session);
        proof {
            self.record@ = self.record@.push(
                Exchange { request: Request::AddSession { session: session@ }, reply: reply_of(r) },
            );
        }
        r
    }

    pub fn update_time(&mut self, topic: &Setup, total: &SpentTime) -> (r: Result<(), BackendError>)
        ensures
            final(self).history() == old(self).history().push(
                Exchange {
                    request: Request::UpdateTime { topic: topic@, total: total@ },
                    reply: reply_of(r),
                },
            ),
    {
        let r = self.backend.update_time(topic, total);
        proof {
            self.record@ = self.record@.push(
                Exchange {
                    request: Request::UpdateTime { topic: topic@, total: total@ },
                    reply: reply_of(r),
                },
            );
        }
        r
    }
}

} // verus!
