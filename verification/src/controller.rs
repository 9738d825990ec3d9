//! The adapter on the side of the user interface: it turns what the interface
//! asks of the backend into commands for the worker's queue.

use crate::session::{Session, SessionView};
use crate::state::{max_spent, AppState};
use crate::worker::{Command, CommandView};
use vstd::prelude::*;

verus! {

/// What the user interface hands to the controller.
#[derive(Debug)]
pub enum Message {
    AddAction(String),
    AddSubject(String),
    AddSession(Session),
    Stop,
    /// Anything that is not meant for the backend.
    Other,
}

/// A message, with names as sequences of characters.
pub enum MessageView {
    AddAction(Seq<char>),
    AddSubject(Seq<char>),
    AddSession(SessionView),
    Stop,
    Other,
}

impl View for Message {
    type V = MessageView;

    open spec fn view(&self) -> MessageView {
        match self {
            Message::AddAction(name) => MessageView::AddAction(name@),
            Message::AddSubject(name) => MessageView::AddSubject(name@),
            Message::AddSession(session) => MessageView::AddSession(session@),
            Message::Stop => MessageView::Stop,
            Message::Other => MessageView::Other,
        }
    }
}

/// The command that a message becomes, if it is meant for the backend. A
/// session is sent with the new total of its topic: what the state shows for
/// the topic, and the duration of the session on top.
pub open spec fn command_for(message: MessageView, data: AppState) -> Option<CommandView> {
    match message {
        MessageView::AddAction(name) => Some(CommandView::AddAction(name)),
        MessageView::AddSubject(name) => Some(CommandView::AddSubject(name)),
        MessageView::AddSession(session) => Some(
            CommandView::AddSession(
                session,
                data.time_table.spent(session.action, session.subject) + session.duration,
            ),
        ),
        MessageView::Stop => Some(CommandView::Stop),
        MessageView::Other => None,
    }
}

/// Whether the total that a message asks for can be held.
pub open spec fn total_fits(message: MessageView, data: AppState) -> bool {
    message matches MessageView::AddSession(session) ==> data.time_table.spent(
        session.action,
        session.subject,
    ) + session.duration <= max_spent()
}

/// The controller of the backend. It holds the sending end of the worker's
/// queue from the moment the worker was started.
pub struct BackendController<S> {
    sender: Option<S>,
}

impl<S> BackendController<S> {
    /// Whether the worker was started.
    pub closed spec fn is_running(&self) -> bool {
        self.sender is Some
    }

    /// The sending end of the queue.
    pub closed spec fn sender(&self) -> S
        recommends
            self.is_running(),
    {
        self.sender->0
    }

    /// A controller whose worker is yet to be started.
    pub fn new() -> (r: Self)
        ensures
            !r.is_running(),
    {
        BackendController { sender: None }
    }

    /// Whether the worker was started.
    pub fn running(&self) -> (r: bool)
        ensures
            r == self.is_running(),
    {
        self.sender.is_some()
    }

    /// Takes the sending end of the queue of the worker that was started.
    pub fn init(&mut self, sender: S)
        requires
            !old(self).is_running(),
        ensures
            final(self).is_running(),
            final(self).sender() == sender,
    {
        self.sender = Some(sender);
    }

    /// Builds the command for a message and says where to send it. A message
    /// that is not meant for the backend gives nothing.
    pub fn event(&self, message: Message, data: &AppState) -> (r: Option<(&S, Command)>)
        requires
            self.is_running(),
            total_fits(message@, *data),
        ensures
            match r {
                Some((sender, command)) => *sender == self.sender() && Some(command@) == command_for(
                    message@,
                    *data,
                ),
                None => command_for(message@, *data) is None,
            },
    {
        let command = match message {
            Message::AddAction(name) => Command::AddAction(name),
            Message::AddSubject(name) => Command::AddSubject(name),
            Message::AddSession(session) => {
                let past = data.time_table.get(&session.action, &session.subject);
                let total = past + session.duration;
                Command::AddSession(session, total)
            },
            Message::Stop => Command::Stop,
            Message::Other => {
                return None;
            },
        };
        match &self.sender {
            Some(sender) => Some((sender, command)),
            None => None,
        }
    }
}

impl Message {
    /// Whether the total that the message asks for can be held. It can
    /// unless the message is a session whose duration, on top of what the
    /// state shows for its topic, is beyond what an amount holds.
    pub fn fits(&self, data: &AppState) -> (r: bool)
        ensures
            r == total_fits(self@, *data),
    {
        match self {
            Message::AddSession(session) => {
                let past = data.time_table.get(&session.action, &session.subject);
                past.checked_add(&session.duration).is_some()
            },
            _ => true,
        }
    }
}

} // verus!
