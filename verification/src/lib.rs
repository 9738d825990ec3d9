//! Time tracking over pairs of an action and a subject: the application state,
//! the persistence contract, and the worker that carries out queued commands
//! against a backend on behalf of a user interface.

pub mod controller;
pub mod format;
pub mod interaction;
pub mod laws;
pub mod session;
pub mod state;
pub mod storage;
pub mod trace;
pub mod worker;
