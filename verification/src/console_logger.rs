//! Messages shown in the dashboard console.

use vstd::prelude::*;

use crate::state::{only_console_changed, State};

verus! {

/// Kind of a console message.
#[derive(Clone, Copy, Debug, PartialEq, Eq, Structural)]
pub enum ConsoleMessageKind {
    /// An error.
    Error,
    /// A warning.
    Warning,
    /// An information.
    Info,
}

/// Subsystem a console message comes from.
#[derive(Clone, Copy, Debug, PartialEq, Eq, Structural)]
pub enum ConsoleMessageSource {
    /// The dashboard.
    Dashboard,
    /// A client.
    Client,
    /// The statistics subsystem.
    Statistics,
}

/// Message of the console.
#[derive(Debug)]
pub struct ConsoleMessage {
    /// Kind of the message.
    pub kind: ConsoleMessageKind,
    /// Text of the message.
    pub message: String,
    /// Source of the message.
    pub source: ConsoleMessageSource,
}

/// Kind of a message of a client.
#[derive(Clone, Copy, Debug, PartialEq, Eq, Structural)]
pub enum ClientMessageKind {
    /// An error.
    Error,
    /// A warning.
    Warning,
    /// An information.
    Info,
}

/// Message of a client.
#[derive(Debug)]
pub struct ClientMessage {
    /// Kind of the message.
    pub kind: ClientMessageKind,
    /// Text of the message.
    pub message: String,
    /// Where the message comes from.
    pub source: String,
}

/// Publishes messages into the console of the state.
#[derive(Debug)]
pub struct ConsoleLogger {
    /// State holding the console.
    pub state: State,
}

impl ConsoleLogger {
    /// Creates a logger over the given state.
    pub fn new(state: State) -> (l: ConsoleLogger)
        ensures
            l.state == state,
    {
        ConsoleLogger { state }
    }

    /// Appends a message of the given kind and source to the console.
    pub fn log_message(&mut self, message: String, kind: ConsoleMessageKind, source: ConsoleMessageSource)
        ensures
            only_console_changed(old(self).state, final(self).state),
            final(self).state.console_log@ == old(self).state.console_log@.push(
                ConsoleMessage { kind, message, source },
            ),
            final(self).state.clients == old(self).state.clients,
            final(self).state.restreams == old(self).state.restreams,
            final(self).state.files == old(self).state.files,
    {
        self.state.console_log.push(ConsoleMessage { kind, message, source });
    }
}

} // verus!
