//! The append-only operational log of one state machine: events dispatched,
//! variables set and transitions taken, one entry per externally observable
//! change. Timestamping and durable storage belong to the log collaborator;
//! the machine only appends.

use vstd::prelude::*;

use crate::ids::NodeId;
use crate::state_charts::VariableId;

verus! {

/// The relevant entry types: an external event received, a variable set to a
/// textual value, or a transition from one node to another.
#[derive(Debug)]
pub enum LogEntryType {
    Event(String),
    VariableSetting(VariableId, String),
    Transition(NodeId, NodeId),
}

/// The log of all events, variable changes and node changes of a particular
/// state machine.
#[derive(Debug)]
pub struct StateMachineLog {
    pub entries: Vec<LogEntryType>,
}

impl StateMachineLog {
    /// Initializes an empty log.
    pub fn init() -> (r: Self)
        ensures
            r.entries@.len() == 0,
    {
        StateMachineLog { entries: Vec::new() }
    }

    /// Creates a new log entry at the end of the log.
    pub fn log(&mut self, entry: LogEntryType)
        ensures
            final(self).entries@ == old(self).entries@.push(entry),
    {
        self.entries.push(entry);
    }
}

} // verus!
