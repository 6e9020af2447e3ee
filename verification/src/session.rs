//! Shared session state for the interactive runner: whether the loop keeps
//! running and whether a connection is believed open. The runner mirrors
//! this state into whatever shared flags its threads use; the transitions
//! themselves are decided here.

use vstd::prelude::*;
use crate::command::CommandResult;

verus! {

/// The two flags the background reader and the foreground loop share.
#[derive(Debug, Clone, Copy, PartialEq, Eq, Structural)]
pub struct SessionState {
    pub running: bool,
    pub connected: bool,
}

impl SessionState {
    /// A fresh session: running, not connected.
    pub fn new() -> (s: SessionState)
        ensures
            s.running,
            !s.connected,
    {
        SessionState { running: true, connected: false }
    }

    /// The state after one dispatched command: the loop stops exactly on the
    /// exit signal, and the connected flag follows the manager's state as it
    /// stands after the command.
    pub fn after_command(self, r: &CommandResult, manager_connected: bool) -> (s: SessionState)
        ensures
            s.running == (self.running && !(r is Exit)),
            s.connected == manager_connected,
    {
        SessionState {
            running: self.running && !matches!(r, CommandResult::Exit),
            connected: manager_connected,
        }
    }

    /// The state after an external interrupt: the loop must stop at its next
    /// iteration boundary.
    pub fn interrupted(self) -> (s: SessionState)
        ensures
            !s.running,
            s.connected == self.connected,
    {
        SessionState { running: false, connected: self.connected }
    }
}

} // verus!
