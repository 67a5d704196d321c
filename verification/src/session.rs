//! The states of a session and the commands that each of them accepts.

use vstd::prelude::*;

use crate::types::ControlCommand;

verus! {

/// The state of a session.
#[derive(Debug, Clone, Copy, PartialEq, Eq, Structural)]
pub enum SessionState {
    /// No device is attached.
    Disconnected,
    /// A device is attached and its profilers are ready.
    Connected,
    /// The profilers sample.
    Running,
    /// Sampling is suspended.
    Paused,
    /// The session has ended.
    Stopped,
}

impl SessionState {
    /// The name of the state.
    pub open spec fn name(self) -> &'static str {
        match self {
            SessionState::Disconnected => "Disconnected",
            SessionState::Connected => "Connected",
            SessionState::Running => "Running",
            SessionState::Paused => "Paused",
            SessionState::Stopped => "Stopped",
        }
    }

    /// Whether a session in this state accepts the command.
    pub open spec fn accepts(self, command: ControlCommand) -> bool {
        match command {
            ControlCommand::Connect => self is Disconnected || self is Stopped,
            ControlCommand::Start => self is Connected,
            ControlCommand::Pause => self is Running,
            ControlCommand::Restart => self is Paused,
            ControlCommand::Stop => self is Connected || self is Running || self is Paused,
        }
    }

    /// The state that an accepted command leads to.
    pub open spec fn after(command: ControlCommand) -> SessionState {
        match command {
            ControlCommand::Connect => SessionState::Connected,
            ControlCommand::Start => SessionState::Running,
            ControlCommand::Pause => SessionState::Paused,
            ControlCommand::Restart => SessionState::Running,
            ControlCommand::Stop => SessionState::Stopped,
        }
    }

    /// The name of the state.
    pub fn as_str(self) -> (r: &'static str)
        ensures
            r@ == self.name()@,
    {
        match self {
            SessionState::Disconnected => "Disconnected",
            SessionState::Connected => "Connected",
            SessionState::Running => "Running",
            SessionState::Paused => "Paused",
            SessionState::Stopped => "Stopped",
        }
    }

    /// Tests whether a session in this state accepts the command.
    pub fn allows(self, command: ControlCommand) -> (r: bool)
        ensures
            r == self.accepts(command),
    {
        match command {
            ControlCommand::Connect => matches!(self, SessionState::Disconnected | SessionState::Stopped),
            ControlCommand::Start => matches!(self, SessionState::Connected),
            ControlCommand::Pause => matches!(self, SessionState::Running),
            ControlCommand::Restart => matches!(self, SessionState::Paused),
            ControlCommand::Stop => matches!(
                self,
                SessionState::Connected | SessionState::Running | SessionState::Paused
            ),
        }
    }
}

/// A session can always go on: every state accepts a command, and what a command leads to never
/// accepts that same command again.
pub proof fn law_session_commands(state: SessionState, command: ControlCommand)
    ensures
        exists|c: ControlCommand| state.accepts(c),
        state.accepts(command) ==> !SessionState::after(command).accepts(command),
        state.accepts(command) ==> SessionState::after(command) != state,
{
    match state {
        SessionState::Disconnected => assert(state.accepts(ControlCommand::Connect)),
        SessionState::Connected => assert(state.accepts(ControlCommand::Start)),
        SessionState::Running => assert(state.accepts(ControlCommand::Pause)),
        SessionState::Paused => assert(state.accepts(ControlCommand::Restart)),
        SessionState::Stopped => assert(state.accepts(ControlCommand::Connect)),
    }
}

/// A session goes from being disconnected or stopped to being connected, then runs, pauses, runs
/// again and is stopped; no state accepts any other command.
pub proof fn law_life_of_a_session(state: SessionState)
    ensures
        state.accepts(ControlCommand::Connect) <==> state == SessionState::Disconnected || state
            == SessionState::Stopped,
        state.accepts(ControlCommand::Start) <==> state == SessionState::Connected,
        state.accepts(ControlCommand::Pause) <==> state == SessionState::Running,
        state.accepts(ControlCommand::Restart) <==> state == SessionState::Paused,
        state.accepts(ControlCommand::Stop) <==> state == SessionState::Connected || state
            == SessionState::Running || state == SessionState::Paused,
        SessionState::after(ControlCommand::Connect).accepts(ControlCommand::Start),
        SessionState::after(ControlCommand::Start).accepts(ControlCommand::Pause),
        SessionState::after(ControlCommand::Pause).accepts(ControlCommand::Restart),
        SessionState::after(ControlCommand::Restart) == SessionState::after(ControlCommand::Start),
        SessionState::after(ControlCommand::Stop).accepts(ControlCommand::Connect),
        SessionState::after(ControlCommand::Stop) == SessionState::Stopped,
{
}

} // verus!
