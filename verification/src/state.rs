//! Session state machine.

use vstd::prelude::*;

verus! {

/// State of a peer session.
#[derive(Debug, Clone, Copy, PartialEq, Eq, Structural)]
pub enum SessionState {
    /// Transport connected but handshake not started.
    Connected,
    /// Hello sent, waiting for Welcome.
    HelloSent,
    /// Handshake complete, idle: no input being forwarded.
    Idle,
    /// This machine is controlling the remote (sending input).
    Controlling,
    /// This machine is being controlled by the remote (receiving input).
    Controlled,
    /// Disconnecting gracefully.
    Disconnecting,
}

impl SessionState {
    /// Whether we can transition to the Controlling state.
    pub fn can_enter_controlling(self) -> (r: bool)
        ensures
            r == (self is Idle),
    {
        self == Self::Idle
    }

    /// Whether we can transition to the Controlled state.
    pub fn can_enter_controlled(self) -> (r: bool)
        ensures
            r == (self is Idle),
    {
        self == Self::Idle
    }

    /// Whether we are actively forwarding or receiving input.
    pub fn is_active(self) -> (r: bool)
        ensures
            r == (self is Controlling || self is Controlled),
    {
        match self {
            Self::Controlling | Self::Controlled => true,
            _ => false,
        }
    }

    /// The state's name, for diagnostics.
    pub fn name(self) -> (r: &'static str)
        ensures
            r@ == spec_state_name(self),
    {
        let r: &'static str = match self {
            Self::Connected => "Connected",
            Self::HelloSent => "HelloSent",
            Self::Idle => "Idle",
            Self::Controlling => "Controlling",
            Self::Controlled => "Controlled",
            Self::Disconnecting => "Disconnecting",
        };
        proof {
            reveal_strlit("Connected");
            reveal_strlit("HelloSent");
            reveal_strlit("Idle");
            reveal_strlit("Controlling");
            reveal_strlit("Controlled");
            reveal_strlit("Disconnecting");
            assert(r@ =~= spec_state_name(self));
        }
        r
    }
}

/// The display name of a session state.
pub open spec fn spec_state_name(s: SessionState) -> Seq<char> {
    match s {
        SessionState::Connected => "Connected"@,
        SessionState::HelloSent => "HelloSent"@,
        SessionState::Idle => "Idle"@,
        SessionState::Controlling => "Controlling"@,
        SessionState::Controlled => "Controlled"@,
        SessionState::Disconnecting => "Disconnecting"@,
    }
}

} // verus!
