use vstd::prelude::*;

verus! {

/// Why a request does not fit the state of a room or a hand.
#[derive(Debug, Clone, Copy, PartialEq, Eq, Structural)]
pub enum DomainError {
    InvalidRoomState,
    InvalidHandState,
    ActionIllegal,
    NotYourTurn,
}

impl DomainError {
    /// What the error says to a reader.
    pub fn message(self) -> (text: &'static str)
        ensures
            text@ == self.spec_message(),
    {
        match self {
            DomainError::InvalidRoomState => "invalid room state",
            DomainError::InvalidHandState => "invalid hand state",
            DomainError::ActionIllegal => "action is not legal",
            DomainError::NotYourTurn => "not your turn",
        }
    }

    pub open spec fn spec_message(self) -> Seq<char> {
        match self {
            DomainError::InvalidRoomState => "invalid room state"@,
            DomainError::InvalidHandState => "invalid hand state"@,
            DomainError::ActionIllegal => "action is not legal"@,
            DomainError::NotYourTurn => "not your turn"@,
        }
    }
}

} // verus!
