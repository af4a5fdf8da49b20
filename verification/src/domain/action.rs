use vstd::prelude::*;

use crate::domain::game::{ActionSeq, SeatId};
use crate::domain::ids::{HandId, RoomId};
use crate::domain::money::Chips;

verus! {

#[derive(Debug, Clone, Copy, PartialEq, Eq, Structural)]
pub enum ActionType {
    Fold,
    Check,
    Call,
    RaiseTo,
    AllIn,
}

impl ActionType {
    /// The name in documents.
    pub open spec fn spec_name(self) -> Seq<char> {
        match self {
            ActionType::Fold => "fold"@,
            ActionType::Check => "check"@,
            ActionType::Call => "call"@,
            ActionType::RaiseTo => "raise_to"@,
            ActionType::AllIn => "all_in"@,
        }
    }

    /// The name in documents.
    pub fn name(self) -> (name: &'static str)
        ensures
            name@ == self.spec_name(),
    {
        match self {
            ActionType::Fold => "fold",
            ActionType::Check => "check",
            ActionType::Call => "call",
            ActionType::RaiseTo => "raise_to",
            ActionType::AllIn => "all_in",
        }
    }

    /// The name in lists of legal actions and in requests to act.
    pub open spec fn spec_label(self) -> Seq<char> {
        match self {
            ActionType::Fold => "fold"@,
            ActionType::Check => "check"@,
            ActionType::Call => "call"@,
            ActionType::RaiseTo => "raiseto"@,
            ActionType::AllIn => "allin"@,
        }
    }

    /// The name in lists of legal actions and in requests to act.
    pub fn label(self) -> (label: &'static str)
        ensures
            label@ == self.spec_label(),
    {
        match self {
            ActionType::Fold => "fold",
            ActionType::Check => "check",
            ActionType::Call => "call",
            ActionType::RaiseTo => "raiseto",
            ActionType::AllIn => "allin",
        }
    }
}

/// What a player asks for. The amount of a raise is the bet it raises to.
#[derive(Debug, Clone, Copy, PartialEq, Eq, Structural)]
pub struct PlayerAction {
    pub room_id: RoomId,
    pub hand_id: HandId,
    pub action_seq: ActionSeq,
    pub seat_id: SeatId,
    pub action_type: ActionType,
    pub amount: Option<Chips>,
}

/// One choice that a player has, with the bounds of its amount.
#[derive(Debug, Clone, Copy, PartialEq, Eq, Structural)]
pub struct LegalAction {
    pub action_type: ActionType,
    pub min_amount: Option<Chips>,
    pub max_amount: Option<Chips>,
}

} // verus!
