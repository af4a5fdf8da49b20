use vstd::prelude::*;

use crate::domain::ids::{HandId, RoomId};
use crate::domain::money::Chips;

verus! {

/// A place at the table.
pub type SeatId = u8;

/// The number of an action within its hand.
pub type ActionSeq = u32;

#[derive(Debug, Clone, Copy, PartialEq, Eq, Structural)]
pub enum Street {
    Preflop,
    Flop,
    Turn,
    River,
    Showdown,
}

#[derive(Debug, Clone, Copy, PartialEq, Eq, Structural)]
pub enum HandStatus {
    Created,
    Running,
    Showdown,
    Settling,
    Settled,
    Aborted,
}

impl Street {
    /// The name in documents.
    pub open spec fn spec_name(self) -> Seq<char> {
        match self {
            Street::Preflop => "preflop"@,
            Street::Flop => "flop"@,
            Street::Turn => "turn"@,
            Street::River => "river"@,
            Street::Showdown => "showdown"@,
        }
    }

    /// The name in documents.
    pub fn name(self) -> (name: &'static str)
        ensures
            name@ == self.spec_name(),
    {
        match self {
            Street::Preflop => "preflop",
            Street::Flop => "flop",
            Street::Turn => "turn",
            Street::River => "river",
            Street::Showdown => "showdown",
        }
    }
}

impl HandStatus {
    /// The name in documents.
    pub open spec fn spec_name(self) -> Seq<char> {
        match self {
            HandStatus::Created => "created"@,
            HandStatus::Running => "running"@,
            HandStatus::Showdown => "showdown"@,
            HandStatus::Settling => "settling"@,
            HandStatus::Settled => "settled"@,
            HandStatus::Aborted => "aborted"@,
        }
    }

    /// The name in documents.
    pub fn name(self) -> (name: &'static str)
        ensures
            name@ == self.spec_name(),
    {
        match self {
            HandStatus::Created => "created",
            HandStatus::Running => "running",
            HandStatus::Showdown => "showdown",
            HandStatus::Settling => "settling",
            HandStatus::Settled => "settled",
            HandStatus::Aborted => "aborted",
        }
    }
}

/// What everybody may know of a hand.
#[derive(Debug, Clone, Copy, PartialEq, Eq, Structural)]
pub struct HandSnapshot {
    pub room_id: RoomId,
    pub hand_id: HandId,
    pub hand_no: u64,
    pub status: HandStatus,
    pub street: Street,
    pub acting_seat_id: Option<SeatId>,
    pub next_action_seq: ActionSeq,
    pub pot_total: Chips,
}

} // verus!
