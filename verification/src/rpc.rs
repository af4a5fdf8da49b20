//! The requests and answers that clients and the server exchange.
use vstd::prelude::*;

use crate::auth::SignedRequestMeta;
use crate::domain::game::SeatId;
use crate::domain::ids::{HandId, RoomId};
use crate::json::Json;

verus! {

/// Asks for the state of a room's hand.
#[derive(Debug, Clone, Copy, PartialEq, Eq, Structural)]
pub struct GameGetStateRequest {
    pub room_id: RoomId,
    pub hand_id: Option<HandId>,
    pub seat_id: Option<SeatId>,
}

/// Asks for the choices of a seat.
#[derive(Debug, Clone, Copy, PartialEq, Eq, Structural)]
pub struct GameGetLegalActionsRequest {
    pub room_id: RoomId,
    pub seat_id: SeatId,
}

/// Asks for what only the seat may see.
#[derive(Debug, Clone, Copy, PartialEq, Eq, Structural)]
pub struct GameGetPrivatePayloadsRequest {
    pub room_id: RoomId,
    pub seat_id: SeatId,
    pub hand_id: Option<HandId>,
}

/// Asks for a seat, or says that the player on it is ready.
#[derive(Debug, PartialEq, Eq)]
pub struct RoomReadyRequest {
    pub room_id: RoomId,
    pub seat_id: SeatId,
    pub request_meta: SignedRequestMeta,
}

/// Ties a seat to an address of the chain.
#[derive(Debug, PartialEq, Eq)]
pub struct RoomBindAddressRequest {
    pub room_id: RoomId,
    pub seat_id: SeatId,
    pub seat_address: String,
    pub request_meta: SignedRequestMeta,
}

/// Ties a seat to its keys.
#[derive(Debug, PartialEq, Eq)]
pub struct RoomBindSessionKeysRequest {
    pub room_id: RoomId,
    pub seat_id: SeatId,
    pub seat_address: String,
    pub card_encrypt_pubkey: String,
    pub request_verify_pubkey: String,
    pub key_algo: String,
    pub proof_signature: String,
    pub request_meta: SignedRequestMeta,
}

/// Asks for an action.
#[derive(Debug, PartialEq, Eq)]
pub struct GameActRequest {
    pub room_id: RoomId,
    pub hand_id: HandId,
    pub action_seq: u32,
    pub seat_id: SeatId,
    pub action_type: String,
    pub amount: Option<String>,
    pub tx_hash: Option<String>,
    pub request_meta: SignedRequestMeta,
}

/// What a room says of itself.
#[derive(Debug, PartialEq, Eq)]
pub struct RoomSummary {
    pub room_id: RoomId,
    pub status: String,
    pub chain_address: Option<String>,
}

/// Something that only one seat may see.
#[derive(Debug, PartialEq, Eq)]
pub struct PrivatePayloadEvent {
    pub room_id: RoomId,
    pub hand_id: HandId,
    pub seat_id: SeatId,
    pub event_name: String,
    pub payload: Json,
}

/// Whom an encrypted payload is meant for.
#[derive(Debug, Clone, Copy, PartialEq, Eq, Structural)]
pub struct SeatEventAad {
    pub room_id: RoomId,
    pub hand_id: HandId,
    pub seat_id: SeatId,
    pub event_seq: u32,
}

/// The encrypted cards of a seat.
#[derive(Debug, PartialEq, Eq)]
pub struct HoleCardsDealtCipherPayload {
    pub aad: SeatEventAad,
    pub envelope: Json,
}

/// What events are about.
#[derive(Debug, Clone, Copy, PartialEq, Eq, Structural)]
pub enum EventTopic {
    HandEvents,
    SeatEvents,
}

/// An event on its way to those who asked for it.
#[derive(Debug, PartialEq, Eq)]
pub struct EventEnvelope {
    pub topic: EventTopic,
    pub room_id: RoomId,
    pub hand_id: Option<HandId>,
    pub seat_id: Option<SeatId>,
    pub event_name: String,
    pub payload: Json,
}

} // verus!
