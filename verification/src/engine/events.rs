use vstd::prelude::*;

use crate::domain::action::PlayerAction;
use crate::domain::events::HandEventKind;
use crate::domain::game::{HandSnapshot, HandStatus, SeatId, Street};
use crate::engine::betting::{EngineActionResult, PokerEngine};
use crate::engine::state::EngineState;

verus! {

/// The turn that begins, if somebody is to act.
pub open spec fn turn_event(actor: Option<SeatId>) -> Seq<HandEventKind> {
    match actor {
        Some(seat_id) => seq![HandEventKind::TurnStarted { seat_id: seat_id }],
        None => Seq::empty(),
    }
}

/// What is told when a hand begins.
pub open spec fn events_at_start(snapshot: HandSnapshot) -> Seq<HandEventKind> {
    seq![HandEventKind::HandStarted] + turn_event(snapshot.acting_seat_id)
}

/// What is told after an accepted action, of the state that it left behind.
pub open spec fn events_after_action(
    snapshot: HandSnapshot,
    action: PlayerAction,
    street_changed: Option<Street>,
) -> Seq<HandEventKind> {
    let accepted = seq![
        HandEventKind::ActionAccepted(action),
        HandEventKind::PotUpdated { pot_total: snapshot.pot_total },
    ];
    let street = match street_changed {
        Some(street) => seq![HandEventKind::StreetChanged { street: street }],
        None => Seq::empty(),
    };
    let closed = snapshot.status == HandStatus::Settled || snapshot.status == HandStatus::Aborted;
    accepted + street + (if closed {
        seq![HandEventKind::HandClosed]
    } else {
        turn_event(snapshot.acting_seat_id)
    })
}

impl PokerEngine {
    /// What is told when a hand begins.
    pub fn hand_started_event_kinds(&self, state: &EngineState) -> (events: Vec<HandEventKind>)
        ensures
            events@ == events_at_start(state.snapshot),
    {
        let mut events: Vec<HandEventKind> = Vec::new();
        events.push(HandEventKind::HandStarted);
        match state.snapshot.acting_seat_id {
            Some(seat_id) => {
                events.push(HandEventKind::TurnStarted { seat_id: seat_id });
            },
            None => {},
        }
        assert(events@ =~= events_at_start(state.snapshot));
        events
    }

    /// What is told after an accepted action.
    pub fn post_action_event_kinds(
        &self,
        state: &EngineState,
        action: &PlayerAction,
        result: &EngineActionResult,
    ) -> (events: Vec<HandEventKind>)
        ensures
            events@ == events_after_action(state.snapshot, *action, result->street_changed),
    {
        let mut events: Vec<HandEventKind> = Vec::new();
        events.push(HandEventKind::ActionAccepted(*action));
        events.push(HandEventKind::PotUpdated { pot_total: state.snapshot.pot_total });
        let EngineActionResult::Accepted { street_changed } = result;
        match street_changed {
            Some(street) => {
                events.push(HandEventKind::StreetChanged { street: *street });
            },
            None => {},
        }
        let closed: bool = match state.snapshot.status {
            HandStatus::Settled | HandStatus::Aborted => true,
            _ => false,
        };
        if closed {
            events.push(HandEventKind::HandClosed);
        } else {
            match state.snapshot.acting_seat_id {
                Some(seat_id) => {
                    events.push(HandEventKind::TurnStarted { seat_id: seat_id });
                },
                None => {},
            }
        }
        assert(events@ =~= events_after_action(state.snapshot, *action, result->street_changed));
        events
    }
}

} // verus!
