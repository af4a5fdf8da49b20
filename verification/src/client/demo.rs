//! Players that play against each other without a server.
use vstd::prelude::*;

use crate::domain::action::{ActionType, LegalAction, PlayerAction};
use crate::domain::game::{HandSnapshot, HandStatus};
use crate::domain::ids::{is_time_ordered, HandId, RoomId};

verus! {

/// Whether a choice of a kind is among the choices.
pub open spec fn offers(legal_actions: Seq<LegalAction>, action_type: ActionType) -> bool {
    exists|i: int|
        0 <= i < legal_actions.len() && (#[trigger] legal_actions[i]).action_type == action_type
}

fn is_offered(legal_actions: &Vec<LegalAction>, action_type: ActionType) -> (found: bool)
    ensures
        found == offers(legal_actions@, action_type),
{
    let mut i: usize = 0;
    while i < legal_actions.len()
        invariant
            i <= legal_actions.len(),
            forall|k: int| 0 <= k < i ==> (#[trigger] legal_actions@[k]).action_type != action_type,
        decreases legal_actions.len() - i,
    {
        if legal_actions[i].action_type == action_type {
            return true;
        }
        i = i + 1;
    }
    false
}

/// The action that such a player chooses: a check, or else a call, or else a fold.
pub open spec fn bot_choice(legal_actions: Seq<LegalAction>) -> ActionType {
    if offers(legal_actions, ActionType::Check) {
        ActionType::Check
    } else if offers(legal_actions, ActionType::Call) {
        ActionType::Call
    } else {
        ActionType::Fold
    }
}

/// The action that such a player chooses, not yet in any hand.
pub fn choose_action(legal_actions: &Vec<LegalAction>) -> (action: PlayerAction)
    ensures
        action.action_type == bot_choice(legal_actions@),
        action.amount is None,
        action.seat_id == 0,
        action.action_seq == 0,
        is_time_ordered(action.room_id.0),
        is_time_ordered(action.hand_id.0),
{
    let action_type: ActionType = if is_offered(legal_actions, ActionType::Check) {
        ActionType::Check
    } else if is_offered(legal_actions, ActionType::Call) {
        ActionType::Call
    } else {
        ActionType::Fold
    };
    PlayerAction {
        room_id: RoomId::new(),
        hand_id: HandId::new(),
        action_seq: 0,
        seat_id: 0,
        action_type: action_type,
        amount: None,
    }
}

/// What is to be done next.
#[derive(Debug, Clone, Copy, PartialEq, Eq, Structural)]
pub enum DemoStep {
    /// The play is over with this status.
    Stop(HandStatus),
    /// Nobody acts: wait a moment and look again.
    Wait,
    /// Ask for the choices of the seat and act.
    Act(u8),
}

/// What follows from the state of the hand: a showdown ends the play.
pub open spec fn step_after(snapshot: HandSnapshot) -> DemoStep {
    match snapshot.status {
        HandStatus::Settled | HandStatus::Aborted | HandStatus::Showdown => DemoStep::Stop(
            snapshot.status,
        ),
        _ => match snapshot.acting_seat_id {
            Some(seat) => DemoStep::Act(seat),
            None => DemoStep::Wait,
        },
    }
}

/// What follows from the state of the hand.
pub fn demo_step(snapshot: &HandSnapshot) -> (step: DemoStep)
    ensures
        step == step_after(*snapshot),
{
    match snapshot.status {
        HandStatus::Settled => DemoStep::Stop(snapshot.status),
        HandStatus::Aborted => DemoStep::Stop(snapshot.status),
        HandStatus::Showdown => DemoStep::Stop(snapshot.status),
        _ => match snapshot.acting_seat_id {
            Some(seat) => DemoStep::Act(seat),
            None => DemoStep::Wait,
        },
    }
}

/// The action of the seat whose turn it is.
pub open spec fn bot_action(
    snapshot: HandSnapshot,
    seat_id: u8,
    legal_actions: Seq<LegalAction>,
) -> PlayerAction {
    PlayerAction {
        room_id: snapshot.room_id,
        hand_id: snapshot.hand_id,
        action_seq: snapshot.next_action_seq,
        seat_id: seat_id,
        action_type: bot_choice(legal_actions),
        amount: None,
    }
}

/// The action of the seat whose turn it is.
pub fn demo_action(snapshot: &HandSnapshot, seat_id: u8, legal_actions: &Vec<LegalAction>) -> (action:
    PlayerAction)
    ensures
        action == bot_action(*snapshot, seat_id, legal_actions@),
{
    let mut action = choose_action(legal_actions);
    action.room_id = snapshot.room_id;
    action.hand_id = snapshot.hand_id;
    action.seat_id = seat_id;
    action.action_seq = snapshot.next_action_seq;
    action
}

/// What was learned in the course of the play.
pub enum DemoEvent {
    /// The state of the hand, where there is a hand.
    StateRead(Option<HandSnapshot>),
    /// The choices of the seat whose turn it is.
    ChoicesRead { snapshot: HandSnapshot, seat_id: u8, legal_actions: Vec<LegalAction> },
    /// The action was taken, in this step of so many that are allowed.
    Acted { steps: u32, max_steps: u32 },
}

/// What is to be done about it.
#[derive(Debug, PartialEq, Eq)]
pub enum DemoTask {
    /// Look at the state of the hand.
    ReadState,
    /// Wait a moment, then look at the state of the hand.
    Wait,
    /// Ask for the choices of a seat.
    ReadChoices { snapshot: HandSnapshot, seat_id: u8 },
    /// Take the action.
    Act(PlayerAction),
    /// The play is over with this status.
    Stop(HandStatus),
    /// The play failed.
    Fail(&'static str),
}

/// Players that check, call or fold, in this order, until the showdown: what is to be done about
/// what was learned.
pub fn run_local_multi_bot_demo(event: DemoEvent) -> (task: DemoTask)
    ensures
        match event {
            DemoEvent::StateRead(None) => task matches DemoTask::Fail(why) && why@
                == "missing hand snapshot"@,
            DemoEvent::StateRead(Some(snapshot)) => task == (match step_after(snapshot) {
                DemoStep::Stop(status) => DemoTask::Stop(status),
                DemoStep::Wait => DemoTask::Wait,
                DemoStep::Act(seat_id) => DemoTask::ReadChoices { snapshot, seat_id },
            }),
            DemoEvent::ChoicesRead { snapshot, seat_id, legal_actions } => task == DemoTask::Act(
                bot_action(snapshot, seat_id, legal_actions@),
            ),
            DemoEvent::Acted { steps, max_steps } => if steps > max_steps {
                task matches DemoTask::Fail(why) && why@ == "demo exceeded step limit"@
            } else {
                task == DemoTask::ReadState
            },
        },
{
    match event {
        DemoEvent::StateRead(None) => DemoTask::Fail("missing hand snapshot"),
        DemoEvent::StateRead(Some(snapshot)) => match demo_step(&snapshot) {
            DemoStep::Stop(status) => DemoTask::Stop(status),
            DemoStep::Wait => DemoTask::Wait,
            DemoStep::Act(seat_id) => DemoTask::ReadChoices { snapshot, seat_id },
        },
        DemoEvent::ChoicesRead { snapshot, seat_id, legal_actions } => DemoTask::Act(
            demo_action(&snapshot, seat_id, &legal_actions),
        ),
        DemoEvent::Acted { steps, max_steps } => if steps > max_steps {
            DemoTask::Fail("demo exceeded step limit")
        } else {
            DemoTask::ReadState
        },
    }
}

} // verus!
