use agent_poker::client::demo::{run_local_multi_bot_demo, DemoEvent, DemoTask};
use agent_poker::domain::{ActionType, Chips, DomainError, HandStatus, PlayerAction, RoomId, Street};
use agent_poker::engine::dealing::ordered_deck;
use agent_poker::engine::{
    EngineActionResult, EngineError, EngineState, PokerEngine, ShowdownInput,
};

fn dealt(seats: &[u8]) -> EngineState {
    let mut state = EngineState::new(RoomId::new(), 1);
    for seat in seats {
        state.seat_player(*seat);
    }
    PokerEngine::new().deal_new_hand_internal(&mut state).expect("deal");
    state
}

fn action(state: &EngineState, action_type: ActionType, amount: Option<u128>) -> PlayerAction {
    PlayerAction {
        room_id: state.snapshot.room_id,
        hand_id: state.snapshot.hand_id,
        action_seq: state.snapshot.next_action_seq,
        seat_id: state.snapshot.acting_seat_id.expect("somebody acts"),
        action_type,
        amount: amount.map(Chips),
    }
}

/// Whether the pot holds what the players put in and is shown as it is, and the layers hold all
/// of it that somebody else matched.
fn pot_is_backed(state: &EngineState) -> bool {
    let paid: u128 = state.pot.player_contributions.values().map(|chips| chips.0).sum();
    let layered: u128 =
        PokerEngine::new().pot_layers(state).iter().map(|layer| layer.amount.0).sum();
    let mut each: Vec<u128> = state.pot.player_contributions.values().map(|chips| chips.0).collect();
    each.sort();
    let unmatched = each[each.len() - 1] - each[each.len() - 2];
    paid == state.pot.main_pot.0
        && paid == state.snapshot.pot_total.0
        && paid == layered + unmatched
}

#[test]
fn local_multi_bot_demo_reaches_showdown_or_terminal_state() {
    let engine = PokerEngine::new();
    let mut state = dealt(&[0, 1]);
    let mut steps = 0_u32;
    let mut task = DemoTask::ReadState;
    let status = loop {
        let event = match task {
            DemoTask::ReadState => {
                steps = steps.saturating_add(1);
                DemoEvent::StateRead(Some(state.snapshot.clone()))
            }
            DemoTask::Wait => panic!("somebody acts until the showdown"),
            DemoTask::ReadChoices { snapshot, seat_id } => {
                let legal_actions = engine.legal_actions(&state, seat_id);
                DemoEvent::ChoicesRead { snapshot, seat_id, legal_actions }
            }
            DemoTask::Act(chosen) => {
                engine.apply_action(&mut state, chosen).expect("demo should progress");
                assert!(pot_is_backed(&state));
                DemoEvent::Acted { steps, max_steps: 64 }
            }
            DemoTask::Stop(status) => break status,
            DemoTask::Fail(why) => panic!("{why}"),
        };
        task = run_local_multi_bot_demo(event);
    };
    assert!(matches!(
        status,
        HandStatus::Showdown | HandStatus::Settled | HandStatus::Aborted
    ));
    assert_eq!(status, HandStatus::Showdown);
    assert_eq!(state.snapshot.street, Street::Showdown);
}

#[test]
fn refused_actions_change_nothing() {
    let engine = PokerEngine::new();
    let mut state = dealt(&[0, 1, 2]);
    let before = state.snapshot.clone();
    let pot = state.pot.main_pot;
    let check = action(&state, ActionType::Check, None);
    let refused = engine.apply_action(&mut state, check);
    assert_eq!(refused, Err(EngineError::Domain(DomainError::ActionIllegal)));
    assert_eq!(state.snapshot, before);
    assert_eq!(state.pot.main_pot, pot);
}

#[test]
fn accepted_actions_are_not_repeated() {
    let engine = PokerEngine::new();
    let mut state = dealt(&[0, 1, 2]);
    let call = action(&state, ActionType::Call, None);
    assert!(matches!(
        engine.apply_action(&mut state, call),
        Ok(EngineActionResult::Accepted { .. })
    ));
    assert_eq!(state.snapshot.next_action_seq, call.action_seq + 1);
    assert!(matches!(
        engine.apply_action(&mut state, call),
        Err(EngineError::Domain(_))
    ));
}

#[test]
fn offered_raises_are_allowed() {
    let engine = PokerEngine::new();
    let state = dealt(&[0, 1, 2]);
    let seat = state.snapshot.acting_seat_id.expect("actor");
    let offered = engine
        .legal_actions(&state, seat)
        .into_iter()
        .find(|choice| choice.action_type == ActionType::RaiseTo)
        .and_then(|choice| choice.min_amount)
        .expect("a raise is offered");
    let mut raised = state.clone();
    let raise = action(&state, ActionType::RaiseTo, Some(offered.0));
    assert!(matches!(
        engine.apply_action(&mut raised, raise),
        Ok(EngineActionResult::Accepted { .. })
    ));
    assert!(pot_is_backed(&raised));
    let mut short = state.clone();
    let less = action(&state, ActionType::RaiseTo, Some(offered.0 - 1));
    assert_eq!(
        engine.apply_action(&mut short, less),
        Err(EngineError::Domain(DomainError::ActionIllegal))
    );
}

#[test]
fn overflows_of_the_pot_are_reported() {
    let engine = PokerEngine::new();
    let mut state = dealt(&[0, 1]);
    let huge = action(&state, ActionType::AllIn, Some(u128::MAX));
    assert!(matches!(
        engine.apply_action(&mut state, huge),
        Err(EngineError::Money(_))
    ));
    assert_eq!(state.snapshot.next_action_seq, huge.action_seq);
}

#[test]
fn dealing_keeps_every_card() {
    let state = dealt(&[1, 4, 6, 8]);
    let dealing = state.dealing.as_ref().expect("dealing");
    let mut cards: Vec<u8> = dealing.undealt_deck.clone();
    cards.extend(&dealing.board_cards);
    cards.extend(&dealing.burn_cards);
    for hole in dealing.hole_cards.values() {
        cards.extend(hole);
    }
    cards.sort();
    let mut deck = ordered_deck();
    deck.sort();
    assert_eq!(cards, deck);
    assert_eq!(deck.len(), 52);
}

#[test]
fn dealing_is_refused() {
    let engine = PokerEngine::new();
    let mut alone = EngineState::new(RoomId::new(), 1);
    alone.seat_player(0);
    assert_eq!(
        engine.deal_new_hand_internal(&mut alone),
        Err(EngineError::NotEnoughPlayersToDeal)
    );
    let mut state = EngineState::new(RoomId::new(), 1);
    state.seat_player(0);
    state.seat_player(1);
    assert_eq!(
        engine.deal_new_hand_internal_with_deck(&mut state, (0..11).collect()),
        Err(EngineError::InsufficientDeck)
    );
    let mut twice: Vec<u8> = (0..51).collect();
    twice.push(0);
    assert_eq!(
        engine.deal_new_hand_internal_with_deck(&mut state, twice),
        Err(EngineError::DuplicateCardsInDeck)
    );
}

#[test]
fn every_kind_of_hand_beats_the_one_before() {
    let engine = PokerEngine::new();
    let cards = |text: &str| -> Vec<u8> {
        rs_poker::core::FlatHand::new_from_str(text)
            .expect("cards")
            .iter()
            .map(|card| u8::from(*card))
            .collect()
    };
    let duels = [
        ("2c7d9hJsKc", "3d4h", "3h2d"),
        ("2c7d9hJsKc", "KdAh", "2d7h"),
        ("2c7d9hJsKc", "KdJh", "2d2h"),
        ("5c6d7hJsKc", "KdKh", "8d9h"),
        ("5c6c7cJsKd", "8d9h", "2cAc"),
        ("5c6c7c7dKd", "2cAc", "KhKs"),
        ("7c7d5cKdKs", "Kh5d", "7h7s"),
        ("5c6c7cKdKs", "KhKc", "8c9c"),
    ];
    for (board, worse, better) in duels {
        let (low, high) = (cards(worse), cards(better));
        let input = ShowdownInput {
            board: cards(board),
            revealed_hole_cards: vec![(0, [low[0], low[1]]), (1, [high[0], high[1]])],
        };
        let result = engine.evaluate_showdown(&input).expect("result");
        assert_eq!(result.winner_seats, vec![1], "{board} {worse} {better}");
    }
}

#[test]
fn the_demo_ends_after_its_steps() {
    assert_eq!(
        run_local_multi_bot_demo(DemoEvent::Acted { steps: 65, max_steps: 64 }),
        DemoTask::Fail("demo exceeded step limit")
    );
    assert_eq!(
        run_local_multi_bot_demo(DemoEvent::StateRead(None)),
        DemoTask::Fail("missing hand snapshot")
    );
}
