use agent_poker::domain::ids::{id_text, parse_id};
use agent_poker::domain::{
    ActionType, AuditBehaviorEvent, AuditBehaviorEventKind, Chips, HandEvent, HandEventKind, HandId,
    HandStatus, MoneyError, PlayerAction, RoomId, SessionId, Street, Timestamp, TraceId,
};

fn parsed(text: String) -> serde_json::Value {
    serde_json::from_str(&text).expect("document")
}

#[test]
fn action_type_serializes_as_snake_case() {
    assert_eq!(ActionType::RaiseTo.name(), "raise_to");
    assert_eq!(ActionType::AllIn.name(), "all_in");
}

#[test]
fn street_and_hand_status_serialize_as_snake_case() {
    assert_eq!(Street::Preflop.name(), "preflop");
    assert_eq!(HandStatus::Settling.name(), "settling");
}

#[test]
fn hand_event_kind_variant_names_are_stable_snake_case() {
    let ev = HandEvent {
        room_id: RoomId::new(),
        hand_id: HandId::new(),
        event_seq: 1,
        trace_id: TraceId::new(),
        occurred_at: Timestamp::now(),
        kind: HandEventKind::StreetChanged { street: Street::Flop },
    };
    let value = parsed(ev.to_json().expect("document").to_text());
    assert_eq!(value["kind"]["street_changed"]["street"], "flop");
    assert_eq!(value["event_seq"], 1);
}

#[test]
fn audit_behavior_event_kind_variant_names_are_stable_snake_case() {
    let ev = AuditBehaviorEvent {
        room_id: Some(RoomId::new()),
        hand_id: Some(HandId::new()),
        seat_id: Some(1),
        trace_id: TraceId::new(),
        occurred_at: Timestamp::now(),
        kind: AuditBehaviorEventKind::ChainTxVerificationCallback {
            seat_id: Some(1),
            action_seq: Some(2),
            tx_hash: "0xabc".to_string(),
            status: "matched".to_string(),
            confirmations: 3,
            failure_reason: None,
        },
    };
    let value = parsed(ev.kind.to_json().to_text());
    assert_eq!(value["chain_tx_verification_callback"]["tx_hash"], "0xabc");
    assert_eq!(value["chain_tx_verification_callback"]["failure_reason"], serde_json::Value::Null);
}

#[test]
fn chips_are_added_and_taken_away() {
    assert_eq!(Chips(2).checked_add(Chips(3)), Ok(Chips(5)));
    assert_eq!(Chips(u128::MAX).checked_add(Chips(1)), Err(MoneyError::Overflow));
    assert_eq!(Chips(5).checked_sub(Chips(3)), Ok(Chips(2)));
    assert_eq!(Chips(2).checked_sub(Chips(3)), Err(MoneyError::Underflow));
    assert_eq!(Chips::zero(), Chips(0));
    let sum = Chips(7).checked_add(Chips(8)).expect("sum");
    assert_eq!(sum.checked_sub(Chips(8)), Ok(Chips(7)));
}

#[test]
fn identifiers_are_written_and_read() {
    let id = 0x0123_4567_89ab_cdef_0123_4567_89ab_cdef_u128;
    assert_eq!(id_text(id), "01234567-89ab-cdef-0123-456789abcdef");
    assert_eq!(parse_id("01234567-89ab-cdef-0123-456789abcdef"), Ok(id));
    assert_eq!(parse_id("0123456789ABCDEF0123456789ABCDEF"), Ok(id));
    assert!(parse_id("not an identifier").is_err());
    assert_ne!(RoomId::new(), RoomId::new());
}

#[test]
fn moments_are_written_as_texts() {
    let moment = Timestamp::new(1_700_000_000, 500_000_000).expect("moment");
    assert_eq!(moment.to_rfc3339(), "2023-11-14T22:13:20.500+00:00");
    assert_eq!(moment.to_document_text(), "2023-11-14T22:13:20.500Z");
    assert_eq!(Timestamp::new(0, 1_000_000_000), None);
    assert_eq!(Timestamp::new(i64::MAX, 0), None);
    let earlier = Timestamp::new(1_699_999_999, 0).expect("moment");
    assert_eq!(moment.nanos_since(earlier), 1_500_000_000);
    assert!(earlier.is_at_or_before(moment));
    assert!(!moment.is_at_or_before(earlier));
}

#[test]
fn amounts_beyond_documents_are_told() {
    let action = PlayerAction {
        room_id: RoomId::new(),
        hand_id: HandId::new(),
        action_seq: 1,
        seat_id: 0,
        action_type: ActionType::RaiseTo,
        amount: Some(Chips(u64::MAX as u128 + 1)),
    };
    assert!(action.to_json().is_none());
    let small = PlayerAction { amount: Some(Chips(50)), ..action };
    let value = parsed(small.to_json().expect("document").to_text());
    assert_eq!(value["amount"], 50);
    assert_eq!(value["action_type"], "raise_to");
}

#[test]
fn fresh_identifiers_begin_with_the_time() {
    let first = RoomId::new();
    let second = RoomId::new();
    assert_ne!(first, second);
    for id in [first.0, second.0] {
        assert_eq!((id >> 76) & 15, 7);
        assert_eq!((id >> 62) & 3, 2);
    }
    assert_ne!(SessionId::new(), SessionId::nil());
    assert_eq!(SessionId::nil(), SessionId(0));
}

#[test]
fn identifiers_have_their_own_texts() {
    assert_eq!(id_text(0xabc), "00000000-0000-0000-0000-000000000abc");
    assert_eq!(
        id_text(0x0123_4567_89ab_cdef_0011_2233_4455_6677),
        "01234567-89ab-cdef-0011-223344556677"
    );
    assert_ne!(id_text(1), id_text(16));
    assert_ne!(id_text(1), id_text(u128::MAX));
}
