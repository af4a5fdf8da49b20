use agent_poker::audit::{
    hand_event_type, opt_i16, opt_i32, parse_uuid_field, row_to_action_attempt_record,
    row_to_behavior_event_record, ActionAttemptRecord, AuditReadRepository, AuditRepository,
    AuditStoreError, BehaviorEventRecord, InMemoryAuditRepository, NoopAuditRepository,
    OutboxEventRecord,
};
use agent_poker::domain::{
    AgentId, Chips, HandEvent, HandEventKind, HandId, RoomId, Timestamp, TraceId,
};
use agent_poker::json::Json;
use agent_poker::paging::PageRequest;

fn moment(seconds: i64) -> Timestamp {
    Timestamp::new(seconds, 0).expect("moment")
}

fn outbox(id: &str) -> OutboxEventRecord {
    OutboxEventRecord {
        outbox_event_id: id.to_string(),
        topic: "hand.events".to_string(),
        partition_key: "p1".to_string(),
        payload_json: Json::Object(Vec::new()),
        status: "pending".to_string(),
        attempts: 0,
        available_at: Timestamp::now(),
        delivered_at: None,
        created_at: Timestamp::now(),
    }
}

#[test]
fn in_memory_outbox_fetch_and_mark_delivered() {
    let mut repo = InMemoryAuditRepository::default();
    repo.insert_outbox_event(outbox("evt-1")).expect("insert");

    let pending = repo.fetch_pending_outbox_events(10).expect("fetch");
    assert_eq!(pending.len(), 1);
    repo.mark_outbox_event_delivered("evt-1", Timestamp::now()).expect("mark");
    let pending = repo.fetch_pending_outbox_events(10).expect("fetch");
    assert!(pending.is_empty());
}

#[test]
fn pending_events_come_in_order_and_bounded() {
    let mut repo = InMemoryAuditRepository::default();
    for id in ["a", "b", "c"] {
        repo.insert_outbox_event(outbox(id)).expect("insert");
    }
    let pending = repo.fetch_pending_outbox_events(2).expect("fetch");
    let ids: Vec<_> = pending.iter().map(|event| event.outbox_event_id.as_str()).collect();
    assert_eq!(ids, vec!["a", "b"]);
    repo.mark_outbox_event_delivered("a", moment(1)).expect("mark");
    repo.mark_outbox_event_delivered("a", moment(2)).expect("mark");
    let first = &repo.outbox_events[0];
    assert_eq!(first.status, "delivered");
    assert_eq!(first.delivered_at, Some(moment(2)));
    assert_eq!(repo.fetch_pending_outbox_events(9).expect("fetch").len(), 2);
}

fn started(hand_id: HandId, event_seq: u32) -> HandEvent {
    HandEvent {
        room_id: RoomId::new(),
        hand_id,
        event_seq,
        trace_id: TraceId::new(),
        occurred_at: Timestamp::now(),
        kind: HandEventKind::HandStarted,
    }
}

#[test]
fn in_memory_append_hand_events_stores_records() {
    let mut repo = InMemoryAuditRepository::default();
    repo.append_hand_events(&vec![started(HandId::new(), 1)]).expect("append");
    assert_eq!(repo.hand_events.len(), 1);
}

#[test]
fn events_of_a_hand_are_listed() {
    let mut repo = InMemoryAuditRepository::default();
    let hand_id = HandId::new();
    repo.append_hand_events(&vec![
        started(hand_id, 1),
        started(HandId::new(), 1),
        started(hand_id, 2),
        started(hand_id, 3),
    ])
    .expect("append");
    let page = PageRequest { limit: 2, offset: 1 };
    let events = repo.list_hand_events(hand_id, page).expect("events");
    let numbers: Vec<_> = events.iter().map(|event| event.event_seq).collect();
    assert_eq!(numbers, vec![2, 3]);
}

fn attempt(request_id: &str) -> ActionAttemptRecord {
    ActionAttemptRecord {
        attempt_id: "00000000-0000-0000-0000-000000000001".to_string(),
        request_id: request_id.to_string(),
        request_nonce: "n1".to_string(),
        agent_id: Some(AgentId(3)),
        session_id: None,
        room_id: Some(RoomId(4)),
        hand_id: None,
        seat_id: Some(5),
        action_seq: Some(6),
        method: "game.act".to_string(),
        action_type: Some("call".to_string()),
        request_payload_json: Json::Object(Vec::new()),
        signature_verify_result: "ok".to_string(),
        replay_check_result: "ok".to_string(),
        idempotency_check_result: "ok".to_string(),
        validation_result: "ok".to_string(),
        router_result: "ok".to_string(),
        business_result_code: None,
        error_detail: None,
        received_at: moment(7),
        completed_at: Some(moment(8)),
        trace_id: TraceId(9),
    }
}

#[test]
fn attempts_are_found_and_read_back() {
    let mut repo = InMemoryAuditRepository::default();
    repo.insert_action_attempt(attempt("00000000-0000-0000-0000-000000000002")).expect("insert");
    let found = repo
        .get_action_attempt_by_request_id("00000000-0000-0000-0000-000000000002")
        .expect("query")
        .expect("attempt");
    assert_eq!(found.method, "game.act");
    assert!(repo.get_action_attempt_by_request_id("other").expect("query").is_none());

    let row = attempt("00000000-0000-0000-0000-000000000002").to_row().expect("row");
    assert_eq!(
        row_to_action_attempt_record(row),
        attempt("00000000-0000-0000-0000-000000000002")
    );
    assert!(attempt("no identifier").to_row().is_err());
}

#[test]
fn behavior_is_listed_and_read_back() {
    let record = || BehaviorEventRecord {
        behavior_event_id: "00000000-0000-0000-0000-000000000001".to_string(),
        event_kind: "seat_joined".to_string(),
        event_source: "room".to_string(),
        room_id: Some(RoomId(1)),
        hand_id: None,
        seat_id: Some(2),
        action_seq: None,
        related_attempt_id: None,
        related_tx_hash: None,
        severity: "info".to_string(),
        payload_json: Json::Null,
        occurred_at: moment(3),
        trace_id: TraceId(4),
    };
    let row = record().to_row().expect("row");
    assert_eq!(row_to_behavior_event_record(row), record());
    let mut repo = InMemoryAuditRepository::default();
    repo.insert_behavior_event(record()).expect("insert");
    assert_eq!(repo.behavior_events.len(), 1);
    assert_eq!(NoopAuditRepository.insert_behavior_event(record()), Ok(()));
}

#[test]
fn outbox_events_read_back() {
    let mut record = outbox("00000000-0000-0000-0000-000000000001");
    record.attempts = 3;
    record.available_at = moment(1);
    record.created_at = moment(2);
    let row = record.to_row().expect("row");
    assert_eq!(OutboxEventRecord::from_row(row), record);
}

#[test]
fn fields_are_read() {
    assert_eq!(parse_uuid_field("id", "00000000-0000-0000-0000-000000000007"), Ok(7));
    assert_eq!(
        parse_uuid_field("id", "x"),
        Err(AuditStoreError::InvalidUuid { field: "id".to_string(), value: "x".to_string() })
    );
    assert_eq!(opt_i16(Some(255)), Some(255));
    assert_eq!(opt_i16(None), None);
    assert_eq!(opt_i32(Some(7)), Some(7));
    assert_eq!(hand_event_type(&HandEventKind::PotUpdated { pot_total: Chips(1) }), "PotUpdated");
}
