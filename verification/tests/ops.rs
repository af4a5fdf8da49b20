use agent_poker::audit::{
    ActionAttemptRecord, AuditReadRepository, AuditRepository, InMemoryAuditRepository,
};
use agent_poker::domain::ids::id_text;
use agent_poker::domain::{
    Chips, HandEvent, HandEventKind, HandId, RequestId, RoomId, Timestamp, TraceId,
};
use agent_poker::json::Json;
use agent_poker::ledger::{
    ChainTxReadRepository, ChainTxRepository, ExceptionCreditUpsert, InMemoryChainTxRepository,
    InMemorySettlementPersistenceRepository, SettlementPersistenceReadRepository,
    SettlementPersistenceRepository, SettlementPlanRecordInsert, SettlementRecordInsert,
    TxBindingInsert, TxVerificationUpsert,
};
use agent_poker::paging::PageRequest;
use agent_poker::server::ops::{
    admin_audit_request, admin_audit_tx, admin_hand_replay, admin_mark_settlement_manual_review,
    admin_room, admin_settlement_hand, admin_upsert_showdown_input, asked_hand, asked_room, health,
    metrics, plan_of_records, AdminMarkManualReviewRequest, InMemoryRoomAdminReadRepository,
    NoopShowdownAdminRepository, RoomAdminAggregate, RoomAdminReadRepository, RoomAdminRow,
    ShowdownAdminRepository, CREDIT_LIMIT, REPLAY_LIMIT,
};
use agent_poker::server::showdown::{AdminUpsertShowdownInputRequest, ShowdownSeatCardsInput};

fn fresh() -> u128 {
    uuid::Uuid::now_v7().as_u128()
}

#[test]
fn admin_audit_request_reads_from_in_memory_repo() {
    let mut audit_repo = InMemoryAuditRepository::default();
    let request_id = id_text(RequestId::new().0);
    audit_repo
        .insert_action_attempt(ActionAttemptRecord {
            attempt_id: id_text(RequestId::new().0),
            request_id: request_id.clone(),
            request_nonce: "n1".to_string(),
            agent_id: None,
            session_id: None,
            room_id: None,
            hand_id: None,
            seat_id: None,
            action_seq: None,
            method: "game.act".to_string(),
            action_type: Some("call".to_string()),
            request_payload_json: Json::Object(Vec::new()),
            signature_verify_result: "ok".to_string(),
            replay_check_result: "ok".to_string(),
            idempotency_check_result: "ok".to_string(),
            validation_result: "ok".to_string(),
            router_result: "ok".to_string(),
            business_result_code: None,
            error_detail: None,
            received_at: Timestamp::now(),
            completed_at: Some(Timestamp::now()),
            trace_id: TraceId::new(),
        })
        .expect("insert");

    let record = audit_repo.get_action_attempt_by_request_id(&request_id).expect("query");
    let resp = admin_audit_request(request_id.clone(), record);

    assert!(resp.found);
    assert!(resp.record.is_some());
    let text = resp.record.expect("record").to_text();
    let value: serde_json::Value = serde_json::from_str(&text).expect("document");
    assert_eq!(value["request_id"], request_id.as_str());
    assert_eq!(value["action_type"], "call");
    assert!(!admin_audit_request("x".to_string(), None).found);
}

#[test]
fn admin_audit_tx_reads_verification_and_exception_credit() {
    let tx_hash = "0xabc".to_string();
    let room_id = RoomId::new();
    let mut chain_repo = InMemoryChainTxRepository::new();
    chain_repo
        .upsert_tx_verification(TxVerificationUpsert {
            tx_hash: tx_hash.clone(),
            room_id,
            hand_id: None,
            seat_id: Some(1),
            action_seq: Some(2),
            status: "matched".to_string(),
            confirmations: 1,
            failure_reason: None,
            observed_from: Some("0xfrom".to_string()),
            observed_to: Some("0xto".to_string()),
            observed_amount: Some(Chips(10)),
            verified_at: Timestamp::now(),
            trace_id: TraceId::new(),
        })
        .expect("tx verification");
    for hash in [tx_hash.clone(), "0xother".to_string()] {
        chain_repo
            .upsert_exception_credit(ExceptionCreditUpsert {
                room_id,
                seat_id: Some(1),
                tx_hash: hash,
                credit_type: "unmatched".to_string(),
                amount: Chips(10),
                status: "open".to_string(),
                reason: "mismatch".to_string(),
                updated_at: Timestamp::now(),
                trace_id: TraceId::new(),
            })
            .expect("exception credit");
    }
    chain_repo
        .insert_tx_binding(TxBindingInsert {
            tx_hash: tx_hash.clone(),
            room_id,
            hand_id: HandId::new(),
            seat_id: 1,
            action_seq: 2,
            expected_amount: Some(Chips(10)),
            binding_status: "submitted".to_string(),
            created_at: Timestamp::now(),
            trace_id: TraceId::new(),
        })
        .expect("tx binding");

    let verification = chain_repo.get_tx_verification(&tx_hash).expect("query");
    let binding = chain_repo.get_tx_binding_by_tx_hash(&tx_hash).expect("query");
    let credits = chain_repo
        .list_exception_credits(None, PageRequest { limit: CREDIT_LIMIT, offset: 0 })
        .expect("query");
    let resp = admin_audit_tx(tx_hash, verification.as_ref(), binding.as_ref(), &credits);

    assert!(resp.found);
    assert!(resp.verification.is_some());
    assert!(resp.tx_binding.is_some());
    assert_eq!(resp.exception_credits.len(), 1);
    assert!(!admin_audit_tx("0xnone".to_string(), None, None, &credits).found);
}

#[test]
fn admin_hand_replay_reads_hand_events() {
    let mut audit_repo = InMemoryAuditRepository::default();
    let hand_id = HandId::new();
    let event = |kind| HandEvent {
        room_id: RoomId::new(),
        hand_id,
        event_seq: 1,
        trace_id: TraceId::new(),
        occurred_at: Timestamp::now(),
        kind,
    };
    audit_repo
        .append_hand_events(&vec![event(HandEventKind::HandStarted)])
        .expect("append hand event");

    let events: Vec<HandEvent> = audit_repo
        .list_hand_events(hand_id, PageRequest { limit: REPLAY_LIMIT, offset: 0 })
        .expect("events");
    let resp = admin_hand_replay(id_text(hand_id.0), &events);

    assert!(resp.found);
    assert_eq!(resp.events.len(), 1);

    let huge = event(HandEventKind::PotUpdated { pot_total: Chips(u128::MAX) });
    assert!(!admin_hand_replay("x".to_string(), &vec![huge]).found);
}

#[test]
fn admin_room_reads_room_aggregate() {
    let mut room_repo = InMemoryRoomAdminReadRepository::new();
    let room_id = RoomId::new();
    let aggregate = |occupied_seats| RoomAdminAggregate {
        room_id,
        room_status: "active".to_string(),
        dealer_address: "cfx:room".to_string(),
        max_players: 6,
        occupied_seats,
        latest_hand_id: None,
        latest_hand_no: Some(12),
        latest_hand_status: Some("running".to_string()),
        latest_hand_started_at: Some(Timestamp::now()),
        open_exception_credit_count: 1,
        open_exception_credit_total: "10".to_string(),
    };
    room_repo.upsert(aggregate(2)).expect("upsert room");

    let asked = asked_room(&id_text(room_id.0)).expect("room id");
    let found = room_repo.get_room_admin_aggregate(asked).expect("query");
    assert_eq!(found.map(|room| room.occupied_seats), Some(2));
    let resp = admin_room(id_text(room_id.0), Some(aggregate(2)));
    assert!(resp.found);
    assert_eq!(resp.room.expect("room").occupied_seats, 2);
    assert_eq!(asked_room("no room"), None);
    assert_eq!(asked_hand("no hand"), None);
    assert!(!admin_room("x".to_string(), None).found);
}

#[test]
fn rows_of_rooms_are_read() {
    let row = RoomAdminRow {
        room_id: 1,
        room_status: "active".to_string(),
        dealer_address: "0x1".to_string(),
        max_players: -1,
        occupied_seats: 70_000,
        latest_hand_id: Some(2),
        latest_hand_no: Some(-3),
        latest_hand_status: None,
        latest_hand_started_at: None,
        open_exception_credit_count: 4,
        open_exception_credit_total: "5".to_string(),
    };
    let room = RoomAdminAggregate::from_row(row);
    assert_eq!(room.max_players, 0);
    assert_eq!(room.occupied_seats, 0);
    assert_eq!(room.latest_hand_no, None);
    assert_eq!(
        room.latest_hand_id.as_deref(),
        Some("00000000-0000-0000-0000-000000000002")
    );
    assert_eq!(room.open_exception_credit_count, 4);
}

fn settlement(
    room_id: RoomId,
    hand_id: HandId,
    tx_hash: &str,
) -> InMemorySettlementPersistenceRepository {
    let mut repo = InMemorySettlementPersistenceRepository::new();
    let plan_id = fresh();
    repo.insert_settlement_plan(SettlementPlanRecordInsert {
        settlement_plan_id: plan_id,
        room_id,
        hand_id,
        status: "created".to_string(),
        rake_amount: Chips(1),
        payout_total: Chips(9),
        payload_json: Json::Object(vec![("payouts".to_string(), Json::Array(Vec::new()))]),
        created_at: Timestamp::now(),
        finalized_at: None,
    })
    .expect("plan");
    repo.insert_settlement_record(SettlementRecordInsert {
        settlement_record_id: fresh(),
        settlement_plan_id: plan_id,
        room_id,
        hand_id,
        tx_hash: Some(tx_hash.to_string()),
        settlement_status: "submitted".to_string(),
        retry_count: 0,
        error_detail: None,
        created_at: Timestamp::now(),
        updated_at: Timestamp::now(),
    })
    .expect("record");
    repo
}

#[test]
fn admin_settlement_hand_reads_plan_and_records() {
    let hand_id = HandId::new();
    let repo = settlement(RoomId::new(), hand_id, "0xtx");
    let records: Vec<SettlementRecordInsert> = repo
        .list_settlement_records_by_hand(hand_id)
        .expect("records");
    let plan_id = plan_of_records(&records).expect("plan id");
    let plan = repo.get_settlement_plan(plan_id).expect("plan");
    let resp = admin_settlement_hand(id_text(hand_id.0), plan, &records);

    assert!(resp.found);
    assert!(resp.plan.is_some());
    assert_eq!(resp.records.len(), 1);
    assert!(!admin_settlement_hand("x".to_string(), None, &Vec::new()).found);
    assert_eq!(plan_of_records(&Vec::new()), None);
}

#[test]
fn admin_mark_settlement_manual_review_updates_status_by_tx_hash() {
    let hand_id = HandId::new();
    let mut repo = settlement(RoomId::new(), hand_id, "0xtxmark");

    let (update, resp) = admin_mark_settlement_manual_review(
        "0xtxmark".to_string(),
        AdminMarkManualReviewRequest {
            retry_count: Some(2),
            reason: Some("ops escalation".to_string()),
        },
    );
    repo.update_settlement_record_status_by_tx_hash(&update).expect("update");

    assert!(resp.ok);
    assert_eq!(resp.settlement_status, "manual_review_required");
    let records = repo.list_settlement_records_by_hand(hand_id).expect("list");
    assert!(records.iter().any(|r| {
        r.tx_hash.as_deref() == Some("0xtxmark")
            && r.settlement_status == "manual_review_required"
            && r.retry_count == 2
    }));
}

#[test]
fn reviews_have_defaults() {
    let (update, resp) = admin_mark_settlement_manual_review(
        "0x1".to_string(),
        AdminMarkManualReviewRequest { retry_count: None, reason: None },
    );
    assert_eq!(update.retry_count, 1);
    assert_eq!(
        update.error_detail.as_deref(),
        Some("manual review required (ops override)")
    );
    assert_eq!(resp.retry_count, 1);
    let (update, _) = admin_mark_settlement_manual_review(
        "0x1".to_string(),
        AdminMarkManualReviewRequest { retry_count: Some(-4), reason: None },
    );
    assert_eq!(update.retry_count, 0);
}

#[derive(Default)]
struct InMemoryShowdownAdminRepo {
    writes: Vec<(HandId, AdminUpsertShowdownInputRequest)>,
}

impl ShowdownAdminRepository for InMemoryShowdownAdminRepo {
    fn upsert_showdown_input(
        &mut self,
        hand_id: HandId,
        payload: AdminUpsertShowdownInputRequest,
    ) -> Result<(), String> {
        self.writes.push((hand_id, payload));
        Ok(())
    }
}

fn showdown_request(room_id: RoomId) -> AdminUpsertShowdownInputRequest {
    AdminUpsertShowdownInputRequest {
        room_id: id_text(room_id.0),
        board: "AhKhQhJhTh".to_string(),
        revealed_hole_cards: vec![ShowdownSeatCardsInput {
            seat_id: 0,
            cards: "2c3d".to_string(),
        }],
    }
}

#[test]
fn admin_upsert_showdown_input_writes_repo() {
    let mut repo = InMemoryShowdownAdminRepo::default();
    let hand_id = HandId::new();
    let room_id = RoomId::new();

    let accepted = match asked_hand(&id_text(hand_id.0)) {
        Some(hand_id) => {
            repo.upsert_showdown_input(hand_id, showdown_request(room_id)).is_ok()
        }
        None => false,
    };
    let resp = admin_upsert_showdown_input(id_text(hand_id.0), accepted);

    assert!(resp.accepted);
    assert_eq!(repo.writes.len(), 1);
    assert_eq!(repo.writes[0].0, hand_id);
    assert_eq!(repo.writes[0].1.room_id, id_text(room_id.0));
    let mut none = NoopShowdownAdminRepository;
    assert_eq!(none.upsert_showdown_input(hand_id, showdown_request(room_id)), Ok(()));
}

#[test]
fn the_server_says_that_it_is_well() {
    assert!(health().ok);
    assert_eq!(health().service, "ops-http");
    assert_eq!(metrics().format, "prometheus-text");
    assert_eq!(metrics().body, "# metrics not implemented yet\n");
}
