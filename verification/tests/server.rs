use std::collections::HashMap;

use agent_poker::audit::{
    AuditRepository, BehaviorEventRecord, InMemoryAuditRepository, OutboxEventRecord,
};
use agent_poker::auth::{
    build_seat_key_binding_message, build_signing_message, sign_evm_personal_message_secp256k1,
    SeatKeyBindingClaim, SignedRequestMeta, SigningMessageInput,
};
use agent_poker::chain_watcher::{ChainWatcherError, TxVerificationCallback, VerificationStatus};
use agent_poker::domain::ids::id_text;
use agent_poker::domain::{
    ActionType, AuditBehaviorEventKind, Chips, HandEvent, HandEventKind, HandId, HandSnapshot,
    HandStatus, PlayerAction, RequestId, RoomId, SessionId, Street, Timestamp, TraceId,
};
use agent_poker::engine::{EngineState, PokerEngine, ShowdownInput};
use agent_poker::evm::{evm_address_from_secp256k1_verifying_key, EvmSigningKey};
use agent_poker::json::{Json, JsonNumber};
use agent_poker::ledger::{
    ChainTxRepository, InMemoryChainTxRepository, InMemoryLedgerRepository,
    InMemorySettlementPersistenceRepository, LedgerDirection, LedgerEntryInsert, LedgerRepository,
    LedgerStoreError, SettlementPersistenceReadRepository, SettlementPersistenceRepository,
};
use agent_poker::rpc::{
    EventTopic, GameActRequest, RoomBindAddressRequest, RoomBindSessionKeysRequest,
    RoomReadyRequest,
};
use agent_poker::server::audit_events::{
    append_hand_events, append_private_events, on_hole_cards_encrypted, on_request_rejected,
    outbox_topic, publish_pending_outbox_once, record_behavior_event, to_event_envelope,
    upsert_hand_snapshot_row, HoleCardsDeliveryAuditEvent, OutboxAction, OutboxPayload, OutboxTopic,
    PendingEvent, RequestRejectAuditEvent, RequestRejectReason, RoomBehaviorEvent,
    SeatPrivateEvent,
};
use agent_poker::server::chain_callback::{
    on_verification_result, ChainCallbackAction, ChainVerificationAlert,
};
use agent_poker::server::rooms::{
    act_step, room_row, ActStep, AppRoomService, RoomServiceError,
};
use agent_poker::server::settings::{
    auto_settlement_enabled, build_repo_bundle, number_or, ops_http_enabled, pool_limits,
    request_limit, room_actor_config, settlement_mode, SettlementMode, StorageBackend,
};
use agent_poker::server::settlement::{
    run_showdown_settlement, run_showdown_settlement_with_direct_payouts_and_alerts,
    run_showdown_settlement_with_persistence, try_auto_settle_showdown_room, AutoSettlementEvent, AutoSettlementOutcome, AutoSettlementStep,
    PayoutEvent, SettledHand, SettlementAction, SettlementAlert, SettlementPayout, SettlementPlan,
    SettlementTransferReceipt, SettlementTransferSubmission, SettlementTxStatus,
};
use agent_poker::server::showdown::{
    parse_showdown_input, pot_awards_from_showdown, showdown_input_from_record,
    showdown_input_to_record, AdminUpsertShowdownInputRequest, AppRoomShowdownInputProvider,
    InMemoryShowdownInputProvider, ShowdownSeatCardsInput,
};
use agent_poker::server::signatures::{
    verify_bind_address, verify_bind_session_keys, verify_game_act, verify_room_ready,
};
use agent_poker::server::wallet::signer_for_room;

fn cards(text: &str) -> Vec<u8> {
    rs_poker::core::FlatHand::new_from_str(text)
        .expect("cards")
        .iter()
        .map(|card| u8::from(*card))
        .collect()
}

fn hole(text: &str) -> [u8; 2] {
    let both = cards(text);
    [both[0], both[1]]
}

// Answers of the chain.

fn callback(status: VerificationStatus, reason: Option<&str>, tx_hash: &str) -> TxVerificationCallback {
    TxVerificationCallback {
        room_id: RoomId::new(),
        hand_id: Some(HandId::new()),
        seat_id: Some(1),
        action_seq: Some(1),
        tx_hash: tx_hash.to_string(),
        status,
        confirmations: 3,
        failure_reason: reason.map(str::to_string),
    }
}

/// Carries out what follows from an answer of the chain.
fn perform(
    actions: Vec<ChainCallbackAction>,
    chain: &mut InMemoryChainTxRepository,
    audit: &mut InMemoryAuditRepository,
) -> (Vec<ChainVerificationAlert>, usize) {
    let mut alerts = Vec::new();
    let mut told = 0;
    for action in actions {
        match action {
            ChainCallbackAction::UpsertVerification(record) => {
                chain.upsert_tx_verification(record).expect("verification")
            }
            ChainCallbackAction::InsertAudit(record) => {
                audit.insert_behavior_event(record).expect("audit")
            }
            ChainCallbackAction::EmitAlert(alert) => alerts.push(alert),
            ChainCallbackAction::UpsertCredit(record) => {
                chain.upsert_exception_credit(record).expect("credit")
            }
            ChainCallbackAction::NotifyRoom(_, _) => told += 1,
        }
    }
    (alerts, told)
}

#[test]
fn callback_sink_persists_verification_and_exception_credit() {
    let mut chain = InMemoryChainTxRepository::new();
    let mut audit = InMemoryAuditRepository::default();
    let mut late = callback(VerificationStatus::Unmatched, Some("value_mismatch"), "0xlate");
    late.hand_id = None;
    let (alerts, _) = perform(on_verification_result(late, true), &mut chain, &mut audit);

    assert_eq!(chain.tx_verifications_len(), 1);
    assert_eq!(chain.exception_credits_len(), 1);
    assert_eq!(alerts.len(), 1);
    assert_eq!(audit.behavior_events.len(), 1);
    assert_eq!(audit.behavior_events[0].event_kind, "chain_tx_verification_callback");
}

#[test]
fn callback_sink_matched_persists_verification_only() {
    let mut chain = InMemoryChainTxRepository::new();
    let mut audit = InMemoryAuditRepository::default();
    let matched = callback(VerificationStatus::Matched, None, "0xok");
    let (_, told) = perform(on_verification_result(matched, true), &mut chain, &mut audit);

    assert_eq!(chain.tx_verifications_len(), 1);
    assert_eq!(chain.exception_credits_len(), 0);
    assert_eq!(audit.behavior_events.len(), 1);
    assert!(told <= 1);
}

#[test]
fn callback_sink_failed_emits_alert_without_exception_credit() {
    let mut chain = InMemoryChainTxRepository::new();
    let mut audit = InMemoryAuditRepository::default();
    let mut failed = callback(VerificationStatus::Failed, Some("tx_failed"), "0xfail");
    failed.confirmations = 0;
    let (alerts, _) = perform(on_verification_result(failed, false), &mut chain, &mut audit);

    assert_eq!(chain.tx_verifications_len(), 1);
    assert_eq!(chain.exception_credits_len(), 0);
    assert_eq!(alerts.len(), 1);
    assert_eq!(alerts[0].status, "failed");
    assert!(audit.behavior_events.is_empty());
}

#[test]
fn unmatched_chain_callback_writes_verification_exception_credit_and_audit() {
    let mut chain = InMemoryChainTxRepository::new();
    let mut audit = InMemoryAuditRepository::default();
    let mut unmatched =
        callback(VerificationStatus::Unmatched, Some("value_mismatch"), "0xunmatched");
    unmatched.hand_id = None;
    unmatched.action_seq = Some(8);
    perform(on_verification_result(unmatched, true), &mut chain, &mut audit);

    assert_eq!(chain.tx_verifications_len(), 1);
    assert_eq!(chain.exception_credits_len(), 1);
    assert_eq!(audit.behavior_events.len(), 1);
    assert_eq!(audit.behavior_events[0].event_kind, "chain_tx_verification_callback");
    assert_eq!(audit.behavior_events[0].event_source, "chain_watcher");
    assert_eq!(audit.behavior_events[0].related_tx_hash.as_deref(), Some("0xunmatched"));
    assert_eq!(audit.behavior_events[0].severity, "error");
}

#[test]
fn only_alerts_may_fail_unnoticed() {
    let actions =
        on_verification_result(callback(VerificationStatus::Late, None, "0xlate"), true);
    for action in &actions {
        let failure = action.failure("down".to_string());
        if matches!(action, ChainCallbackAction::EmitAlert(_)) {
            assert_eq!(failure, None);
        } else {
            assert_eq!(failure, Some(ChainWatcherError::CallbackSink("down".to_string())));
        }
    }
}

// The cards of hands.

fn request(room_id: RoomId, board: &str, seats: &[(u8, &str)]) -> AdminUpsertShowdownInputRequest {
    AdminUpsertShowdownInputRequest {
        room_id: id_text(room_id.0),
        board: board.to_string(),
        revealed_hole_cards: seats
            .iter()
            .map(|(seat_id, cards)| ShowdownSeatCardsInput {
                seat_id: *seat_id,
                cards: cards.to_string(),
            })
            .collect(),
    }
}

#[test]
fn admin_repo_parses_and_writes_showdown_input() {
    let mut provider = AppRoomShowdownInputProvider::new();
    let room_id = RoomId::new();
    let hand_id = HandId::new();

    let payload = request(room_id, "AhKhQhJhTh", &[(0, "2c3d"), (1, "4s5c")]);
    let (read_room, input) = parse_showdown_input(&payload).expect("showdown input");
    assert_eq!(read_room, room_id);
    let record = provider.upsert_showdown_input(room_id, hand_id, input);
    assert_eq!(record.hand_id, hand_id);
    assert_eq!(record.source, "admin_ops_http");

    let got = provider
        .get_showdown_input(room_id, hand_id, &None)
        .expect("provider ok")
        .expect("showdown input");
    assert_eq!(got.board.len(), 5);
    assert_eq!(got.revealed_hole_cards.len(), 2);
    assert_eq!(got.revealed_hole_cards[0].0, 0);
    assert_eq!(got.revealed_hole_cards[1].0, 1);
    assert_eq!(got.board, cards("AhKhQhJhTh"));
}

#[test]
fn admin_repo_rejects_invalid_cards() {
    let payload = request(RoomId::new(), "invalid", &[]);
    let err = parse_showdown_input(&payload).expect_err("invalid board should fail");
    assert!(err.contains("invalid board"));
}

#[test]
fn faults_of_showdowns_are_told() {
    let mut payload = request(RoomId::new(), "AhKhQhJhTh", &[(0, "2c")]);
    let err = parse_showdown_input(&payload).expect_err("one card");
    assert!(err.contains('0'), "{err}");
    payload.room_id = "no room".to_string();
    let err = parse_showdown_input(&payload).expect_err("no room");
    assert!(err.starts_with("invalid room_id: "), "{err}");
}

#[test]
fn admin_repo_persists_showdown_input_for_new_provider_instance() {
    let mut store = InMemorySettlementPersistenceRepository::new();
    let room_id = RoomId::new();
    let hand_id = HandId::new();
    let mut provider = AppRoomShowdownInputProvider::new();
    let (_, input) =
        parse_showdown_input(&request(room_id, "AhKhQhJhTh", &[(0, "2c3d")])).expect("input");
    let record = provider.upsert_showdown_input(room_id, hand_id, input);
    store.upsert_settlement_showdown_input(record).expect("persist showdown input");

    let mut fresh_provider = AppRoomShowdownInputProvider::new();
    let record = store.get_settlement_showdown_input(hand_id).expect("read").expect("record");
    let read = showdown_input_from_record(record).expect("cards");
    assert_eq!(read.board, cards("AhKhQhJhTh"));
    let kept = showdown_input_to_record(room_id, hand_id, &read);
    let got = fresh_provider
        .get_showdown_input(room_id, hand_id, &Some(kept))
        .expect("provider read")
        .expect("showdown input");
    assert_eq!(got.board.len(), 5);
    assert_eq!(got.revealed_hole_cards.len(), 1);
    assert_eq!(got.revealed_hole_cards[0].0, 0);
    assert_eq!(got.revealed_hole_cards[0].1, hole("2c3d"));
}

#[test]
fn records_of_other_rooms_are_passed_over() {
    let (_, input) =
        parse_showdown_input(&request(RoomId(1), "AhKhQhJhTh", &[(0, "2c3d")])).expect("input");
    let record = showdown_input_to_record(RoomId(1), HandId(2), &input);
    let mut provider = AppRoomShowdownInputProvider::new();
    assert!(provider
        .get_showdown_input(RoomId(3), HandId(2), &Some(record))
        .expect("read")
        .is_none());
}

#[test]
fn app_room_provider_falls_back_to_room_service_bound_addresses() {
    let mut rooms = AppRoomService::new();
    let provider = AppRoomShowdownInputProvider::new();
    let room_id = RoomId::new();
    let hand_id = HandId::new();
    rooms.ensure_room(room_id);
    rooms.note_joined(room_id, 0);
    rooms.bind_address(room_id, 0, "cfx:seat0".to_string()).expect("bind");

    let addresses = provider.get_settlement_seat_addresses(&rooms, room_id, hand_id);
    assert_eq!(addresses, vec![(0, "cfx:seat0".to_string())]);

    let mut memory = InMemoryShowdownInputProvider::new();
    memory.upsert_seat_addresses(
        room_id,
        hand_id,
        HashMap::from([(3, "0x3".to_string())]),
    );
    let given = memory.get_settlement_seat_addresses(room_id, hand_id).expect("addresses");
    assert_eq!(given.get(&3).map(String::as_str), Some("0x3"));
}

fn side_pot_state() -> EngineState {
    let mut state = EngineState::new(RoomId::new(), 1);
    state.pot.player_contributions.insert(0, Chips(100));
    state.pot.player_contributions.insert(1, Chips(100));
    state.pot.player_contributions.insert(2, Chips(40));
    state.pot.main_pot = Chips(240);
    state.snapshot.pot_total = Chips(240);
    state.hand.folded_seats.clear();
    state
}

fn side_pot_showdown() -> ShowdownInput {
    ShowdownInput {
        board: cards("AhKhQh2c3d"),
        revealed_hole_cards: vec![
            (0, hole("4c4d")),
            (1, hole("AdAc")),
            (2, hole("JhTh")),
        ],
    }
}

#[test]
fn builds_settlement_plan_from_main_and_side_pots_via_showdown() {
    let engine = PokerEngine::new();
    let state = side_pot_state();
    let awards =
        pot_awards_from_showdown(&engine, &state, &side_pot_showdown()).expect("awards");

    let total: u128 = awards.iter().map(|award| award.amount.0).sum();
    assert_eq!(total, 240);
    assert_eq!(awards.len(), 2);
    assert_eq!(awards[1].winner_seats, vec![1]);
    assert_eq!(awards[1].amount, Chips(120));
    assert_eq!(awards[0].winner_seats, vec![2]);
    assert_eq!(awards[0].amount, Chips(120));
}

#[test]
fn awards_need_layers_and_winners() {
    let engine = PokerEngine::new();
    let mut state = EngineState::new(RoomId::new(), 1);
    state.snapshot.pot_total = Chips(5);
    assert_eq!(
        pot_awards_from_showdown(&engine, &state, &side_pot_showdown()),
        Err("pot_total > 0 but no pot layers derived".to_string())
    );
    let nobody = ShowdownInput { board: cards("AhKhQh2c3d"), revealed_hole_cards: Vec::new() };
    assert_eq!(
        pot_awards_from_showdown(&engine, &side_pot_state(), &nobody),
        Err("unable to evaluate showdown for pot layer".to_string())
    );
}

// The settlement of hands.

fn hand() -> SettledHand {
    SettledHand {
        room_id: RoomId::new(),
        hand_id: HandId::new(),
        settlement_plan_id: 77,
        trace_id: TraceId::new(),
    }
}

fn plan(amounts: &[(u8, u128)]) -> SettlementPlan {
    SettlementPlan {
        rake_amount: Chips(0),
        payouts: amounts
            .iter()
            .map(|(seat_id, amount)| SettlementPayout {
                seat_id: *seat_id,
                amount: Chips(*amount),
            })
            .collect(),
    }
}

/// What the steps of a settlement leave behind.
#[derive(Default)]
struct Traces {
    alerts: Vec<SettlementAlert>,
    audits: Vec<BehaviorEventRecord>,
    completed: Vec<HandId>,
    recorded: usize,
    submitted: usize,
    checked: Vec<u64>,
}

fn carry_out(
    actions: Vec<SettlementAction>,
    repo: &mut InMemorySettlementPersistenceRepository,
    traces: &mut Traces,
) {
    for action in actions {
        match action {
            SettlementAction::InsertPlan(record) => {
                repo.insert_settlement_plan(record).expect("plan")
            }
            SettlementAction::RecordPlan => traces.recorded += 1,
            SettlementAction::SubmitPayouts => traces.submitted += 1,
            SettlementAction::InsertRecord(record) => {
                repo.insert_settlement_record(record).expect("record")
            }
            SettlementAction::CheckReceipts { min_confirmations } => {
                traces.checked.push(min_confirmations)
            }
            SettlementAction::UpdateStatus(update) => {
                repo.update_settlement_record_status_by_tx_hash(&update).expect("status")
            }
            SettlementAction::EmitAudit(event) => traces.audits.push(event),
            SettlementAction::EmitAlert(alert) => traces.alerts.push(alert),
            SettlementAction::CompleteSettlement(hand_id) => traces.completed.push(hand_id),
        }
    }
}

/// What a plan enters into the ledger.
fn payout_entries(hand: &SettledHand, amounts: &[(u8, u128)]) -> Vec<LedgerEntryInsert> {
    amounts
        .iter()
        .map(|(seat_id, amount)| LedgerEntryInsert {
            entry_type: "settlement_payout".to_string(),
            room_id: Some(hand.room_id),
            hand_id: Some(hand.hand_id),
            seat_id: Some(*seat_id),
            agent_id: None,
            asset_type: "CFX".to_string(),
            amount: Chips(*amount),
            direction: LedgerDirection::Credit,
            account_scope: "seat".to_string(),
            related_tx_hash: None,
            related_event_id: None,
            related_attempt_id: None,
            remark: None,
            trace_id: hand.trace_id,
        })
        .collect()
}

/// Pays two seats, the second of which may fail.
fn pay_directly(
    hand: &SettledHand,
    second: SettlementTxStatus,
) -> (InMemorySettlementPersistenceRepository, Traces) {
    let mut repo = InMemorySettlementPersistenceRepository::new();
    let mut traces = Traces::default();
    let submission = |seat_id, tx_hash: &str| SettlementTransferSubmission {
        seat_id,
        tx_hash: tx_hash.to_string(),
    };
    let receipt = |tx_hash: &str, status| SettlementTransferReceipt {
        tx_hash: tx_hash.to_string(),
        status,
        confirmations: 6,
    };
    for event in [
        PayoutEvent::Planned {
            plan: plan(&[(0, 10), (1, 10)]),
            payload: Json::Object(Vec::new()),
        },
        PayoutEvent::Submitted {
            submissions: vec![submission(0, "0x00"), submission(1, "0x01")],
            min_confirmations: 1,
        },
        PayoutEvent::ReceiptsChecked(vec![
            receipt("0x00", SettlementTxStatus::Confirmed),
            receipt("0x01", second),
        ]),
    ] {
        let actions = run_showdown_settlement_with_direct_payouts_and_alerts(hand, event)
            .expect("steps");
        carry_out(actions, &mut repo, &mut traces);
    }
    (repo, traces)
}

#[test]
fn orchestrates_showdown_plan_record_and_room_close() {
    let hand = hand();
    let mut repo = InMemorySettlementPersistenceRepository::new();
    let mut traces = Traces::default();
    carry_out(run_showdown_settlement(&hand), &mut repo, &mut traces);
    assert_eq!(traces.recorded, 1);
    assert_eq!(traces.completed, vec![hand.hand_id]);
    assert_eq!(repo.settlement_plans_len(), 0);
}

#[test]
fn orchestrates_showdown_with_settlement_persistence() {
    let hand = hand();
    let mut repo = InMemorySettlementPersistenceRepository::new();
    let mut traces = Traces::default();
    let actions = run_showdown_settlement_with_persistence(
        &hand,
        &plan(&[(0, 10), (1, 10)]),
        Json::Object(Vec::new()),
    )
    .expect("steps");
    carry_out(actions, &mut repo, &mut traces);

    assert_eq!(repo.settlement_plans_len(), 1);
    assert_eq!(repo.settlement_records_len(), 1);
    assert_eq!(traces.recorded, 1);
    assert_eq!(traces.completed, vec![hand.hand_id]);
    let records = repo.settlement_records_snapshot();
    assert_eq!(records[0].settlement_status, "planned_offchain_recorded");
    let kept = repo.get_settlement_plan(77).expect("read").expect("plan");
    assert_eq!(kept.payout_total, Chips(20));
}

#[test]
fn orchestrates_direct_payouts_and_closes_when_confirmed() {
    let hand = hand();
    let (repo, traces) = pay_directly(&hand, SettlementTxStatus::Confirmed);
    assert_eq!(repo.settlement_plans_len(), 1);
    assert_eq!(repo.settlement_records_len(), 2);
    assert_eq!(traces.submitted, 1);
    assert_eq!(traces.checked, vec![1]);
    assert_eq!(traces.completed, vec![hand.hand_id]);
    assert!(traces.alerts.is_empty());
}

#[test]
fn direct_payouts_failed_receipt_does_not_close_hand_and_updates_record_status() {
    let (repo, traces) = pay_directly(&hand(), SettlementTxStatus::Failed);
    assert!(traces.completed.is_empty(), "hand should remain open on failed payout");
    let records = repo.settlement_records_snapshot();
    assert!(records.iter().any(|r| {
        r.settlement_status == "manual_review_required"
            && r.error_detail.as_deref().is_some_and(|d| d.contains("manual review required"))
    }));
    assert!(records.iter().any(|r| r.retry_count >= 1));
}

#[test]
fn direct_payout_failures_emit_settlement_alerts() {
    let (_, traces) = pay_directly(&hand(), SettlementTxStatus::Failed);
    assert_eq!(traces.alerts.len(), 1);
    assert_eq!(traces.alerts[0].kind, "settlement_manual_review_required");
}

#[test]
fn direct_payout_flow_emits_settlement_behavior_audits() {
    let (_, traces) = pay_directly(&hand(), SettlementTxStatus::Failed);
    for kind in [
        "settlement_payout_submitted",
        "settlement_payout_receipt",
        "settlement_manual_review_required",
    ] {
        assert!(traces.audits.iter().any(|e| e.event_kind == kind), "{kind}");
    }
}

#[test]
fn direct_payout_failure_persists_manual_review_and_audit_behavior_chain() {
    let hand = hand();
    let (repo, traces) = pay_directly(&hand, SettlementTxStatus::Failed);
    let mut ledger = InMemoryLedgerRepository::new();
    for _ in 0..traces.recorded {
        ledger.insert_entries(&payout_entries(&hand, &[(0, 10), (1, 10)])).expect("entries");
    }
    let mut audit = InMemoryAuditRepository::default();
    for event in traces.audits {
        audit.insert_behavior_event(event).expect("audit");
    }
    let records = repo.settlement_records_snapshot();
    assert!(!records.is_empty());
    assert!(records.iter().any(|r| r.settlement_status == "manual_review_required"));
    assert!(records.iter().any(|r| r.retry_count >= 1));
    for kind in [
        "settlement_payout_submitted",
        "settlement_payout_receipt",
        "settlement_manual_review_required",
    ] {
        assert!(audit.behavior_events.iter().any(|e| e.event_kind == kind), "{kind}");
    }
    assert!(ledger.entries_snapshot().iter().any(|e| e.entry_type == "settlement_payout"));
}

#[test]
fn pending_payments_keep_the_hand_open() {
    let (repo, traces) = pay_directly(&hand(), SettlementTxStatus::Pending);
    assert!(traces.completed.is_empty());
    assert!(traces.alerts.is_empty());
    assert!(repo
        .settlement_records_snapshot()
        .iter()
        .any(|r| r.settlement_status == "pending"));
}

#[test]
fn plans_that_pay_too_much_are_refused() {
    let huge = plan(&[(0, u128::MAX), (1, 1)]);
    assert!(huge.payout_total().is_err());
    assert_eq!(
        run_showdown_settlement_with_persistence(&hand(), &huge, Json::Null),
        Err("settlement payout_total failed: amount overflow".to_string())
    );
    assert_eq!(plan(&[(0, 3), (1, 4)]).payout_total(), Ok(Chips(7)));
}

#[test]
fn forwards_behavior_event_to_audit_repo() {
    let mut repo = InMemoryAuditRepository::default();
    repo.insert_behavior_event(BehaviorEventRecord {
        behavior_event_id: "evt1".to_string(),
        event_kind: "settlement_payout_submitted".to_string(),
        event_source: "settlement_orchestrator".to_string(),
        room_id: Some(RoomId::new()),
        hand_id: None,
        seat_id: Some(1),
        action_seq: None,
        related_attempt_id: None,
        related_tx_hash: Some("0xtx".to_string()),
        severity: "info".to_string(),
        payload_json: Json::Object(Vec::new()),
        occurred_at: Timestamp::now(),
        trace_id: TraceId::new(),
    })
    .expect("emit");
    assert_eq!(repo.behavior_events.len(), 1);
    assert_eq!(repo.behavior_events[0].event_kind, "settlement_payout_submitted");
}

fn snapshot(status: HandStatus) -> HandSnapshot {
    HandSnapshot {
        room_id: RoomId(1),
        hand_id: HandId(2),
        hand_no: 3,
        status,
        street: Street::River,
        acting_seat_id: Some(4),
        next_action_seq: 5,
        pot_total: Chips(20),
    }
}

#[test]
fn returns_waiting_when_not_showdown_or_missing_inputs() {
    let step = |event| try_auto_settle_showdown_room(event);
    assert_eq!(
        step(AutoSettlementEvent::StateRead(None)),
        AutoSettlementStep::Stop(AutoSettlementOutcome::NoActiveHand)
    );
    assert_eq!(
        step(AutoSettlementEvent::StateRead(Some(snapshot(HandStatus::Running)))),
        AutoSettlementStep::Stop(AutoSettlementOutcome::NotShowdown)
    );
    assert_eq!(
        step(AutoSettlementEvent::ShowdownInputRead { hand_id: HandId(2), found: false }),
        AutoSettlementStep::Stop(AutoSettlementOutcome::WaitingForShowdownInput)
    );
    assert_eq!(
        step(AutoSettlementEvent::SeatAddressesRead { hand_id: HandId(2), count: 0 }),
        AutoSettlementStep::Stop(AutoSettlementOutcome::WaitingForSeatAddresses)
    );
}

#[test]
fn settles_showdown_when_provider_has_inputs() {
    let step = |event| try_auto_settle_showdown_room(event);
    assert_eq!(
        step(AutoSettlementEvent::StateRead(Some(snapshot(HandStatus::Showdown)))),
        AutoSettlementStep::AskShowdownInput(HandId(2))
    );
    assert_eq!(
        step(AutoSettlementEvent::ShowdownInputRead { hand_id: HandId(2), found: true }),
        AutoSettlementStep::AskSeatAddresses(HandId(2))
    );
    assert_eq!(
        step(AutoSettlementEvent::SeatAddressesRead { hand_id: HandId(2), count: 2 }),
        AutoSettlementStep::Settle(HandId(2))
    );
    let mut state = EngineState::new(RoomId::new(), 1);
    state.snapshot.pot_total = Chips(20);
    state.pot.main_pot = Chips(20);
    state.pot.player_contributions.insert(0, Chips(10));
    state.pot.player_contributions.insert(1, Chips(10));
    let showdown = ShowdownInput {
        board: cards("AhKhQhJhTh"),
        revealed_hole_cards: vec![(0, hole("2c3d")), (1, hole("4s5c"))],
    };
    let awards =
        pot_awards_from_showdown(&PokerEngine::new(), &state, &showdown).expect("awards");
    assert_eq!(awards[0].winner_seats, vec![0, 1]);
    let hand = hand();
    let (repo, traces) = pay_directly(&hand, SettlementTxStatus::Confirmed);
    assert_eq!(repo.settlement_plans_len(), 1);
    assert_eq!(traces.completed, vec![hand.hand_id]);
    assert_eq!(
        step(AutoSettlementEvent::HandSettled),
        AutoSettlementStep::Stop(AutoSettlementOutcome::Settled)
    );
}

#[test]
fn auto_settlement_accepts_showdown_input_from_admin_repo_and_uses_bound_addresses() {
    let room_id = RoomId::new();
    let hand_id = HandId::new();
    let mut rooms = AppRoomService::new();
    let mut provider = AppRoomShowdownInputProvider::new();
    rooms.ensure_room(room_id);
    for (seat_id, seat_address) in [(0, "cfx:seat0"), (1, "cfx:seat1")] {
        rooms.note_joined(room_id, seat_id);
        rooms.bind_address(room_id, seat_id, seat_address.to_string()).expect("bind address");
    }
    let payload = request(room_id, "AhKhQhJhTh", &[(0, "2c3d"), (1, "4s5c")]);
    let (_, input) = parse_showdown_input(&payload).expect("admin showdown upsert");
    provider.upsert_showdown_input(room_id, hand_id, input);

    let found = provider.get_showdown_input(room_id, hand_id, &None).expect("read").is_some();
    assert_eq!(
        try_auto_settle_showdown_room(AutoSettlementEvent::ShowdownInputRead { hand_id, found }),
        AutoSettlementStep::AskSeatAddresses(hand_id)
    );
    let count = provider.get_settlement_seat_addresses(&rooms, room_id, hand_id).len();
    assert_eq!(count, 2);
    assert_eq!(
        try_auto_settle_showdown_room(AutoSettlementEvent::SeatAddressesRead { hand_id, count }),
        AutoSettlementStep::Settle(hand_id)
    );
}

// Rooms.

fn signed_meta() -> SignedRequestMeta {
    SignedRequestMeta {
        request_id: RequestId::new(),
        request_nonce: "n1".to_string(),
        request_ts: Timestamp::now(),
        request_expiry_ms: 30_000,
        signature_pubkey_id: "k1".to_string(),
        signature: "sig".to_string(),
    }
}

fn act_request(room_id: RoomId, hand_id: HandId, tx_hash: Option<&str>) -> GameActRequest {
    GameActRequest {
        room_id,
        hand_id,
        action_seq: 1,
        seat_id: 0,
        action_type: "check".to_string(),
        amount: None,
        tx_hash: tx_hash.map(str::to_string),
        request_meta: signed_meta(),
    }
}

fn check(room_id: RoomId, hand_id: HandId) -> PlayerAction {
    PlayerAction {
        room_id,
        hand_id,
        action_seq: 1,
        seat_id: 0,
        action_type: ActionType::Check,
        amount: None,
    }
}

#[test]
fn act_with_tx_hash_records_tx_binding() {
    let mut repo = InMemoryChainTxRepository::new();
    let (room_id, hand_id) = (RoomId::new(), HandId::new());
    let request = act_request(room_id, hand_id, Some("0xtx-binding"));
    match act_step(&request, check(room_id, hand_id)) {
        ActStep::BindAndQueue { binding, action } => {
            assert_eq!(action, check(room_id, hand_id));
            repo.insert_tx_binding(binding).expect("act");
        }
        ActStep::Act(_) => panic!("a payment is named"),
    }
    assert_eq!(repo.tx_bindings_len(), 1);
    let request = act_request(room_id, hand_id, None);
    assert_eq!(
        act_step(&request, check(room_id, hand_id)),
        ActStep::Act(check(room_id, hand_id))
    );
}

#[test]
fn act_with_duplicate_hand_action_binding_is_rejected() {
    let mut repo = InMemoryChainTxRepository::new();
    let (room_id, hand_id) = (RoomId::new(), HandId::new());
    let mut bind = |tx_hash: &str| {
        let request = act_request(room_id, hand_id, Some(tx_hash));
        match act_step(&request, check(room_id, hand_id)) {
            ActStep::BindAndQueue { binding, .. } => repo.insert_tx_binding(binding),
            ActStep::Act(_) => panic!("a payment is named"),
        }
    };
    bind("0xtx1").expect("first act");
    let err = bind("0xtx2").expect_err("duplicate binding");
    assert_eq!(err, LedgerStoreError::DuplicateTxBinding);
    assert!(err.message().contains("duplicate tx binding"));
    assert_eq!(repo.tx_bindings_len(), 1);
}

#[test]
fn rooms_are_opened_and_listed() {
    let mut rooms = AppRoomService::new();
    let summary = rooms.create_room(None);
    assert_eq!(summary.status, "active");
    assert_eq!(rooms.room_ids(), vec![summary.room_id]);
    assert_eq!(rooms.room_chain_address(summary.room_id), summary.chain_address);
    let signer = rooms.room_chain_signer(summary.room_id).expect("account");
    let key: Vec<u8> = (0..32)
        .map(|i| u8::from_str_radix(&signer.private_key_hex[2 * i..2 * i + 2], 16).expect("hex"))
        .collect();
    let key = EvmSigningKey::from_slice(&key).expect("key");
    assert_eq!(
        evm_address_from_secp256k1_verifying_key(&key.verifying_key()),
        signer.address
    );
    assert!(!rooms.ensure_room(summary.room_id));
    assert_eq!(rooms.list_rooms().len(), 1);
    assert_eq!(rooms.get_room(RoomId(1)), Err(RoomServiceError::RoomNotFound));
}

#[test]
fn every_open_room_keeps_its_own_account() {
    let mut rooms = AppRoomService::new();
    let first = rooms.create_room(None);
    let key = rooms.room_chain_signer(first.room_id).expect("account").private_key_hex;
    let second = rooms.create_room(Some(RoomId(9)));
    rooms.note_joined(RoomId(9), 1);
    rooms.bind_address(RoomId(9), 1, "0x1".to_string()).expect("bind");
    assert_eq!(rooms.create_room(Some(first.room_id)), first);
    assert_eq!(
        rooms.room_chain_signer(first.room_id).expect("account").private_key_hex,
        key
    );
    assert_ne!(second.chain_address, first.chain_address);
    assert_eq!(rooms.list_rooms(), vec![first, second]);
    for room in rooms.list_rooms() {
        assert!(room.chain_address.is_some());
        let account = rooms.room_chain_signer(room.room_id);
        assert!(signer_for_room(room.room_id, &account).is_ok());
    }
    assert_eq!(rooms.room_chain_address(RoomId(1)), None);
}

#[test]
fn seats_join_before_they_bind() {
    let mut rooms = AppRoomService::new();
    let room_id = RoomId::new();
    rooms.ensure_room(room_id);
    assert_eq!(
        rooms.bind_address(room_id, 2, "0x2".to_string()),
        Err(RoomServiceError::Upstream(
            "seat 2 must call room.join before bind/ready".to_string()
        ))
    );
    assert_eq!(rooms.bound_seat_address(room_id, 2), None);
    rooms.note_joined(room_id, 2);
    assert_eq!(rooms.check_seat(room_id, 2), Ok(()));
    rooms.bind_address(room_id, 2, "0x2".to_string()).expect("bind");
    rooms.bind_address(room_id, 2, "0x3".to_string()).expect("bind again");
    assert_eq!(rooms.bound_seat_address(room_id, 2).as_deref(), Some("0x3"));
    assert_eq!(rooms.bound_seat_addresses(room_id), vec![(2, "0x3".to_string())]);
}

#[test]
fn rows_of_new_rooms_hold_the_stakes() {
    let row = room_row(RoomId(1), None);
    assert_eq!(row.dealer_address, "unknown");
    assert_eq!(row.room_status, "active");
    assert_eq!(row.big_blind, "200000000000000");
    assert_eq!(row.rake_bps, 300);
}

// Signatures.

fn params(members: Vec<(&str, Json)>) -> Json {
    Json::Object(members.into_iter().map(|(key, value)| (key.to_string(), value)).collect())
}

fn text(value: &str) -> Json {
    Json::Text(value.to_string())
}

fn seat(seat_id: u8) -> Json {
    Json::Number(JsonNumber::Unsigned(u64::from(seat_id)))
}

fn sign(
    key: &EvmSigningKey,
    method: &str,
    room_id: RoomId,
    hand: Option<(HandId, u32)>,
    params: &Json,
    meta: &mut SignedRequestMeta,
) {
    let message = build_signing_message(&SigningMessageInput {
        method,
        session_id: SessionId::nil(),
        room_id: Some(room_id),
        hand_id: hand.map(|(hand_id, _)| id_text(hand_id.0)),
        action_seq: hand.map(|(_, action_seq)| action_seq),
        params,
        meta,
    })
    .expect("build signing message");
    meta.signature =
        sign_evm_personal_message_secp256k1(key, message.as_bytes()).expect("sign");
}

fn address_of(key: &EvmSigningKey) -> String {
    evm_address_from_secp256k1_verifying_key(&key.verifying_key())
}

fn signed_bind_address_request(room_id: RoomId, key: &EvmSigningKey) -> RoomBindAddressRequest {
    let seat_address = address_of(key);
    let mut request_meta = signed_meta();
    let signed = params(vec![("seat_address", text(&seat_address)), ("seat_id", seat(0))]);
    sign(key, "room.bind_address", room_id, None, &signed, &mut request_meta);
    RoomBindAddressRequest { room_id, seat_id: 0, seat_address, request_meta }
}

fn signed_room_ready_request(room_id: RoomId, key: &EvmSigningKey) -> RoomReadyRequest {
    let mut request_meta = signed_meta();
    let signed = params(vec![("seat_id", seat(0))]);
    sign(key, "room.ready", room_id, None, &signed, &mut request_meta);
    RoomReadyRequest { room_id, seat_id: 0, request_meta }
}

fn signed_bind_session_keys_request(
    room_id: RoomId,
    key: &EvmSigningKey,
) -> RoomBindSessionKeysRequest {
    let seat_address = address_of(key);
    let mut request_meta = signed_meta();
    let claim = SeatKeyBindingClaim {
        agent_id: None,
        session_id: None,
        room_id,
        seat_id: 0,
        seat_address: seat_address.clone(),
        card_encrypt_pubkey: "11".repeat(32),
        request_verify_pubkey: "22".repeat(32),
        key_algo: "x25519+evm".to_string(),
        issued_at: request_meta.request_ts,
        expires_at: None,
    };
    let proof_signature = sign_evm_personal_message_secp256k1(
        key,
        build_seat_key_binding_message(&claim).as_bytes(),
    )
    .expect("proof sign");
    let signed = params(vec![
        ("proof_signature", text(&proof_signature)),
        ("seat_id", seat(0)),
        ("seat_address", text(&seat_address)),
        ("card_encrypt_pubkey", text(&claim.card_encrypt_pubkey)),
        ("request_verify_pubkey", text(&claim.request_verify_pubkey)),
        ("key_algo", text(&claim.key_algo)),
    ]);
    sign(key, "room.bind_session_keys", room_id, None, &signed, &mut request_meta);
    RoomBindSessionKeysRequest {
        room_id,
        seat_id: 0,
        seat_address,
        card_encrypt_pubkey: claim.card_encrypt_pubkey,
        request_verify_pubkey: claim.request_verify_pubkey,
        key_algo: claim.key_algo,
        proof_signature,
        request_meta,
    }
}

fn signed_game_act_request(room_id: RoomId, hand_id: HandId, key: &EvmSigningKey) -> GameActRequest {
    let mut request = act_request(room_id, hand_id, None);
    let signed = params(vec![
        ("seat_id", seat(0)),
        ("action_type", text("check")),
        ("amount", Json::Null),
        ("tx_hash", Json::Null),
    ]);
    sign(key, "game.act", room_id, Some((hand_id, 1)), &signed, &mut request.request_meta);
    request
}

#[test]
fn bind_address_with_valid_evm_signature_is_accepted_via_gateway_verifier() {
    let key = EvmSigningKey::from_slice(&[21_u8; 32]).expect("evm key");
    let request = signed_bind_address_request(RoomId::new(), &key);
    assert_eq!(verify_bind_address(&request), Ok(()));
}

#[test]
fn bind_address_with_invalid_evm_signature_is_rejected_via_gateway_verifier() {
    let key = EvmSigningKey::from_slice(&[22_u8; 32]).expect("evm key");
    let mut request = signed_bind_address_request(RoomId::new(), &key);
    request.request_meta.signature = "0xdeadbeef".to_string();
    assert_eq!(
        verify_bind_address(&request),
        Err("invalid ethereum signature".to_string())
    );
}

#[test]
fn room_ready_with_valid_evm_signature_is_accepted_via_gateway_verifier() {
    let key = EvmSigningKey::from_slice(&[23_u8; 32]).expect("evm key");
    let room_id = RoomId::new();
    let mut rooms = AppRoomService::new();
    rooms.ensure_room(room_id);
    rooms.note_joined(room_id, 0);
    let bind = signed_bind_address_request(room_id, &key);
    assert_eq!(verify_bind_address(&bind), Ok(()));
    rooms.bind_address(room_id, 0, bind.seat_address).expect("bind");
    let request = signed_room_ready_request(room_id, &key);
    assert_eq!(verify_room_ready(&request, &rooms.bound_seat_address(room_id, 0)), Ok(()));
}

#[test]
fn room_ready_with_invalid_evm_signature_is_rejected_via_gateway_verifier() {
    let key = EvmSigningKey::from_slice(&[25_u8; 32]).expect("evm key");
    let mut request = signed_room_ready_request(RoomId::new(), &key);
    request.request_meta.signature = "0xdeadbeef".to_string();
    assert!(verify_room_ready(&request, &Some(address_of(&key))).is_err());
}

#[test]
fn bind_session_keys_with_valid_evm_signature_is_accepted_via_gateway_verifier() {
    let key = EvmSigningKey::from_slice(&[27_u8; 32]).expect("evm key");
    let request = signed_bind_session_keys_request(RoomId::new(), &key);
    assert_eq!(verify_bind_session_keys(&request), Ok(()));
}

#[test]
fn bind_session_keys_with_invalid_evm_signature_is_rejected_via_gateway_verifier() {
    let key = EvmSigningKey::from_slice(&[28_u8; 32]).expect("evm key");
    let mut request = signed_bind_session_keys_request(RoomId::new(), &key);
    request.request_meta.signature = "0xdeadbeef".to_string();
    assert!(verify_bind_session_keys(&request).is_err());
}

#[test]
fn game_act_with_valid_evm_signature_is_accepted_via_gateway_verifier() {
    let key = EvmSigningKey::from_slice(&[24_u8; 32]).expect("evm key");
    let (room_id, hand_id) = (RoomId::new(), HandId::new());
    let request = signed_game_act_request(room_id, hand_id, &key);
    assert_eq!(verify_game_act(&request, &Some(address_of(&key))), Ok(()));
    assert_eq!(
        verify_game_act(&request, &None),
        Err("missing bound seat address".to_string())
    );
}

#[test]
fn game_act_with_invalid_evm_signature_is_rejected_via_gateway_verifier() {
    let key = EvmSigningKey::from_slice(&[26_u8; 32]).expect("evm key");
    let mut request = signed_game_act_request(RoomId::new(), HandId::new(), &key);
    request.request_meta.signature = "0xdeadbeef".to_string();
    assert!(verify_game_act(&request, &Some(address_of(&key))).is_err());
}

// What is written down.

fn started(room_id: RoomId, hand_id: HandId) -> HandEvent {
    HandEvent {
        room_id,
        hand_id,
        event_seq: 1,
        trace_id: TraceId::new(),
        occurred_at: Timestamp::now(),
        kind: HandEventKind::HandStarted,
    }
}

#[test]
fn append_hand_events_writes_hand_events_and_outbox() {
    let mut repo = InMemoryAuditRepository::default();
    let room_id = RoomId::new();
    let events = vec![started(room_id, HandId::new())];
    repo.append_hand_events(&events).expect("sink append");
    for record in append_hand_events(&events) {
        assert_eq!(record.topic, "hand.events");
        assert_eq!(record.partition_key, id_text(room_id.0));
        assert_eq!(record.status, "pending");
        repo.insert_outbox_event(record).expect("outbox");
    }
    assert_eq!(repo.hand_events.len(), 1);
    assert_eq!(repo.outbox_events.len(), 1);
}

#[test]
fn behavior_in_rooms_is_recorded() {
    let event = RoomBehaviorEvent {
        room_id: RoomId(1),
        trace_id: TraceId(2),
        kind: AuditBehaviorEventKind::TurnTimeoutAutoFold { seat_id: 3, action_seq: 4 },
    };
    let record = record_behavior_event(&event);
    assert_eq!(record.event_kind, "turn_timeout_auto_fold");
    assert_eq!(record.event_source, "table_service");
    assert_eq!(record.seat_id, Some(3));
    assert_eq!(record.action_seq, Some(4));
    assert_eq!(record.trace_id, TraceId(2));
}

#[test]
fn snapshots_become_rows() {
    let row = upsert_hand_snapshot_row(&snapshot(HandStatus::Settled));
    assert_eq!(row.hand_status, "Settled");
    assert_eq!(row.street, "River");
    assert_eq!(row.acting_seat_id, Some(4));
    assert_eq!(row.action_seq_next, 5);
    assert_eq!(row.pot_total, "20");
    assert!(row.is_over);
    assert!(!upsert_hand_snapshot_row(&snapshot(HandStatus::Running)).is_over);
}

fn rejected(reason: RequestRejectReason, request_id: Option<RequestId>) -> RequestRejectAuditEvent {
    RequestRejectAuditEvent {
        method: "game.act".to_string(),
        reason,
        trace_id: TraceId::new(),
        request_id,
        request_nonce: Some("n-1".to_string()),
        room_id: Some(RoomId::new()),
        hand_id: Some(HandId::new()),
        seat_id: Some(2),
        action_seq: Some(1),
        detail: Some("expired".to_string()),
    }
}

#[test]
fn writes_rpc_reject_event_to_behavior_audit() {
    let mut repo = InMemoryAuditRepository::default();
    let req_id = RequestId::new();
    let event = rejected(RequestRejectReason::RequestExpiredOrInvalidWindow, Some(req_id));
    repo.insert_behavior_event(on_request_rejected(&event)).expect("write");

    let events = &repo.behavior_events;
    assert_eq!(events.len(), 1);
    assert_eq!(events[0].event_source, "rpc_gateway");
    assert_eq!(events[0].event_kind, "request_rejected");
    assert_eq!(events[0].related_attempt_id, Some(id_text(req_id.0)));
}

#[test]
fn maps_replay_rejection_to_replay_event_kind() {
    let record = on_request_rejected(&rejected(RequestRejectReason::ReplayRejected, None));
    assert_eq!(record.event_kind, "request_rejected_replay");
    assert_eq!(record.event_source, "rpc_gateway");
    assert_eq!(record.related_attempt_id, None);
}

#[test]
fn writes_seat_crypto_delivery_audit_event() {
    let mut repo = InMemoryAuditRepository::default();
    let record = on_hole_cards_encrypted(&HoleCardsDeliveryAuditEvent {
        room_id: RoomId::new(),
        hand_id: HandId::new(),
        seat_id: 2,
        event_seq: 7,
        key_id: "seat-k1".to_string(),
        algorithm: "x25519+hkdf-sha256+chacha20poly1305".to_string(),
        ciphertext_len: 128,
    });
    repo.insert_behavior_event(record).expect("write");

    let events = &repo.behavior_events;
    assert_eq!(events.len(), 1);
    assert_eq!(events[0].event_kind, "hole_cards_encrypted_delivery");
    assert_eq!(events[0].event_source, "seat_crypto");
    assert_eq!(events[0].seat_id, Some(2));
}

fn pending(id: &str, parsed: OutboxPayload) -> PendingEvent {
    PendingEvent {
        outbox_event_id: id.to_string(),
        payload_json: Json::Object(Vec::new()),
        parsed,
    }
}

fn outbox_record(id: &str, topic: &str) -> OutboxEventRecord {
    OutboxEventRecord {
        outbox_event_id: id.to_string(),
        topic: topic.to_string(),
        partition_key: "p".to_string(),
        payload_json: Json::Object(Vec::new()),
        status: "pending".to_string(),
        attempts: 0,
        available_at: Timestamp::now(),
        delivered_at: None,
        created_at: Timestamp::now(),
    }
}

#[test]
fn publishes_hand_events_from_outbox_to_event_bus() {
    let mut repo = InMemoryAuditRepository::default();
    let (room_id, hand_id) = (RoomId::new(), HandId::new());
    repo.insert_outbox_event(outbox_record("evt1", "hand.events")).expect("insert");
    assert_eq!(outbox_topic("hand.events"), OutboxTopic::Hand);
    let event = HandEvent {
        kind: HandEventKind::ActionAccepted(PlayerAction {
            room_id,
            hand_id,
            action_seq: 1,
            seat_id: 1,
            action_type: ActionType::Call,
            amount: Some(Chips(50)),
        }),
        ..started(room_id, hand_id)
    };
    let mut published = Vec::new();
    let mut count = None;
    for action in publish_pending_outbox_once(vec![pending("evt1", OutboxPayload::Hand(event))]) {
        match action {
            OutboxAction::Publish(envelope) => published.push(envelope),
            OutboxAction::MarkDelivered(id) => {
                repo.mark_outbox_event_delivered(&id, Timestamp::now()).expect("mark")
            }
            OutboxAction::Stop(error) => panic!("{error}"),
            OutboxAction::Finish(sent) => count = Some(sent),
        }
    }
    assert_eq!(count, Some(1));
    assert_eq!(published.len(), 1);
    assert_eq!(published[0].topic, EventTopic::HandEvents);
    assert_eq!(published[0].hand_id, Some(hand_id));
    assert_eq!(published[0].event_name, "action_accepted");
    assert!(repo.fetch_pending_outbox_events(10).expect("fetch").is_empty());
}

#[test]
fn publishes_seat_private_events_from_outbox_to_event_bus() {
    let event = || SeatPrivateEvent {
        room_id: RoomId(1),
        hand_id: HandId(2),
        seat_id: 1,
        event_name: "hole_cards_dealt".to_string(),
        payload: params(vec![("ciphertext_b64", text("abc"))]),
    };
    assert_eq!(outbox_topic("seat.events"), OutboxTopic::Seat);
    let records = append_private_events(&vec![event()]);
    assert_eq!(records[0].topic, "seat.events");
    assert_eq!(
        records[0].partition_key,
        "00000000-0000-0000-0000-000000000001:1"
    );
    let envelope = to_event_envelope(OutboxPayload::Seat(event()), Json::Null)
        .expect("envelope")
        .expect("some");
    assert_eq!(envelope.topic, EventTopic::SeatEvents);
    assert_eq!(envelope.seat_id, Some(1));
    let actions =
        publish_pending_outbox_once(vec![pending("seat-evt1", OutboxPayload::Seat(event()))]);
    assert_eq!(actions.len(), 3);
    assert_eq!(actions[2], OutboxAction::Finish(1));
    assert_eq!(publish_pending_outbox_once(Vec::new()), vec![OutboxAction::Finish(0)]);
}

#[test]
fn outbox_publisher_loop_drains_events_until_shutdown() {
    let actions = publish_pending_outbox_once(vec![
        pending("a", OutboxPayload::Hand(started(RoomId(1), HandId(2)))),
        pending("b", OutboxPayload::Other),
        pending("c", OutboxPayload::Unreadable("broken".to_string())),
        pending("d", OutboxPayload::Hand(started(RoomId(1), HandId(2)))),
    ]);
    assert_eq!(actions.len(), 3);
    assert!(matches!(actions[0], OutboxAction::Publish(_)));
    assert_eq!(actions[1], OutboxAction::MarkDelivered("a".to_string()));
    assert_eq!(actions[2], OutboxAction::Stop("broken".to_string()));
    assert_eq!(outbox_topic("other"), OutboxTopic::Other);
}

// What the environment says.

fn said(value: &str) -> Option<String> {
    Some(value.to_string())
}

#[test]
fn switches_are_read() {
    assert!(ops_http_enabled(&None));
    assert!(!ops_http_enabled(&said("false")));
    assert!(!auto_settlement_enabled(&None));
    assert!(auto_settlement_enabled(&said("true")));
}

#[test]
fn limits_are_read() {
    assert_eq!(number_or(&said("7"), 100, 5), 7);
    assert_eq!(number_or(&said("x"), 100, 5), 5);
    let limits = pool_limits(&None, &None, &None);
    assert_eq!(limits.max_connections, 20);
    assert_eq!(limits.min_connections, 2);
    assert_eq!(limits.acquire_timeout_ms, 10_000);
    let limits = pool_limits(&said("3"), &said("9"), &said("1"));
    assert_eq!(limits.min_connections, 3);
    assert_eq!(request_limit(&None, 64), 64);
    let config = room_actor_config(said(" "), &said("0"));
    assert_eq!(config.chain_verify_rpc_endpoint, None);
    assert_eq!(config.chain_verify_min_confirmations, 1);
}

#[test]
fn modes_are_chosen() {
    assert_eq!(settlement_mode(&None, &None, &None), SettlementMode::Disabled);
    assert_eq!(
        settlement_mode(&said("http://n"), &said("0x1"), &None),
        SettlementMode::Direct
    );
    assert_eq!(
        settlement_mode(&said("http://n"), &said("0x1"), &said("0x2")),
        SettlementMode::Batch
    );
    assert_eq!(build_repo_bundle(None, &None, &None, &None), StorageBackend::Memory);
    let backend = build_repo_bundle(said("postgres://x"), &None, &None, &None);
    assert!(matches!(backend, StorageBackend::Postgres { url, .. } if url == "postgres://x"));
}
