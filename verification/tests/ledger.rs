use agent_poker::domain::{AgentId, Chips, HandId, RoomId, Timestamp, TraceId};
use agent_poker::json::Json;
use agent_poker::ledger::{
    binding_error, chips_to_decimal_string, parse_numeric_to_chips, ChainTxReadRepository,
    ChainTxRepository, ExceptionCreditRecord, ExceptionCreditUpsert, InMemoryChainTxRepository,
    InMemoryLedgerRepository, InMemorySettlementPersistenceRepository, LedgerDirection,
    LedgerEntryInsert, LedgerRepository, LedgerStoreError, NoopChainTxRepository,
    NoopLedgerRepository, RoomSigningKeyReadRepository, RoomSigningKeyRecord,
    SettlementPersistenceReadRepository, SettlementPersistenceRepository,
    SettlementPlanRecordInsert, SettlementRecordInsert, SettlementRecordStatusUpdate,
    TxBindingInsert, TxBindingRecord, TxVerificationRecord, TxVerificationUpsert,
};
use agent_poker::paging::PageRequest;

fn fresh() -> u128 {
    uuid::Uuid::now_v7().as_u128()
}

fn moment(seconds: i64) -> Timestamp {
    Timestamp::new(seconds, 0).expect("moment")
}

fn verification(room_id: RoomId, tx_hash: &str) -> TxVerificationUpsert {
    TxVerificationUpsert {
        tx_hash: tx_hash.to_string(),
        room_id,
        hand_id: None,
        seat_id: Some(1),
        action_seq: Some(2),
        status: "matched".to_string(),
        confirmations: 3,
        failure_reason: None,
        observed_from: Some("from".to_string()),
        observed_to: Some("to".to_string()),
        observed_amount: Some(Chips(10)),
        verified_at: Timestamp::now(),
        trace_id: TraceId::new(),
    }
}

fn credit(room_id: RoomId, tx_hash: &str) -> ExceptionCreditUpsert {
    ExceptionCreditUpsert {
        room_id,
        seat_id: Some(1),
        tx_hash: tx_hash.to_string(),
        credit_type: "unmatched".to_string(),
        amount: Chips(10),
        status: "open".to_string(),
        reason: "value_mismatch".to_string(),
        updated_at: moment(5),
        trace_id: TraceId::new(),
    }
}

#[test]
fn in_memory_chain_repo_upserts_verification_and_credit() {
    let mut repo = InMemoryChainTxRepository::new();
    let room_id = RoomId::new();

    repo.upsert_tx_verification(verification(room_id, "0xabc")).expect("upsert");
    repo.upsert_exception_credit(credit(room_id, "0xabc")).expect("upsert credit");

    assert_eq!(repo.tx_verifications_len(), 1);
    assert_eq!(repo.exception_credits_len(), 1);
}

fn binding(tx_hash: &str, room_id: RoomId, hand_id: HandId) -> TxBindingInsert {
    TxBindingInsert {
        tx_hash: tx_hash.to_string(),
        room_id,
        hand_id,
        seat_id: 1,
        action_seq: 7,
        expected_amount: Some(Chips(100)),
        binding_status: "submitted".to_string(),
        created_at: moment(9),
        trace_id: TraceId::new(),
    }
}

#[test]
fn in_memory_chain_repo_rejects_duplicate_bindings() {
    let mut repo = InMemoryChainTxRepository::new();
    let room_id = RoomId::new();
    let hand_id = HandId::new();

    repo.insert_tx_binding(binding("0xtx1", room_id, hand_id)).expect("insert");
    let err = repo
        .insert_tx_binding(binding("0xtx2", room_id, hand_id))
        .expect_err("duplicate hand/action");
    assert!(matches!(err, LedgerStoreError::DuplicateTxBinding));
}

#[test]
fn a_transaction_pays_for_one_action() {
    let mut repo = InMemoryChainTxRepository::new();
    let room_id = RoomId::new();
    repo.insert_tx_binding(binding("0xtx1", room_id, HandId(1))).expect("insert");
    assert_eq!(
        repo.insert_tx_binding(binding("0xtx1", room_id, HandId(2))),
        Err(LedgerStoreError::DuplicateTxHashBinding)
    );
    assert_eq!(repo.tx_bindings_len(), 1);
    let found = repo.get_tx_binding_by_tx_hash("0xtx1").expect("query").expect("binding");
    assert_eq!(found.hand_id, HandId(1));
    assert_eq!(found.expected_amount, Chips(100));
    let found = repo.get_tx_binding_by_hand_action(HandId(1), 7).expect("query").expect("binding");
    assert_eq!(found.tx_hash, "0xtx1");
    assert_eq!(repo.get_tx_binding_by_hand_action(HandId(1), 8), Ok(None));
}

#[test]
fn in_memory_chain_repo_returns_active_room_signing_key() {
    let mut repo = InMemoryChainTxRepository::new();
    let room_id = RoomId::new();
    repo.upsert_room_signing_key_record(RoomSigningKeyRecord {
        room_id,
        address: "0xroom".to_string(),
        encrypted_private_key: vec![1, 2, 3],
        cipher_alg: "AES-256-GCM".to_string(),
        key_version: 1,
        kek_id: "kek-1".to_string(),
        nonce: vec![0; 12],
        aad: b"aad".to_vec(),
        status: "active".to_string(),
        created_at: Timestamp::now(),
        rotated_at: None,
        revoked_at: None,
    })
    .expect("insert");

    let record = repo.get_active_room_signing_key(room_id).expect("query").expect("record");
    assert_eq!(record.address, "0xroom");
    assert_eq!(record.cipher_alg, "AES-256-GCM");
}

fn plan(plan_id: u128, room_id: RoomId, hand_id: HandId) -> SettlementPlanRecordInsert {
    SettlementPlanRecordInsert {
        settlement_plan_id: plan_id,
        room_id,
        hand_id,
        status: "created".to_string(),
        rake_amount: Chips(10),
        payout_total: Chips(90),
        payload_json: Json::Object(vec![("ok".to_string(), Json::Bool(true))]),
        created_at: Timestamp::now(),
        finalized_at: None,
    }
}

fn record(
    plan_id: u128,
    room_id: RoomId,
    hand_id: HandId,
    tx_hash: &str,
    created: i64,
) -> SettlementRecordInsert {
    SettlementRecordInsert {
        settlement_record_id: fresh(),
        settlement_plan_id: plan_id,
        room_id,
        hand_id,
        tx_hash: Some(tx_hash.to_string()),
        settlement_status: "submitted".to_string(),
        retry_count: 0,
        error_detail: None,
        created_at: moment(created),
        updated_at: moment(created),
    }
}

#[test]
fn in_memory_settlement_persistence_repo_inserts_plan_and_record() {
    let mut repo = InMemorySettlementPersistenceRepository::new();
    let (room_id, hand_id, plan_id) = (RoomId::new(), HandId::new(), fresh());
    repo.insert_settlement_plan(plan(plan_id, room_id, hand_id)).expect("insert plan");
    repo.insert_settlement_record(record(plan_id, room_id, hand_id, "0xtx", 1))
        .expect("insert record");

    assert_eq!(repo.settlement_plans_len(), 1);
    assert_eq!(repo.settlement_records_len(), 1);
}

#[test]
fn in_memory_settlement_persistence_repo_updates_record_status_by_tx_hash() {
    let mut repo = InMemorySettlementPersistenceRepository::new();
    let (room_id, hand_id) = (RoomId::new(), HandId::new());
    repo.insert_settlement_record(record(fresh(), room_id, hand_id, "0xtx", 1)).expect("insert");
    repo.insert_settlement_record(record(fresh(), room_id, hand_id, "0xother", 2))
        .expect("insert");

    repo.update_settlement_record_status_by_tx_hash(&SettlementRecordStatusUpdate {
        tx_hash: "0xtx".to_string(),
        settlement_status: "failed".to_string(),
        retry_count: 1,
        error_detail: Some("rpc timeout".to_string()),
        updated_at: Timestamp::now(),
    })
    .expect("update");

    let records = repo.list_settlement_records_by_hand(hand_id).expect("records");
    assert_eq!(records[0].settlement_status, "failed");
    assert_eq!(records[0].retry_count, 1);
    assert_eq!(records[0].error_detail.as_deref(), Some("rpc timeout"));
    assert_eq!(records[1].settlement_status, "submitted");
}

#[test]
fn in_memory_settlement_persistence_read_repo_queries_by_plan_and_hand() {
    let mut repo = InMemorySettlementPersistenceRepository::new();
    let (room_id, hand_id, plan_id) = (RoomId::new(), HandId::new(), fresh());
    repo.insert_settlement_plan(plan(plan_id, room_id, hand_id)).expect("insert plan");
    repo.insert_settlement_record(record(plan_id, room_id, hand_id, "0x1", 1))
        .expect("insert record");

    let got_plan = repo.get_settlement_plan(plan_id).expect("query").expect("found");
    assert_eq!(got_plan.hand_id, hand_id);

    let records = repo.list_settlement_records_by_hand(hand_id).expect("query records");
    assert_eq!(records.len(), 1);
    assert_eq!(records[0].settlement_status, "submitted");
}

#[test]
fn records_of_a_hand_come_by_age() {
    let mut repo = InMemorySettlementPersistenceRepository::new();
    let (room_id, hand_id) = (RoomId::new(), HandId::new());
    for (tx, created) in [("0xc", 3), ("0xa", 1), ("0xb", 2)] {
        repo.insert_settlement_record(record(1, room_id, hand_id, tx, created)).expect("insert");
    }
    repo.insert_settlement_record(record(1, room_id, HandId::new(), "0xd", 0)).expect("insert");
    let records = repo.list_settlement_records_by_hand(hand_id).expect("records");
    let hashes: Vec<_> = records.iter().map(|r| r.tx_hash.as_deref().expect("hash")).collect();
    assert_eq!(hashes, vec!["0xa", "0xb", "0xc"]);
}

#[test]
fn credits_are_listed_by_room_and_page() {
    let mut repo = InMemoryChainTxRepository::new();
    let (here, there) = (RoomId(1), RoomId(2));
    for tx in ["0x1", "0x2", "0x3"] {
        repo.upsert_exception_credit(credit(here, tx)).expect("credit");
    }
    repo.upsert_exception_credit(credit(there, "0x4")).expect("credit");
    let all = repo
        .list_exception_credits(None, PageRequest { limit: 10, offset: 0 })
        .expect("credits");
    assert_eq!(all.len(), 4);
    let ours = repo
        .list_exception_credits(Some(here), PageRequest { limit: 2, offset: 0 })
        .expect("credits");
    assert_eq!(ours.len(), 2);
    let rest = repo
        .list_exception_credits(Some(here), PageRequest { limit: 2, offset: 2 })
        .expect("credits");
    assert_eq!(rest.len(), 1);
    assert_eq!(rest[0].room_id, here);
    assert_eq!(rest[0].amount, Chips(10));
}

#[test]
fn verifications_are_read_back() {
    let mut repo = InMemoryChainTxRepository::new();
    repo.upsert_tx_verification(verification(RoomId(1), "0xabc")).expect("upsert");
    let mut later = verification(RoomId(1), "0xabc");
    later.status = "failed".to_string();
    repo.upsert_tx_verification(later).expect("upsert");
    assert_eq!(repo.tx_verifications_len(), 1);
    let found = repo.get_tx_verification("0xabc").expect("query").expect("record");
    assert_eq!(found.verification_status, "failed");
    assert_eq!(repo.get_tx_verification("0xabd"), Ok(None));
}

fn entry() -> LedgerEntryInsert {
    LedgerEntryInsert {
        entry_type: "payout".to_string(),
        room_id: Some(RoomId(1)),
        hand_id: Some(HandId(2)),
        seat_id: Some(3),
        agent_id: Some(AgentId(4)),
        asset_type: "CFX".to_string(),
        amount: Chips(500),
        direction: LedgerDirection::Debit,
        account_scope: "seat".to_string(),
        related_tx_hash: Some("0xtx".to_string()),
        related_event_id: Some("00000000-0000-0000-0000-000000000005".to_string()),
        related_attempt_id: None,
        remark: None,
        trace_id: TraceId(6),
    }
}

#[test]
fn entries_are_kept_and_read_back() {
    let mut repo = InMemoryLedgerRepository::new();
    repo.insert_entries(&vec![entry(), entry()]).expect("insert");
    assert_eq!(repo.entries_snapshot(), vec![entry(), entry()]);
    let row = entry().to_row();
    assert_eq!(row.amount_text, "500");
    assert_eq!(row.direction, "debit");
    assert_eq!(row.related_event_id, Some(5));
    assert_eq!(LedgerEntryInsert::from_row(row), entry());
    assert_eq!(NoopLedgerRepository.insert_entries(&vec![entry()]), Ok(()));
}

#[test]
fn amounts_are_written_in_full() {
    assert_eq!(chips_to_decimal_string(Chips(u128::MAX)), u128::MAX.to_string());
    assert_eq!(parse_numeric_to_chips("12"), Some(Chips(12)));
    assert_eq!(parse_numeric_to_chips("x"), None);
}

#[test]
fn rows_hold_what_fits() {
    let row = binding("0xtx", RoomId(1), HandId(2)).to_row().expect("row");
    assert_eq!(row.action_seq, 7);
    assert_eq!(row.expected_amount_text, "100");
    let read = TxBindingRecord::from_row(row);
    assert_eq!(read.expected_amount, Chips(100));
    assert_eq!(read.bound_at, moment(9));
    let mut free = binding("0xtx", RoomId(1), HandId(2));
    free.expected_amount = None;
    assert_eq!(free.to_row(), Err(LedgerStoreError::MissingExpectedAmount));

    let row = verification(RoomId(1), "0xabc").to_row("71");
    assert_eq!(row.chain_id, "71");
    let read = TxVerificationRecord::from_row(row);
    assert_eq!(read.value, Some(Chips(10)));
    assert_eq!(read.confirmations, 3);

    let read = ExceptionCreditRecord::from_row(credit(RoomId(1), "0xabc").to_row());
    assert_eq!(read.credit_kind, "unmatched");
    assert_eq!(read.reason.as_deref(), Some("value_mismatch"));
}

#[test]
fn ledger_errors_say_what_happened() {
    assert_eq!(
        binding_error("violates uq_tx_bindings_tx_hash".to_string()),
        LedgerStoreError::DuplicateTxHashBinding
    );
    assert_eq!(
        binding_error("violates uq_tx_bindings_hand_action_seq".to_string()),
        LedgerStoreError::DuplicateTxBinding
    );
    assert_eq!(
        binding_error("connection lost".to_string()),
        LedgerStoreError::Database("connection lost".to_string())
    );
    assert!(LedgerStoreError::Database("down".to_string()).message().contains("down"));
    assert_eq!(
        NoopChainTxRepository.insert_tx_binding(binding("0x1", RoomId(1), HandId(1))),
        Ok(())
    );
}
