use agent_poker::chain_watcher::{
    build_verification_callback, check_tx_fields, check_tx_status_and_identity,
    classify_tx_verification, evaluate_confirmations, first_query_step, next_query_step, observe_tx,
    parse_hex_u128, parse_hex_u64, verification_outcome, ChainWatcher, ChainWatcherError,
    ConfirmationDecision, EthTransaction, EthTransactionReceipt, EvmChainWatcher, JsonRpcErrorObj,
    JsonRpcResponse, ObservedTx, QueryStep, RetryPolicy, TxVerificationInput, VerificationStatus,
};
use agent_poker::domain::{Chips, HandId, RoomId};

fn sample_input() -> TxVerificationInput {
    TxVerificationInput {
        room_id: RoomId::new(),
        hand_id: Some(HandId::new()),
        seat_id: Some(1),
        action_seq: Some(2),
        tx_hash: "0xabc".to_string(),
        expected_to: "room_addr".to_string(),
        expected_from: Some("seat_addr".to_string()),
        expected_amount: Some(Chips(100)),
        min_confirmations: 3,
    }
}

fn sample_observed() -> ObservedTx {
    ObservedTx {
        tx_hash: "0xabc".to_string(),
        from: "seat_addr".to_string(),
        to: "room_addr".to_string(),
        value: Chips(100),
        success: true,
        confirmations: 3,
    }
}

#[test]
fn classify_returns_pending_when_confirmations_insufficient() {
    let input = sample_input();
    let mut observed = sample_observed();
    observed.confirmations = 1;
    let result = classify_tx_verification(&input, &observed);
    assert_eq!(result.status, VerificationStatus::Pending);
}

#[test]
fn evaluate_confirmations_respects_threshold() {
    assert_eq!(evaluate_confirmations(3, 2), ConfirmationDecision::Pending);
    assert_eq!(evaluate_confirmations(3, 3), ConfirmationDecision::Confirmed);
}

#[test]
fn check_tx_fields_rejects_to_mismatch() {
    let input = sample_input();
    let mut observed = sample_observed();
    observed.to = "wrong_room".to_string();

    let result = check_tx_fields(&input, &observed).expect("mismatch");
    assert_eq!(result.status, VerificationStatus::Unmatched);
    assert_eq!(result.failure_reason.as_deref(), Some("to_mismatch"));
}

#[test]
fn check_tx_status_and_identity_rejects_failed_tx() {
    let input = sample_input();
    let mut observed = sample_observed();
    observed.success = false;

    let result = check_tx_status_and_identity(&input, &observed).expect("failed");
    assert_eq!(result.status, VerificationStatus::Failed);
    assert_eq!(result.failure_reason.as_deref(), Some("tx_failed"));
}

#[test]
fn classify_returns_unmatched_on_value_mismatch() {
    let input = sample_input();
    let mut observed = sample_observed();
    observed.value = Chips(101);
    let result = classify_tx_verification(&input, &observed);
    assert_eq!(result.status, VerificationStatus::Unmatched);
    assert_eq!(result.failure_reason.as_deref(), Some("value_mismatch"));
}

#[test]
fn classify_returns_failed_on_tx_failure() {
    let input = sample_input();
    let mut observed = sample_observed();
    observed.success = false;
    let result = classify_tx_verification(&input, &observed);
    assert_eq!(result.status, VerificationStatus::Failed);
}

#[test]
fn classify_returns_late_when_binding_context_missing() {
    let mut input = sample_input();
    input.action_seq = None;
    let observed = sample_observed();
    let result = classify_tx_verification(&input, &observed);
    assert_eq!(result.status, VerificationStatus::Late);
}

#[test]
fn classify_returns_matched_when_all_checks_pass() {
    let input = sample_input();
    let observed = sample_observed();
    let result = classify_tx_verification(&input, &observed);
    assert_eq!(result.status, VerificationStatus::Matched);
}

#[test]
fn dispatch_callback_forwards_to_sink() {
    let input = sample_input();
    let observed = sample_observed();
    let result = classify_tx_verification(&input, &observed);
    let mut stored = Vec::new();
    stored.push(build_verification_callback(&input, &result));

    assert_eq!(stored.len(), 1);
    assert_eq!(stored[0].room_id, input.room_id);
    assert_eq!(stored[0].status, VerificationStatus::Matched);
}

#[test]
fn retry_policy_backoff_is_capped() {
    let retry = RetryPolicy { max_attempts: 5, base_backoff_ms: 100, max_backoff_ms: 250 };
    assert_eq!(retry.backoff_ms(0), 100);
    assert_eq!(retry.backoff_ms(1), 200);
    assert_eq!(retry.backoff_ms(2), 250);
}

/// Plays the node's answers to the queries, and counts the calls.
fn query(retry: RetryPolicy, answers: Vec<Option<ObservedTx>>) -> (Option<ObservedTx>, u32) {
    let mut answers = answers.into_iter();
    let mut calls = 0;
    let mut step = first_query_step(retry);
    loop {
        step = match step {
            QueryStep::Ask { wait_ms, attempt } => {
                assert!(wait_ms <= retry.max_backoff_ms);
                calls += 1;
                next_query_step(retry, attempt, answers.next().flatten())
            }
            QueryStep::Found(tx) => return (Some(tx), calls),
            QueryStep::GiveUp => return (None, calls),
        };
    }
}

#[test]
fn query_tx_with_retry_retries_until_found() {
    let (found, calls) = query(
        RetryPolicy { max_attempts: 4, base_backoff_ms: 1, max_backoff_ms: 2 },
        vec![None, None, Some(sample_observed())],
    );
    assert!(found.is_some());
    assert_eq!(calls, 3);
}

#[test]
fn query_stops_after_the_last_attempt() {
    let retry = RetryPolicy { max_attempts: 2, base_backoff_ms: 1, max_backoff_ms: 1 };
    assert_eq!(query(retry, vec![None, None, Some(sample_observed())]), (None, 2));
    let none = RetryPolicy { max_attempts: 0, base_backoff_ms: 1, max_backoff_ms: 1 };
    assert_eq!(query(none, vec![Some(sample_observed())]).0, None);
}

#[test]
fn verify_tx_with_retry_returns_pending_when_not_found() {
    let input = sample_input();
    let retry = RetryPolicy { max_attempts: 2, base_backoff_ms: 1, max_backoff_ms: 1 };
    let (found, _) = query(retry, vec![None, None]);
    let result = verification_outcome(&input, &found);
    assert_eq!(result.status, VerificationStatus::Pending);
    assert_eq!(result.failure_reason.as_deref(), Some("tx_not_found"));
}

#[test]
fn evm_chain_watcher_verify_and_dispatch_uses_client_and_sink() {
    let watcher = EvmChainWatcher::new(
        vec![Some(sample_observed())],
        RetryPolicy { max_attempts: 1, base_backoff_ms: 1, max_backoff_ms: 1 },
    );
    let input = sample_input();

    assert_eq!(watcher.client().len(), 1);
    let (found, calls) = query(watcher.retry_policy(), vec![Some(sample_observed())]);
    let result = verification_outcome(&input, &found);
    let events = vec![build_verification_callback(&input, &result)];
    assert_eq!(result.status, VerificationStatus::Matched);
    assert_eq!(calls, 1);
    assert_eq!(events.len(), 1);
}

#[test]
fn parse_hex_quantity_helpers_work() {
    assert_eq!(parse_hex_u64("0x0").expect("u64"), 0);
    assert_eq!(parse_hex_u64("0x10").expect("u64"), 16);
    assert_eq!(parse_hex_u128("0x64").expect("u128"), 100);
}

#[test]
fn quantities_are_read_up_to_their_width() {
    assert_eq!(parse_hex_u64("0xffffffffffffffff"), Ok(u64::MAX));
    assert_eq!(
        parse_hex_u64("0x10000000000000000"),
        Err(ChainWatcherError::Parse("number too large to fit in target type".to_string()))
    );
    assert_eq!(
        parse_hex_u128("0xg"),
        Err(ChainWatcherError::Parse("invalid digit found in string".to_string()))
    );
    assert_eq!(parse_hex_u64("  0x "), Ok(0));
    assert_eq!(parse_hex_u64("ff"), Ok(255));
}

#[test]
fn every_mismatch_has_its_reason() {
    let input = sample_input();
    let mut observed = sample_observed();
    observed.tx_hash = "0xabd".to_string();
    let result = check_tx_status_and_identity(&input, &observed).expect("other hash");
    assert_eq!(result.status, VerificationStatus::Failed);
    assert_eq!(result.failure_reason.as_deref(), Some("tx_hash_mismatch"));

    let mut observed = sample_observed();
    observed.from = "somebody".to_string();
    let result = check_tx_fields(&input, &observed).expect("other payer");
    assert_eq!(result.failure_reason.as_deref(), Some("from_mismatch"));
    assert!(check_tx_fields(&input, &sample_observed()).is_none());
}

#[test]
fn more_confirmations_change_no_verdict() {
    let input = sample_input();
    let mut observed = sample_observed();
    for confirmations in [3, 4, 1000, u64::MAX] {
        observed.confirmations = confirmations;
        let result = classify_tx_verification(&input, &observed);
        assert_eq!(result.status, VerificationStatus::Matched);
        assert_eq!(result.confirmations, confirmations);
    }
}

#[test]
fn a_node_speaks_of_transactions_in_quantities() {
    let tx = EthTransaction {
        hash: "0xabc".to_string(),
        from: "0x1".to_string(),
        to: None,
        value: "0x64".to_string(),
        block_number: Some("0xa".to_string()),
    };
    let receipt = EthTransactionReceipt { status: Some("0x1".to_string()) };
    let observed = observe_tx(tx, Some(receipt), "0xc").expect("observed");
    assert_eq!(observed.value, Chips(100));
    assert_eq!(observed.confirmations, 3);
    assert!(observed.success);
    assert_eq!(observed.to, "");
}

#[test]
fn errors_of_a_node_count_before_its_results() {
    let reply = JsonRpcResponse {
        result: Some(1),
        error: Some(JsonRpcErrorObj { code: -32000, message: "busy".to_string() }),
    };
    assert_eq!(
        reply.into_result(),
        Err(ChainWatcherError::Rpc("code=-32000 message=busy".to_string()))
    );
    let reply: JsonRpcResponse<u8> = JsonRpcResponse { result: None, error: None };
    assert_eq!(reply.into_result(), Err(ChainWatcherError::Rpc("missing result".to_string())));
    let reply = JsonRpcResponse { result: Some(7), error: None };
    assert_eq!(reply.into_result(), Ok(7));
}

#[test]
fn a_watcher_without_a_node_waits() {
    let result = ChainWatcher::new().verify_tx(sample_input()).expect("pending");
    assert_eq!(result.status, VerificationStatus::Pending);
    assert_eq!(result.failure_reason, None);
}

#[test]
fn watcher_errors_say_what_happened() {
    assert_eq!(ChainWatcherError::UnsupportedRpc.message(), "unsupported chain rpc");
    assert_eq!(
        ChainWatcherError::CallbackSink("x".to_string()).message(),
        "callback sink error: x"
    );
    assert_eq!(ChainWatcherError::Http("x".to_string()).message(), "http error: x");
    assert_eq!(ChainWatcherError::Rpc("x".to_string()).message(), "rpc response error: x");
    assert_eq!(ChainWatcherError::Parse("x".to_string()).message(), "parse error: x");
}
