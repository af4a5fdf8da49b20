use std::collections::HashSet;

use agent_poker::auth::sign_evm_personal_message_secp256k1;
use agent_poker::client::demo::{choose_action, demo_action, demo_step, DemoStep};
use agent_poker::client::journal::{now_unix_ms, unix_ms, ClientAuditRecord};
use agent_poker::client::policy::{
    decision_prompt, extract_json_object, parse_action_type, parse_amount, CodexCliPolicyAdapter,
    CodexDecisionRaw, CodexReply, DecisionContextEntry, DecisionContextManager,
    LlmCodexPolicyAdapter, PolicyAdapter, PolicyAdapterError, PolicyDecision, PolicyDecisionInput,
    PolicySource, RulePolicyAdapter,
};
use agent_poker::client::runtime::{
    build_bind_address_request, build_bind_session_keys_request, build_game_act_request,
    build_private_state_json, build_room_join_request, build_room_ready_request,
    collect_turn_decision_input, connect_skill, envelope_ok, envelope_ok_unit,
    execute_turn_decision, first_seat, http_rpc_call_result, parse_x25519_secret_hex, payment_for,
    prepare_seat, prove_bind_session_keys_request, resolve_action_amount_from_legal_actions,
    run_first_available_action, run_single_action_if_turn, run_single_action_turn, turn_state,
    wallet_error, PayloadReading, PrepareStep, RuntimeError, SeatSearch, SeatTurnRunnerInput,
    SingleActionRunOutcome, SingleActionRunnerConfig,
};
use agent_poker::client::seat::{
    build_config, card_index_to_notation, decide_turn, derive_ws_endpoint, env_optional,
    env_parse_room_id_optional, env_parse_u64, env_required, envelope_data, event_in,
    format_wei_as_eth, key_to_sync, next_backoff_ms, parse_codex_cli_args, parse_policy_mode,
    payload_u64, plan_event, pretty_hole_cards, resolve_room_id, subscribe_turn_events,
    sync_hole_cards_for_current_hand, sync_hole_cards_for_hand, PolicyMode, SeatVariables,
    SubscribeReply, TurnEvent, TurnKeeper, TurnStep,
};
use agent_poker::client::session::{
    FallbackPolicy, ReconnectPolicy, StateCache, SubscriptionSpec, TurnContext, WsSessionState,
};
use agent_poker::client::wallet::{
    call_json, chain_id, get_tx_receipt_status, parse_hex_u64, rpc_call_result, sign_call,
    transfer_call, EthTransactionReceipt, EvmTransferRequest, MockEvmWalletAdapter, WalletAdapter,
    WalletAdapterError,
};
use agent_poker::chain_watcher::{JsonRpcErrorObj, JsonRpcResponse};
use agent_poker::domain::{
    ActionType, Chips, HandId, HandSnapshot, HandStatus, LegalAction, RoomId, Street, Timestamp,
};
use agent_poker::evm::{evm_address_from_secp256k1_verifying_key, EvmSigningKey};
use agent_poker::json::{Json, JsonNumber};
use agent_poker::platform::{ErrorBody, ErrorCode, ResponseEnvelope};
use agent_poker::rpc::{PrivatePayloadEvent, RoomSummary};
use agent_poker::server::signatures::{
    verify_bind_address, verify_bind_session_keys, verify_game_act, verify_room_ready,
};

/// A document from its text.
fn json(text: &str) -> Json {
    fn convert(value: &serde_json::Value) -> Json {
        match value {
            serde_json::Value::Null => Json::Null,
            serde_json::Value::Bool(b) => Json::Bool(*b),
            serde_json::Value::Number(n) => Json::Number(match (n.as_u64(), n.as_i64()) {
                (Some(n), _) => JsonNumber::Unsigned(n),
                (None, Some(n)) => JsonNumber::Negative(n),
                (None, None) => JsonNumber::Real(n.to_string()),
            }),
            serde_json::Value::String(s) => Json::Text(s.clone()),
            serde_json::Value::Array(items) => Json::Array(items.iter().map(convert).collect()),
            serde_json::Value::Object(members) => {
                Json::Object(members.iter().map(|(k, v)| (k.clone(), convert(v))).collect())
            }
        }
    }
    convert(&serde_json::from_str(text).expect("document"))
}

fn value(document: &Json) -> serde_json::Value {
    serde_json::from_str(&document.to_text()).expect("document")
}

fn texts(words: &[&str]) -> Vec<String> {
    words.iter().map(|word| word.to_string()).collect()
}

#[test]
fn reconnect_policy_backoff_is_capped() {
    let policy = ReconnectPolicy {
        base_backoff_ms: 100,
        max_backoff_ms: 500,
        ..ReconnectPolicy::default()
    };
    assert_eq!(policy.backoff_ms(0), 100);
    assert_eq!(policy.backoff_ms(1), 200);
    assert_eq!(policy.backoff_ms(3), 500);
}

#[test]
fn ws_session_restores_subscriptions_after_reconnect() {
    let mut ws = WsSessionState::default();
    let spec = SubscriptionSpec {
        topic: "seat_events".to_string(),
        room_id: RoomId::new(),
        hand_id: None,
        seat_id: Some(1),
    };
    ws.register_subscription("local-1".to_string(), spec.clone());
    ws.mark_connected();
    let to_restore = ws.subscriptions_to_restore();
    assert_eq!(to_restore.len(), 1);
    assert_eq!(to_restore[0].1, spec);

    ws.mark_subscription_active("local-1".to_string(), "remote-1".to_string());
    assert!(ws.subscriptions_to_restore().is_empty());

    ws.mark_disconnected();
    assert_eq!(ws.reconnect_attempt, 1);
    assert_eq!(ws.subscriptions_to_restore().len(), 1);
}

#[test]
fn unknown_subscriptions_are_passed_over() {
    let mut ws = WsSessionState::default();
    ws.mark_subscription_active("nobody".to_string(), "remote".to_string());
    assert!(ws.subscriptions_to_restore().is_empty());
    ws.reconnect_attempt = u32::MAX;
    ws.mark_disconnected();
    assert_eq!(ws.reconnect_attempt, u32::MAX);
}

#[test]
fn turns_are_cached() {
    let mut cache = StateCache::default();
    assert!(cache.current_turn.is_none());
    cache.update_turn(TurnContext {
        room_id: RoomId(1),
        hand_id: HandId(2),
        seat_id: 3,
        legal_actions: texts(&["check"]),
        action_deadline_unix_ms: None,
    });
    assert_eq!(cache.current_turn.as_ref().map(|turn| turn.seat_id), Some(3));
    cache.clear_turn();
    assert!(cache.current_turn.is_none());
}

#[test]
fn fallbacks_prefer_their_default() {
    let policy = FallbackPolicy::default();
    assert_eq!(policy.choose_action(&texts(&["check", "fold"])), ActionType::Fold);
    assert_eq!(policy.choose_action(&texts(&["check"])), ActionType::Check);
    assert_eq!(policy.choose_action(&texts(&[])), ActionType::Fold);
    let bold = FallbackPolicy { default_action: ActionType::AllIn };
    assert_eq!(bold.choose_action(&texts(&["allin", "check"])), ActionType::AllIn);
}

#[test]
fn journals_hold_one_document_a_line() {
    let record = ClientAuditRecord {
        ts_unix_ms: 12,
        event_kind: "client_connected".to_string(),
        room_id: Some(RoomId(1)),
        hand_id: None,
        seat_id: Some(4),
        payload: json("{\"has_ws\":true}"),
    };
    let line = record.to_line();
    assert_eq!(
        line,
        "{\"ts_unix_ms\":12,\"event_kind\":\"client_connected\",\
\"room_id\":\"00000000-0000-0000-0000-000000000001\",\"hand_id\":null,\"seat_id\":4,\
\"payload\":{\"has_ws\":true}}\n"
    );
    let parsed: serde_json::Value = serde_json::from_str(&line).expect("document");
    assert_eq!(parsed["ts_unix_ms"], 12);
}

#[test]
fn moments_are_counted_in_milliseconds() {
    assert_eq!(unix_ms(Timestamp::new(2, 3_999_999).expect("moment")), 2_003);
    assert_eq!(unix_ms(Timestamp::new(-1, 0).expect("moment")), 0);
    assert!(now_unix_ms() > 1_600_000_000_000);
}

fn policy_input(legal_actions: &[&str]) -> PolicyDecisionInput {
    PolicyDecisionInput {
        room_id: RoomId(1),
        hand_id: HandId(2),
        seat_id: 1,
        legal_actions: texts(legal_actions),
        public_state_json: json("{\"pot_total\":10}"),
        private_state_json: None,
        decision_context_json: None,
    }
}

#[test]
fn rule_policy_prefers_check_then_call_then_fold() {
    let policy = RulePolicyAdapter;
    let decision =
        policy.decide_action(&policy_input(&["fold", "check"])).expect("decision").expect("some");
    assert_eq!(decision.action_type, ActionType::Check);
    assert_eq!(decision.source, PolicySource::Rule);

    let decision =
        policy.decide_action(&policy_input(&["fold", "call"])).expect("decision").expect("some");
    assert_eq!(decision.action_type, ActionType::Call);
    let decision =
        policy.decide_action(&policy_input(&["raiseto", "fold"])).expect("decision").expect("some");
    assert_eq!(decision.action_type, ActionType::Fold);
    assert_eq!(policy.decide_action(&policy_input(&["raiseto"])), Ok(None));
    assert_eq!(LlmCodexPolicyAdapter.decide_action(&policy_input(&["check"])), Ok(None));
}

fn raw(action_type: &str, amount: Option<&str>) -> CodexDecisionRaw {
    CodexDecisionRaw {
        action_type: action_type.to_string(),
        amount: amount.map(str::to_string),
        rationale: Some("mock_cli_ok".to_string()),
    }
}

#[test]
fn codex_cli_policy_adapter_can_exchange_stdio_with_cli_process() {
    let policy = CodexCliPolicyAdapter::new("python3".to_string(), Vec::new(), 5_000);
    let reply = CodexReply { whole: Some(raw("call", None)), braced: None };
    let decision = policy
        .decide_action(&policy_input(&["fold", "call"]), Some(reply))
        .expect("decision")
        .expect("some");
    assert_eq!(decision.action_type, ActionType::Call);
    assert_eq!(decision.source, PolicySource::Llm);
    assert_eq!(decision.rationale.as_deref(), Some("mock_cli_ok"));
}

#[test]
fn tools_are_held_to_the_choices() {
    let policy = CodexCliPolicyAdapter::new("tool".to_string(), Vec::new(), 1);
    let input = policy_input(&["fold", "raiseto"]);
    let asked = |whole, braced| policy.decide_action(&input, Some(CodexReply { whole, braced }));
    assert_eq!(policy.decide_action(&input, None), Err(PolicyAdapterError::BackendUnavailable));
    assert_eq!(asked(None, None), Err(PolicyAdapterError::InvalidDecision));
    assert_eq!(asked(Some(raw("call", None)), None), Err(PolicyAdapterError::InvalidDecision));
    assert_eq!(asked(Some(raw("jump", None)), None), Err(PolicyAdapterError::InvalidDecision));
    assert_eq!(
        asked(Some(raw("fold", Some("many"))), None),
        Err(PolicyAdapterError::InvalidDecision)
    );
    let decision = asked(None, Some(raw(" Raise_To ", Some("50")))).expect("ok").expect("some");
    assert_eq!(decision.action_type, ActionType::RaiseTo);
    assert_eq!(decision.amount, Some(Chips(50)));
    assert_eq!(
        PolicyAdapterError::BackendUnavailable.message(),
        "policy backend unavailable"
    );
    assert_eq!(PolicyAdapterError::InvalidDecision.message(), "invalid policy decision");
}

#[test]
fn actions_and_amounts_are_read_from_texts() {
    for (text, action) in [
        ("fold", ActionType::Fold),
        (" CHECK", ActionType::Check),
        ("call\n", ActionType::Call),
        ("raise_to", ActionType::RaiseTo),
        ("all_in", ActionType::AllIn),
    ] {
        assert_eq!(parse_action_type(text), Some(action));
        assert_eq!(parse_action_type(action.name()), Some(action));
    }
    assert_eq!(parse_action_type("allin"), None);
    assert_eq!(parse_amount(&None), Ok(None));
    assert_eq!(parse_amount(&Some("7".to_string())), Ok(Some(Chips(7))));
    assert_eq!(
        parse_amount(&Some(u128::MAX.to_string())),
        Ok(Some(Chips(u128::MAX)))
    );
    assert_eq!(parse_amount(&Some("-7".to_string())), Err(PolicyAdapterError::InvalidDecision));
}

#[test]
fn braced_parts_are_found() {
    assert_eq!(extract_json_object("a {\"b\":{}} c").as_deref(), Some("{\"b\":{}}"));
    assert_eq!(extract_json_object("no braces"), None);
    assert_eq!(extract_json_object("} {"), None);
    assert_eq!(extract_json_object("{"), None);
    assert_eq!(extract_json_object("\u{e9}{\u{e9}}\u{e9}").as_deref(), Some("{\u{e9}}"));
}

#[test]
fn prompts_are_documents_in_order() {
    let prompt = decision_prompt(&policy_input(&["fold"]));
    let parsed: serde_json::Value = serde_json::from_str(&prompt).expect("document");
    assert_eq!(parsed["task"], "poker_action_decision");
    assert_eq!(parsed["input"]["legal_actions"][0], "fold");
    assert_eq!(parsed["input"]["public_state_json"]["pot_total"], 10);
    assert_eq!(parsed["input"]["private_state_json"], serde_json::Value::Null);
    assert_eq!(parsed.to_string(), prompt);
}

fn entry(hand: u128) -> DecisionContextEntry {
    DecisionContextEntry {
        hand_id: HandId(hand),
        seat_id: 1,
        legal_actions: texts(&["fold"]),
        chosen_action: Some("fold".to_string()),
        rationale: None,
    }
}

#[test]
fn only_the_latest_decisions_are_kept() {
    let mut kept = DecisionContextManager::with_max_entries(2);
    for hand in 1..=5 {
        kept.push(entry(hand));
    }
    let document = value(&kept.as_json());
    assert_eq!(document.as_array().map(Vec::len), Some(2));
    assert_eq!(document[0]["hand_id"], "00000000-0000-0000-0000-000000000004");
    assert_eq!(document[1]["hand_id"], "00000000-0000-0000-0000-000000000005");
    assert_eq!(document[1]["chosen_action"], "fold");

    let mut one = DecisionContextManager::with_max_entries(0);
    one.push(entry(1));
    one.push(entry(2));
    assert_eq!(value(&one.as_json()).as_array().map(Vec::len), Some(1));
    let mut none = DecisionContextManager::default();
    none.push(entry(1));
    assert_eq!(none.as_json().to_text(), "[]");
}

#[test]
fn envelope_ok_unit_accepts_ok_with_null_data() {
    let env = ResponseEnvelope::<()> { ok: true, data: None, error: None };
    let res = envelope_ok_unit(env);
    assert!(res.is_ok());
}

#[test]
fn refusals_are_told() {
    let refused: ResponseEnvelope<u8> = ResponseEnvelope::err(ErrorCode::Forbidden, "no");
    assert_eq!(envelope_ok(refused), Err(RuntimeError::RpcApp("Forbidden: no".to_string())));
    let silent: ResponseEnvelope<u8> = ResponseEnvelope { ok: false, data: None, error: None };
    assert_eq!(
        envelope_ok(silent),
        Err(RuntimeError::RpcApp("unknown rpc app error".to_string()))
    );
    let empty: ResponseEnvelope<u8> = ResponseEnvelope { ok: true, data: None, error: None };
    assert_eq!(envelope_ok(empty), Err(RuntimeError::RpcMissingResult));
    assert_eq!(envelope_ok(ResponseEnvelope::ok(3)), Ok(3));
    let refused: ResponseEnvelope<()> = ResponseEnvelope::err(ErrorCode::GameActFailed, "late");
    assert_eq!(
        envelope_ok_unit(refused),
        Err(RuntimeError::RpcApp("GameActFailed: late".to_string()))
    );
    let refused: ResponseEnvelope<u8> = ResponseEnvelope::err(ErrorCode::Forbidden, "no");
    assert_eq!(
        envelope_data(refused, "room.list"),
        Err("room.list failed: Forbidden: no".to_string())
    );
}

#[test]
fn answers_hold_errors_or_results() {
    let failed = json("{\"error\":{\"code\":-32601,\"message\":\"none\",\"data\":[1]}}");
    assert_eq!(
        http_rpc_call_result("game.act", &failed),
        Err(RuntimeError::RpcApp(
            "jsonrpc game.act failed: code=-32601 message=none data=[1]".to_string()
        ))
    );
    let odd = json("{\"error\":\"broken\"}");
    assert_eq!(
        http_rpc_call_result("m", &odd),
        Err(RuntimeError::RpcApp(
            "jsonrpc m failed: code=null message=unknown json-rpc error data=null".to_string()
        ))
    );
    assert_eq!(http_rpc_call_result("m", &json("{}")), Err(RuntimeError::RpcMissingResult));
    let good = json("{\"result\":{\"a\":1}}");
    assert_eq!(http_rpc_call_result("m", &good).expect("result").to_text(), "{\"a\":1}");
}

fn event(event_name: &str, payload: &str) -> PrivatePayloadEvent {
    PrivatePayloadEvent {
        room_id: RoomId(1),
        hand_id: HandId(2),
        seat_id: 0,
        event_name: event_name.to_string(),
        payload: json(payload),
    }
}

#[test]
fn private_state_contains_events_without_secret() {
    let event = event("hole_cards_dealt", "{\"foo\":\"bar\"}");
    let state = build_private_state_json(&vec![event], &None, &vec![PayloadReading::NotEncrypted])
        .expect("private state")
        .expect("some");
    let state = value(&state);
    assert_eq!(state["events"].as_array().map_or(0, Vec::len), 1);
    assert_eq!(state["decrypted_hole_cards"].as_array().map_or(0, Vec::len), 0);
}

#[test]
fn private_state_decrypts_hole_cards_when_secret_provided() {
    let events = vec![
        event("hole_cards_dealt", "{}"),
        event("other", "{}"),
        event("hole_cards_dealt", "{}"),
    ];
    let readings = vec![
        PayloadReading::Document(json("{\"cards\":[7,42]}")),
        PayloadReading::Refused,
        PayloadReading::NoDocument,
    ];
    let state = build_private_state_json(&events, &Some("11".repeat(32)), &readings)
        .expect("private state")
        .expect("some");
    let state = value(&state);
    assert_eq!(state["decrypted_hole_cards"][0]["cards"][0], 7);
    assert_eq!(state["decrypted_hole_cards"][0]["cards"][1], 42);
    assert_eq!(state["decrypt_failures"], 0);
}

#[test]
fn refused_payloads_are_counted() {
    let events = vec![event("hole_cards_dealt", "{}"), event("hole_cards_dealt", "{}")];
    let readings = vec![PayloadReading::Refused, PayloadReading::Refused];
    let state = build_private_state_json(&events, &Some("11".repeat(32)), &readings)
        .expect("private state")
        .expect("some");
    assert_eq!(value(&state)["decrypt_failures"], 2);
    assert_eq!(build_private_state_json(&Vec::new(), &None, &Vec::new()), Ok(None));
    assert_eq!(
        build_private_state_json(&events, &Some("11".to_string()), &readings),
        Err(RuntimeError::Crypto("x25519 secret hex must decode to 32 bytes".to_string()))
    );
}

#[test]
fn secret_keys_have_thirty_two_bytes() {
    assert_eq!(parse_x25519_secret_hex(&"0f".repeat(32)), Ok(vec![15_u8; 32]));
    assert_eq!(
        parse_x25519_secret_hex("zz"),
        Err(RuntimeError::Crypto("Invalid character 'z' at position 0".to_string()))
    );
    assert_eq!(
        parse_x25519_secret_hex("abc"),
        Err(RuntimeError::Crypto("Odd number of digits".to_string()))
    );
}

fn decision(action_type: ActionType, amount: Option<u128>) -> PolicyDecision {
    PolicyDecision {
        action_type,
        amount: amount.map(Chips),
        rationale: None,
        source: PolicySource::Llm,
    }
}

#[test]
fn resolve_amount_ignores_non_monetary_amounts_for_fold_and_check() {
    let legal_actions = vec![
        LegalAction { action_type: ActionType::Fold, min_amount: None, max_amount: None },
        LegalAction { action_type: ActionType::Check, min_amount: None, max_amount: None },
    ];
    let fold = decision(ActionType::Fold, Some(0));
    let check = decision(ActionType::Check, Some(0));

    assert_eq!(
        resolve_action_amount_from_legal_actions(&fold, &legal_actions).expect("fold amount"),
        None
    );
    assert_eq!(
        resolve_action_amount_from_legal_actions(&check, &legal_actions).expect("check amount"),
        None
    );
}

#[test]
fn resolve_amount_uses_call_min_amount() {
    let legal_actions = vec![LegalAction {
        action_type: ActionType::Call,
        min_amount: Some(Chips(200)),
        max_amount: Some(Chips(200)),
    }];
    let call = decision(ActionType::Call, None);

    assert_eq!(
        resolve_action_amount_from_legal_actions(&call, &legal_actions).expect("call amount"),
        Some(Chips(200))
    );
}

#[test]
fn amounts_have_to_be_known() {
    let legal_actions =
        vec![LegalAction { action_type: ActionType::Call, min_amount: None, max_amount: None }];
    assert_eq!(
        resolve_action_amount_from_legal_actions(
            &decision(ActionType::Call, Some(5)),
            &legal_actions
        ),
        Ok(Some(Chips(5)))
    );
    assert_eq!(
        resolve_action_amount_from_legal_actions(&decision(ActionType::Call, None), &Vec::new()),
        Err(RuntimeError::Policy("call not present in legal actions".to_string()))
    );
    assert_eq!(
        resolve_action_amount_from_legal_actions(&decision(ActionType::AllIn, None), &Vec::new()),
        Err(RuntimeError::Policy("raise_to/all_in requires explicit amount".to_string()))
    );
    assert_eq!(
        resolve_action_amount_from_legal_actions(
            &decision(ActionType::RaiseTo, Some(9)),
            &Vec::new()
        ),
        Ok(Some(Chips(9)))
    );
}

fn config(seat_address: &str) -> SingleActionRunnerConfig {
    SingleActionRunnerConfig {
        rpc_endpoint: "http://127.0.0.1:9000".to_string(),
        room_id: RoomId(7),
        seat_id: 1,
        seat_address: seat_address.to_string(),
        room_chain_address: "0xroom".to_string(),
        chain_id: 71,
        tx_value: Chips(1),
        card_encrypt_pubkey_hex: "22".repeat(32),
        card_encrypt_secret_hex: Some("11".repeat(32)),
    }
}

fn snapshot(acting_seat_id: Option<u8>, status: HandStatus) -> HandSnapshot {
    HandSnapshot {
        room_id: RoomId(7),
        hand_id: HandId(8),
        hand_no: 1,
        status,
        street: Street::Preflop,
        acting_seat_id,
        next_action_seq: 3,
        pot_total: Chips(30),
    }
}

#[test]
fn what_the_client_signs_the_server_accepts() {
    let key = EvmSigningKey::from_slice(&[9_u8; 32]).expect("key");
    let other = EvmSigningKey::from_slice(&[8_u8; 32]).expect("key");
    let address = evm_address_from_secp256k1_verifying_key(&key.verifying_key());
    let cfg = config(&address);
    let sign = |message: &str| {
        sign_evm_personal_message_secp256k1(&key, message.as_bytes()).expect("signature")
    };
    let mut skill = connect_skill(&cfg).expect("skill");

    let (join, message) = build_room_join_request(&skill, &cfg).expect("join");
    assert_eq!(join.seat_id, 1);
    assert!(message.starts_with("method=room.join|"));

    let (mut bind, message) = build_bind_address_request(&mut skill, &cfg).expect("bind");
    assert!(verify_bind_address(&bind).is_err());
    bind.request_meta.signature = sign(&message);
    assert_eq!(verify_bind_address(&bind), Ok(()));
    bind.request_meta.signature =
        sign_evm_personal_message_secp256k1(&other, message.as_bytes()).expect("signature");
    assert_eq!(verify_bind_address(&bind), Err("ethereum address mismatch".to_string()));

    let (keys, claim) = build_bind_session_keys_request(&mut skill, &cfg).expect("keys");
    let (mut keys, message) =
        prove_bind_session_keys_request(keys, &cfg, sign(&claim)).expect("proof");
    keys.request_meta.signature = sign(&message);
    assert_eq!(verify_bind_session_keys(&keys), Ok(()));

    let (mut ready, message) = build_room_ready_request(&skill, &cfg).expect("ready");
    ready.request_meta.signature = sign(&message);
    assert_eq!(verify_room_ready(&ready, &Some(address.clone())), Ok(()));
    assert_eq!(
        verify_room_ready(&ready, &None),
        Err("missing bound seat address".to_string())
    );

    let turn = collect_turn_decision_input(
        &cfg,
        snapshot(Some(1), HandStatus::Running),
        vec![LegalAction { action_type: ActionType::Check, min_amount: None, max_amount: None }],
        None,
        None,
    );
    let (mut act, message) = build_game_act_request(
        &mut skill,
        &cfg,
        &turn,
        ActionType::RaiseTo,
        Some(Chips(50)),
        &Some("0xtx".to_string()),
    )
    .expect("act");
    assert_eq!(act.amount.as_deref(), Some("50"));
    assert_eq!(act.action_type, "raiseto");
    act.request_meta.signature = sign(&message);
    assert_eq!(verify_game_act(&act, &Some(address.clone())), Ok(()));
    act.amount = Some("51".to_string());
    assert!(verify_game_act(&act, &Some(address)).is_err());

    let again =
        build_game_act_request(&mut skill, &cfg, &turn, ActionType::Check, None, &None);
    assert!(matches!(again, Err(RuntimeError::AgentSkill(_))));
}

#[test]
fn seats_are_prepared_in_order() {
    let mut step = PrepareStep::Join;
    let mut methods = Vec::new();
    while step != PrepareStep::Done {
        methods.push(step.method());
        step = prepare_seat(step, ResponseEnvelope::ok(())).expect("next");
    }
    assert_eq!(
        methods,
        vec!["room.join", "room.bind_address", "room.bind_session_keys", "room.ready"]
    );
    assert_eq!(
        prepare_seat(
            PrepareStep::Join,
            ResponseEnvelope::err(ErrorCode::RequestInvalid, "taken")
        ),
        Err(RuntimeError::RpcApp("RequestInvalid: taken".to_string()))
    );
}

#[test]
fn turns_are_found_and_played() {
    let cfg = config("0xseat");
    let ours = snapshot(Some(1), HandStatus::Running);
    assert_eq!(turn_state(&cfg, ResponseEnvelope::ok(Some(ours))), Ok(Some(ours)));
    let theirs = snapshot(Some(0), HandStatus::Running);
    assert_eq!(turn_state(&cfg, ResponseEnvelope::ok(Some(theirs))), Ok(None));
    assert_eq!(
        turn_state(&cfg, ResponseEnvelope::ok(None)),
        Err(RuntimeError::StateUnavailable)
    );
    let legal = vec![
        LegalAction { action_type: ActionType::Fold, min_amount: None, max_amount: None },
        LegalAction {
            action_type: ActionType::Call,
            min_amount: Some(Chips(20)),
            max_amount: Some(Chips(20)),
        },
        LegalAction { action_type: ActionType::AllIn, min_amount: None, max_amount: None },
    ];
    let turn = collect_turn_decision_input(&cfg, ours, legal, None, Some(json("[]")));
    assert_eq!(turn.policy_input.legal_actions, texts(&["fold", "call", "allin"]));
    assert_eq!(turn.action_seq, 3);
    let decided = run_single_action_if_turn(&turn).expect("decision");
    assert_eq!(decided.action_type, ActionType::Call);
    let amount =
        resolve_action_amount_from_legal_actions(&decided, &turn.legal_actions_raw).expect("cost");
    let payment = payment_for(&cfg, amount).expect("payment");
    assert_eq!(payment.value, Chips(20));
    assert_eq!(payment.to, "0xroom");
    assert_eq!(payment_for(&cfg, None), None);
    let outcome =
        execute_turn_decision(&turn, amount, Some("0xtx".to_string()), ResponseEnvelope::ok(()))
            .expect("outcome");
    assert_eq!(outcome.submitted_amount, Some(Chips(20)));
    assert_eq!(run_single_action_turn(Ok(None)), Err(RuntimeError::NotOurTurn));
    assert_eq!(run_single_action_turn(Err(RuntimeError::NotOurTurn)), Err(RuntimeError::NotOurTurn));

    let silent = collect_turn_decision_input(&cfg, ours, Vec::new(), None, None);
    assert_eq!(
        run_single_action_if_turn(&silent),
        Err(RuntimeError::Policy("no policy decision".to_string()))
    );
}

fn outcome() -> SingleActionRunOutcome {
    SingleActionRunOutcome {
        hand_id: HandId(8),
        action_seq: 3,
        submitted_amount: None,
        tx_hash: None,
    }
}

#[test]
fn the_first_seat_that_can_act_acts() {
    let (a, b) = (config("0xa"), config("0xb"));
    let seats = vec![SeatTurnRunnerInput { cfg: &a }, SeatTurnRunnerInput { cfg: &b }];
    assert_eq!(first_seat(&seats), SeatSearch::Try(0));
    assert_eq!(first_seat(&Vec::new()), SeatSearch::Nobody);
    assert_eq!(run_first_available_action(&seats, 0, Ok(None)), Ok(SeatSearch::Try(1)));
    assert_eq!(run_first_available_action(&seats, 1, Ok(None)), Ok(SeatSearch::Nobody));
    assert_eq!(
        run_first_available_action(&seats, 0, Ok(Some(outcome()))),
        Ok(SeatSearch::Acted(1, outcome()))
    );
    assert_eq!(
        run_first_available_action(&seats, 0, Err(RuntimeError::StateUnavailable)),
        Err(RuntimeError::StateUnavailable)
    );
}

#[test]
fn runtime_errors_say_what_happened() {
    let detail = || "x".to_string();
    assert_eq!(RuntimeError::AgentSkill(detail()).message(), "agent skill error: x");
    assert_eq!(RuntimeError::Http(detail()).message(), "http error: x");
    assert_eq!(RuntimeError::RpcMissingResult.message(), "rpc response missing result");
    assert_eq!(RuntimeError::RpcApp(detail()).message(), "rpc application error: x");
    assert_eq!(RuntimeError::Wallet(detail()).message(), "wallet error: x");
    assert_eq!(RuntimeError::NotOurTurn.message(), "not our turn");
    assert_eq!(RuntimeError::StateUnavailable.message(), "state unavailable");
    assert_eq!(RuntimeError::Policy(detail()).message(), "policy error: x");
    assert_eq!(RuntimeError::Crypto(detail()).message(), "crypto error: x");
    assert_eq!(
        wallet_error(&WalletAdapterError::NotConfigured),
        RuntimeError::Wallet("wallet not configured".to_string())
    );
}

#[test]
fn mock_wallet_adapter_returns_tx_hash() {
    let adapter = MockEvmWalletAdapter;
    let receipt = adapter
        .transfer_to_room(EvmTransferRequest {
            room_id: RoomId::new(),
            from: "0xfrom".to_string(),
            to: "0xto".to_string(),
            value: Chips(10),
            chain_id: 71,
        })
        .expect("transfer");
    assert!(receipt.submitted);
    assert!(receipt.tx_hash.starts_with("0x"));
    assert_eq!(receipt.tx_hash.len(), 34);
    let signature = adapter.sign_personal_message("0xfrom", &vec![1]).expect("signature");
    assert_eq!(signature, format!("0x{}", "00".repeat(65)));
}

#[test]
fn parse_hex_u64_works_for_evm_quantities() {
    assert_eq!(parse_hex_u64("0x0").expect("zero"), 0);
    assert_eq!(parse_hex_u64("0x1").expect("one"), 1);
    assert_eq!(parse_hex_u64("0x10").expect("sixteen"), 16);
}

#[test]
fn wallets_speak_in_quantities() {
    let request = EvmTransferRequest {
        room_id: RoomId(1),
        from: "0xa".to_string(),
        to: "0xb".to_string(),
        value: Chips(255),
        chain_id: 71,
    };
    let call = value(&transfer_call(&request));
    assert_eq!(call["method"], "eth_sendTransaction");
    assert_eq!(call["jsonrpc"], "2.0");
    assert_eq!(call["id"], 1);
    assert_eq!(call["params"][0]["value"], "0xff");
    assert_eq!(parse_hex_u64("0xff"), Ok(255));
    let call = value(&sign_call("0xa", &vec![0xab, 0x01]));
    assert_eq!(call["params"][0], "0xab01");
    assert_eq!(call["params"][1], "0xa");
    assert_eq!(call_json("eth_chainId", Json::Array(Vec::new())).to_text(),
        "{\"jsonrpc\":\"2.0\",\"id\":1,\"method\":\"eth_chainId\",\"params\":[]}");
    assert_eq!(chain_id(Ok("0x7a69".to_string())), Ok(31_337));
    assert_eq!(
        parse_hex_u64("0xq"),
        Err(WalletAdapterError::Parse("invalid digit found in string".to_string()))
    );
}

#[test]
fn receipts_tell_of_success() {
    assert_eq!(get_tx_receipt_status("0xtx", None), Ok(None));
    let status = get_tx_receipt_status(
        "0xtx",
        Some(EthTransactionReceipt {
            status: Some("0x1".to_string()),
            confirmations: Some("0x2".to_string()),
        }),
    )
    .expect("status")
    .expect("some");
    assert_eq!(status.success, Some(true));
    assert_eq!(status.confirmations, Some(2));
    let status = get_tx_receipt_status(
        "0xtx",
        Some(EthTransactionReceipt { status: Some("0x0".to_string()), confirmations: None }),
    )
    .expect("status")
    .expect("some");
    assert_eq!(status.success, Some(false));
    assert_eq!(status.confirmations, None);
    let fault = get_tx_receipt_status(
        "0xtx",
        Some(EthTransactionReceipt { status: None, confirmations: Some("x".to_string()) }),
    );
    assert!(matches!(fault, Err(WalletAdapterError::Parse(_))));
}

#[test]
fn wallet_errors_come_from_the_node() {
    let reply: JsonRpcResponse<u8> = JsonRpcResponse {
        result: None,
        error: Some(JsonRpcErrorObj { code: 7, message: "no".to_string() }),
    };
    let error = rpc_call_result(reply).expect_err("error");
    assert_eq!(error.message(), "rpc error: code=7 message=no");
    let reply: JsonRpcResponse<u8> = JsonRpcResponse { result: None, error: None };
    assert_eq!(rpc_call_result(reply).expect_err("none").message(), "rpc error: missing result");
    assert_eq!(WalletAdapterError::RpcUnavailable.message(), "rpc unavailable");
    assert_eq!(WalletAdapterError::Http("x".to_string()).message(), "http error: x");
    assert_eq!(WalletAdapterError::Parse("x".to_string()).message(), "parse error: x");
}

fn said(text: &str) -> Option<String> {
    Some(text.to_string())
}

#[test]
fn variables_are_read() {
    assert_eq!(env_required("A", None), Err("missing required env: A".to_string()));
    assert_eq!(env_required("A", said("  ")), Err("required env A is empty".to_string()));
    assert_eq!(env_required("A", said("x")), Ok("x".to_string()));
    assert_eq!(env_optional(said(" \t")), None);
    assert_eq!(env_parse_u64("N", None, 4), Ok(4));
    assert_eq!(env_parse_u64("N", said("12"), 4), Ok(12));
    assert_eq!(env_parse_u64("N", said("x"), 4), Err("invalid N: x".to_string()));
    assert_eq!(env_parse_room_id_optional("R", None), Ok(None));
    assert_eq!(
        env_parse_room_id_optional("R", said("00000000-0000-0000-0000-000000000009")),
        Ok(Some(RoomId(9)))
    );
    assert_eq!(env_parse_room_id_optional("R", said("?")), Err("invalid R: ?".to_string()));
    assert_eq!(parse_policy_mode(None), PolicyMode::Rule);
    assert_eq!(parse_policy_mode(said("CODEX_cli")), PolicyMode::CodexCli);
    assert_eq!(parse_policy_mode(said("other")), PolicyMode::Rule);
    assert_eq!(parse_codex_cli_args(said("  -c  run\tfast ")), texts(&["-c", "run", "fast"]));
    assert!(parse_codex_cli_args(None).is_empty());
}

fn variables() -> SeatVariables {
    SeatVariables {
        rpc_endpoint: said("http://host"),
        seat_id: said("258"),
        seat_address: said("0xseat"),
        room_chain_address: said("0xroom"),
        tx_value: None,
        card_encrypt_pubkey_hex: said("aa"),
        card_encrypt_secret_hex: said(" "),
    }
}

#[test]
fn seats_are_configured_by_variables() {
    let cfg = build_config(71, RoomId(1), variables()).expect("config");
    assert_eq!(cfg.seat_id, 2);
    assert_eq!(cfg.tx_value, Chips(1));
    assert_eq!(cfg.card_encrypt_secret_hex, None);
    let mut vars = variables();
    vars.seat_address = None;
    assert_eq!(
        build_config(71, RoomId(1), vars),
        Err("missing required env: SEAT_ADDRESS".to_string())
    );
    let mut vars = variables();
    vars.tx_value = said("lots");
    assert_eq!(build_config(71, RoomId(1), vars), Err("invalid TX_VALUE: lots".to_string()));
}

#[test]
fn addresses_for_events_follow_those_for_calls() {
    assert_eq!(derive_ws_endpoint("http://host:1"), "ws://host:1");
    assert_eq!(derive_ws_endpoint("https://host"), "wss://host");
    assert_eq!(derive_ws_endpoint("ws://host"), "ws://host");
}

#[test]
fn cards_and_coins_are_shown() {
    assert_eq!(card_index_to_notation(0).as_deref(), Some("2s"));
    assert_eq!(card_index_to_notation(12).as_deref(), Some("As"));
    assert_eq!(card_index_to_notation(21).as_deref(), Some("Tc"));
    assert_eq!(card_index_to_notation(51).as_deref(), Some("Ad"));
    assert_eq!(card_index_to_notation(52), None);
    let all: HashSet<Option<String>> = (0..52).map(card_index_to_notation).collect();
    assert_eq!(all.len(), 52);
    let state = json("{\"decrypted_hole_cards\":[{\"cards\":[0,25]},{\"cards\":[]}]}");
    assert_eq!(pretty_hole_cards(&state), Some(vec![texts(&["2s", "Ac"]), Vec::new()]));
    assert_eq!(pretty_hole_cards(&json("{\"decrypted_hole_cards\":[{\"cards\":[52]}]}")), None);
    assert_eq!(pretty_hole_cards(&json("{\"decrypted_hole_cards\":[{}]}")), None);
    assert_eq!(pretty_hole_cards(&json("{}")), None);

    assert_eq!(format_wei_as_eth(0), "0.0 ETH");
    assert_eq!(format_wei_as_eth(1), "0.000000000000000001 ETH");
    assert_eq!(format_wei_as_eth(1_500_000_000_000_000_000), "1.5 ETH");
    assert_eq!(format_wei_as_eth(20_000_000_000_000_000_000), "20.0 ETH");
}

#[test]
fn numbers_in_payloads_may_be_texts() {
    let payload = json("{\"a\":7,\"b\":\"8\",\"c\":-1,\"d\":null}");
    assert_eq!(payload_u64(&payload, "a"), Some(7));
    assert_eq!(payload_u64(&payload, "b"), Some(8));
    assert_eq!(payload_u64(&payload, "c"), None);
    assert_eq!(payload_u64(&payload, "d"), None);
    assert_eq!(payload_u64(&payload, "e"), None);
}

fn room(id: u128, status: &str) -> RoomSummary {
    RoomSummary { room_id: RoomId(id), status: status.to_string(), chain_address: None }
}

#[test]
fn rooms_are_selected() {
    let none = || ResponseEnvelope { ok: true, data: None, error: None };
    assert_eq!(resolve_room_id(Some(RoomId(3)), none()), Ok(RoomId(3)));
    let rooms = vec![room(1, "closed"), room(2, "ACTIVE"), room(3, "active")];
    assert_eq!(resolve_room_id(None, ResponseEnvelope::ok(rooms)), Ok(RoomId(2)));
    let rooms = vec![room(1, "closed"), room(2, "paused")];
    assert_eq!(resolve_room_id(None, ResponseEnvelope::ok(rooms)), Ok(RoomId(1)));
    let fault = "room.list returned no rooms; provide ROOM_ID or create a room first";
    assert_eq!(resolve_room_id(None, none()), Err(fault.to_string()));
    let refused = ResponseEnvelope {
        ok: false,
        data: None,
        error: Some(ErrorBody { code: ErrorCode::RoomListFailed, message: "db".to_string() }),
    };
    assert_eq!(
        resolve_room_id(None, refused),
        Err("room.list failed: RoomListFailed: db".to_string())
    );
}

#[test]
fn cards_of_a_hand_are_synced_once() {
    let cfg = config("0xseat");
    let mut synced = HashSet::new();
    assert_eq!(key_to_sync(&cfg, HandId(2), &synced), Ok(Some(vec![0x11; 32])));
    let events = vec![event("hole_cards_dealt", "{}")];
    let nothing = vec![PayloadReading::Refused];
    assert_eq!(sync_hole_cards_for_hand(HandId(2), &events, &nothing, &mut synced), None);
    assert!(synced.is_empty());
    let found = vec![PayloadReading::Document(json("{\"cards\":[0,1]}"))];
    let cards =
        sync_hole_cards_for_hand(HandId(2), &events, &found, &mut synced).expect("cards");
    assert_eq!(cards.raw.to_text(), "[{\"cards\":[0,1]}]");
    assert_eq!(cards.pretty, Some(vec![texts(&["2s", "3s"])]));
    assert_eq!(key_to_sync(&cfg, HandId(2), &synced), Ok(None));
    let mut broken = config("0xseat");
    broken.card_encrypt_secret_hex = said("zz");
    assert_eq!(
        key_to_sync(&broken, HandId(3), &synced),
        Err("invalid CARD_ENCRYPT_SECRET_HEX".to_string())
    );
    broken.card_encrypt_secret_hex = said("aa");
    assert_eq!(
        key_to_sync(&broken, HandId(3), &synced),
        Err("CARD_ENCRYPT_SECRET_HEX must decode to 32 bytes".to_string())
    );

    let at = |status| ResponseEnvelope::ok(Some(snapshot(None, status)));
    assert_eq!(sync_hole_cards_for_current_hand(at(HandStatus::Running)), Ok(Some(HandId(8))));
    assert_eq!(sync_hole_cards_for_current_hand(at(HandStatus::Settled)), Ok(None));
    assert_eq!(sync_hole_cards_for_current_hand(ResponseEnvelope::ok(None)), Ok(None));
    assert_eq!(
        sync_hole_cards_for_current_hand(ResponseEnvelope { ok: true, data: None, error: None }),
        Err("game.get_state missing data payload".to_string())
    );
}

#[test]
fn turns_are_tried_once_unless_errors_pass() {
    let cfg = config("0xseat");
    let turn = || {
        collect_turn_decision_input(
            &cfg,
            snapshot(Some(1), HandStatus::Running),
            Vec::new(),
            None,
            None,
        )
    };
    let mut keeper = TurnKeeper::new(4);
    assert!(keeper.is_new_turn(&turn()));
    assert!(!keeper.begin(&turn(), &Ok(None)));
    assert!(!keeper.begin(&turn(), &Err(RuntimeError::StateUnavailable)));
    assert!(keeper.is_new_turn(&turn()));
    assert!(keeper.begin(&turn(), &Ok(Some(turn()))));
    assert!(!keeper.is_new_turn(&turn()));
    let made = decision(ActionType::Fold, None);
    keeper.finish(&turn(), &made, &Err(RuntimeError::RpcApp("no".to_string())));
    assert!(!keeper.is_new_turn(&turn()));
    keeper.finish(&turn(), &made, &Err(RuntimeError::Wallet("busy".to_string())));
    assert!(keeper.is_new_turn(&turn()));
    assert!(keeper.begin(&turn(), &Ok(Some(turn()))));
    keeper.finish(&turn(), &made, &Ok(outcome()));
    assert!(!keeper.is_new_turn(&turn()));
    assert_eq!(value(&keeper.decisions.as_json())[0]["chosen_action"], "fold");
}

#[test]
fn turns_go_through_four_steps() {
    let cfg = config("0xseat");
    let legal =
        || vec![LegalAction { action_type: ActionType::Call, min_amount: None, max_amount: None }];
    let turn = |legal| {
        collect_turn_decision_input(
            &cfg,
            snapshot(Some(1), HandStatus::Running),
            legal,
            None,
            None,
        )
    };
    let mode = PolicyMode::CodexCli;
    let mut keeper = TurnKeeper::new(4);
    let step = keeper.maybe_execute_turn(mode, TurnEvent::Collected(Ok(None)));
    assert!(matches!(step, TurnStep::Stop(Ok(()))));
    let failed = Err(RuntimeError::StateUnavailable);
    let step = keeper.maybe_execute_turn(mode, TurnEvent::Collected(failed));
    assert!(matches!(step, TurnStep::Stop(Err(RuntimeError::StateUnavailable))));

    let step = keeper.maybe_execute_turn(mode, TurnEvent::Collected(Ok(Some(turn(legal())))));
    let TurnStep::Ask(asked) = step else { panic!("the turn is new") };
    let step =
        keeper.maybe_execute_turn(mode, TurnEvent::Asked { turn: asked, tool: Ok(None) });
    let TurnStep::CollectAgain { turn: decided, decision } = step else {
        panic!("the rule decides")
    };
    assert_eq!(decision.action_type, ActionType::Call);
    let event =
        TurnEvent::CollectedAgain { turn: decided, decision, latest: Ok(Some(turn(legal()))) };
    let step = keeper.maybe_execute_turn(mode, event);
    let TurnStep::Execute { turn: begun, decision } = step else {
        panic!("the turn is the latest")
    };
    let event = TurnEvent::Executed { turn: begun, decision, outcome: Ok(outcome()) };
    assert!(matches!(keeper.maybe_execute_turn(mode, event), TurnStep::Stop(Ok(()))));
    let step = keeper.maybe_execute_turn(mode, TurnEvent::Collected(Ok(Some(turn(legal())))));
    assert!(matches!(step, TurnStep::Stop(Ok(()))), "the turn was tried");

    let undecided = TurnEvent::Asked { turn: turn(Vec::new()), tool: Ok(None) };
    assert!(matches!(keeper.maybe_execute_turn(mode, undecided), TurnStep::Stop(Ok(()))));
    let late = TurnEvent::CollectedAgain {
        turn: turn(legal()),
        decision: decision_of_fold(),
        latest: Ok(None),
    };
    assert!(matches!(keeper.maybe_execute_turn(mode, late), TurnStep::Stop(Ok(()))));
}

fn decision_of_fold() -> PolicyDecision {
    decision(ActionType::Fold, None)
}

#[test]
fn tools_decide_before_rules() {
    let cfg = config("0xseat");
    let legal =
        vec![LegalAction { action_type: ActionType::Check, min_amount: None, max_amount: None }];
    let turn = collect_turn_decision_input(
        &cfg,
        snapshot(Some(1), HandStatus::Running),
        legal,
        None,
        None,
    );
    let tool = || Ok(Some(decision(ActionType::Fold, None)));
    let chosen = decide_turn(PolicyMode::CodexCli, tool(), &turn).expect("decision");
    assert_eq!(chosen.action_type, ActionType::Fold);
    let chosen = decide_turn(PolicyMode::Rule, tool(), &turn).expect("decision");
    assert_eq!(chosen.action_type, ActionType::Check);
    let failed = Err(PolicyAdapterError::BackendUnavailable);
    let chosen = decide_turn(PolicyMode::CodexCli, failed, &turn).expect("decision");
    assert_eq!(chosen.source, PolicySource::Rule);
}

#[test]
fn subscriptions_have_names() {
    let reply = |text: &str| subscribe_turn_events(&json(text));
    let named = |name: &str| SubscribeReply::Subscribed(name.to_string());
    assert_eq!(reply("{\"id\":2,\"result\":\"x\"}"), SubscribeReply::Other);
    assert_eq!(reply("{\"method\":\"events\"}"), SubscribeReply::Other);
    assert_eq!(reply("{\"id\":1,\"result\":\"x\"}"), named("x"));
    assert_eq!(reply("{\"id\":1,\"result\":12}"), named("12"));
    assert_eq!(reply("{\"id\":1,\"result\":-12}"), named("-12"));
    assert_eq!(reply("{\"id\":1,\"result\":{\"data\":\"d\"}}"), named("d"));
    assert_eq!(reply("{\"id\":1,\"result\":{\"subscription_id\":\"s\"}}"), named("s"));
    assert_eq!(
        reply("{\"id\":1,\"error\":{\"code\":1}}"),
        SubscribeReply::Failed("websocket subscribe returned error: {\"code\":1}".to_string())
    );
    assert_eq!(
        reply("{\"id\":1}"),
        SubscribeReply::Failed(
            "websocket subscribe response missing subscription id: {\"id\":1}".to_string()
        )
    );
}

#[test]
fn events_are_planned() {
    let message = json("{\"method\":\"events\",\"params\":{\"result\":{\"event_name\":\"x\"}}}");
    assert_eq!(event_in(&message).expect("event").to_text(), "{\"event_name\":\"x\"}");
    assert!(event_in(&json("{\"method\":\"other\",\"params\":{\"result\":1}}")).is_none());
    let plan = plan_event("turn_started", Some(HandId(1)));
    assert_eq!(plan.sync_hand, Some(HandId(1)));
    assert!(plan.check_turn);
    let plan = plan_event("hand_started", Some(HandId(1)));
    assert_eq!(plan.sync_hand, Some(HandId(1)));
    assert!(!plan.check_turn);
    let plan = plan_event("hand_closed", Some(HandId(1)));
    assert_eq!(plan.sync_hand, None);
    assert!(!plan.check_turn);
    assert_eq!(next_backoff_ms(500), 1_000);
    assert_eq!(next_backoff_ms(8_000), 10_000);
    assert_eq!(next_backoff_ms(u64::MAX), 10_000);
}

#[test]
fn bots_check_call_or_fold() {
    let legal = |action_type| LegalAction { action_type, min_amount: None, max_amount: None };
    let all = vec![legal(ActionType::Fold), legal(ActionType::Call), legal(ActionType::Check)];
    assert_eq!(choose_action(&all).action_type, ActionType::Check);
    assert_eq!(
        choose_action(&vec![legal(ActionType::Fold), legal(ActionType::Call)]).action_type,
        ActionType::Call
    );
    assert_eq!(choose_action(&Vec::new()).action_type, ActionType::Fold);
    let running = snapshot(Some(1), HandStatus::Running);
    assert_eq!(demo_step(&running), DemoStep::Act(1));
    assert_eq!(demo_step(&snapshot(None, HandStatus::Running)), DemoStep::Wait);
    assert_eq!(
        demo_step(&snapshot(Some(1), HandStatus::Showdown)),
        DemoStep::Stop(HandStatus::Showdown)
    );
    let action = demo_action(&running, 1, &all);
    assert_eq!(action.hand_id, HandId(8));
    assert_eq!(action.action_seq, 3);
}
