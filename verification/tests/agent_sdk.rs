use agent_poker::agent_sdk::{
    ActionAttemptKey, AgentSkill, AgentSkillConfig, AgentSkillError, LocalActionAttemptStore,
    LocalAgentSkill, RetryDecision, RetryPolicy, RetryableErrorKind,
};
use agent_poker::domain::{ActionType, HandId, RoomId};
use agent_poker::rpc::SeatEventAad;

#[test]
fn retry_policy_respects_attempt_budget() {
    let policy = RetryPolicy { max_attempts: 2, ..RetryPolicy::default() };

    assert_eq!(policy.should_retry(1, RetryableErrorKind::Timeout), RetryDecision::Retry);
    assert_eq!(policy.should_retry(2, RetryableErrorKind::Timeout), RetryDecision::Stop);
}

#[test]
fn retries_depend_on_the_reason() {
    let policy = RetryPolicy { retry_on_timeout: false, ..RetryPolicy::default() };
    assert_eq!(policy.should_retry(1, RetryableErrorKind::Timeout), RetryDecision::Stop);
    assert_eq!(policy.should_retry(1, RetryableErrorKind::Transport), RetryDecision::Retry);
}

#[test]
fn local_action_attempt_store_rejects_duplicate_key() {
    let mut store = LocalActionAttemptStore::new();
    let key = ActionAttemptKey {
        room_id: RoomId::new(),
        hand_id: HandId::new(),
        seat_id: 1,
        action_seq: 3,
    };

    store.reserve(key.clone()).expect("first");
    let err = store.reserve(key).expect_err("duplicate");
    assert!(matches!(err, AgentSkillError::DuplicateActionAttempt));
}

fn connected() -> LocalAgentSkill {
    let mut skill = LocalAgentSkill::default();
    skill
        .connect(AgentSkillConfig {
            endpoint_http: "http://127.0.0.1:9000".to_string(),
            endpoint_ws: None,
            session_id: None,
        })
        .expect("connect");
    skill
}

#[test]
fn local_skill_builds_ready_and_bind_session_keys_requests() {
    let mut skill = connected();
    let room_id = RoomId::new();
    skill.join_room(room_id, 1).expect("join");
    let _bind_addr = skill.bind_seat_address("0xabc".to_string()).expect("bind seat addr");

    let ready = skill.build_room_ready_request().expect("ready req");
    assert_eq!(ready.room_id, room_id);
    assert_eq!(ready.seat_id, 1);

    let bind_keys = skill
        .build_bind_session_keys_request_unsigned("11".repeat(32), "x25519+evm".to_string())
        .expect("bind keys req");
    assert_eq!(bind_keys.room_id, room_id);
    assert_eq!(bind_keys.seat_id, 1);
    assert_eq!(bind_keys.seat_address, "0xabc");
    assert!(bind_keys.proof_signature.is_empty());
    assert!(bind_keys.request_verify_pubkey.is_empty());
}

#[test]
fn local_skill_builds_game_act_request() {
    let mut skill = connected();
    let room_id = RoomId::new();
    skill.join_room(room_id, 0).expect("join");
    let _ = skill.bind_seat_address("0xabc".to_string()).expect("bind address");
    let _ = skill
        .build_bind_session_keys_request_unsigned("11".repeat(32), "x25519+evm".to_string())
        .expect("bind keys");
    let hand_id = HandId::new();
    let req = skill
        .build_game_act_request(hand_id, 1, ActionType::Check, None, Some("0xtx".to_string()))
        .expect("act");
    assert_eq!(req.action_type, "check");
    assert_eq!(req.tx_hash.as_deref(), Some("0xtx"));
    assert_eq!(req.request_meta.request_expiry_ms, 30_000);

    let again = skill.build_game_act_request(hand_id, 1, ActionType::Check, None, None);
    assert_eq!(again, Err(AgentSkillError::DuplicateActionAttempt));
}

#[test]
fn a_seat_comes_before_requests() {
    let mut skill = LocalAgentSkill::default();
    assert_eq!(skill.join_room(RoomId::new(), 1), Err(AgentSkillError::NotConnected));
    assert_eq!(skill.build_room_ready_request(), Err(AgentSkillError::MissingSeatContext));
    assert_eq!(
        skill.build_get_state_request(None),
        Err(AgentSkillError::MissingSeatContext)
    );
    assert!(skill.observe().is_err());
}

#[test]
fn choices_are_tested_by_their_labels() {
    let skill = LocalAgentSkill::default();
    let legal = vec!["fold".to_string(), "raiseto".to_string()];
    assert_eq!(skill.validate_action_choice(&legal, ActionType::RaiseTo), Ok(()));
    assert!(skill.validate_action_choice(&legal, ActionType::AllIn).is_err());
}

#[test]
fn payloads_of_others_are_passed_over() {
    let mut skill = connected();
    let room_id = RoomId::new();
    skill.join_room(room_id, 1).expect("join");
    let aad = |seat_id: u8| SeatEventAad { room_id, hand_id: HandId::new(), seat_id, event_seq: 1 };
    let payloads = vec![
        (aad(1), Ok(vec![1, 2])),
        (aad(2), Err("not ours".to_string())),
        (aad(1), Ok(vec![3])),
    ];
    assert_eq!(
        skill.decrypt_private_payloads_placeholder(&payloads),
        Ok(vec![vec![1, 2], vec![3]])
    );
    let broken = vec![(aad(1), Err("broken".to_string()))];
    assert!(skill.decrypt_private_payloads_placeholder(&broken).is_err());
}
