use agent_poker::auth::{
    build_seat_key_binding_message, build_signing_message, canonical_params_json,
    consume_action_idempotency_key, consume_replay_nonce, sign_evm_personal_message_secp256k1,
    validate_request_window, verify_evm_personal_signature, verify_seat_key_binding_proof_evm,
    ActionIdempotencyKey, ActionIdempotencyStore, AuthError, InMemoryActionIdempotencyStore,
    InMemoryReplayNonceStore, ReplayNonceKey, ReplayNonceStore, SeatKeyBindingClaim,
    SignedRequestMeta, SigningMessageInput,
};
use agent_poker::domain::{AgentId, HandId, RequestId, RoomId, SessionId, Timestamp};
use agent_poker::evm::{
    evm_address_from_secp256k1_verifying_key, evm_personal_sign_hash, normalize_evm_address,
    EvmSigningKey,
};
use agent_poker::json::{Json, JsonNumber};

fn number(n: u64) -> Json {
    Json::Number(JsonNumber::Unsigned(n))
}

fn object(members: Vec<(&str, Json)>) -> Json {
    Json::Object(members.into_iter().map(|(key, value)| (key.to_string(), value)).collect())
}

fn moment(seconds: i64) -> Timestamp {
    Timestamp::new(seconds, 0).expect("moment")
}

#[test]
fn canonical_json_sorts_object_keys_recursively() {
    let input = object(vec![
        ("b", number(1)),
        ("a", object(vec![("z", number(2)), ("y", number(3))])),
    ]);

    let actual = canonical_params_json(&input).expect("canonical json");
    assert_eq!(actual, r#"{"a":{"y":3,"z":2},"b":1}"#);
}

#[test]
fn canonical_form_ignores_the_order_and_is_final() {
    let one = object(vec![("b", number(1)), ("a", Json::Null), ("\u{e9}", Json::Bool(true))]);
    let other = object(vec![("\u{e9}", Json::Bool(true)), ("a", Json::Null), ("b", number(1))]);
    let text = canonical_params_json(&one).expect("text");
    assert_eq!(text, canonical_params_json(&other).expect("text"));
    assert_eq!(text, "{\"a\":null,\"b\":1,\"\u{e9}\":true}");
    let again: serde_json::Value = serde_json::from_str(&text).expect("document");
    assert_eq!(again.to_string(), text);
}

#[test]
fn texts_in_documents_are_quoted() {
    let text = Json::Text("a\"b\\c\nd".to_string()).to_text();
    assert_eq!(text, "\"a\\\"b\\\\c\\nd\"");
    let list = Json::Array(vec![Json::Number(JsonNumber::Negative(-3)), Json::Null]);
    assert_eq!(list.to_text(), "[-3,null]");
}

#[test]
fn in_memory_replay_store_rejects_duplicates() {
    let mut store = InMemoryReplayNonceStore::new();
    let key = ReplayNonceKey {
        agent_id: AgentId::new(),
        request_id: RequestId::new(),
        request_nonce: "n1".to_string(),
    };

    store.consume_once(key.clone()).expect("first insert");
    let err = store.consume_once(key).expect_err("duplicate");
    assert_eq!(err.message(), AuthError::ReplayDetected.message());
}

#[test]
fn in_memory_idempotency_store_rejects_duplicates() {
    let mut store = InMemoryActionIdempotencyStore::new();
    let key = ActionIdempotencyKey {
        room_id: RoomId::new(),
        hand_id: HandId::new(),
        seat_id: 1,
        action_seq: 7,
    };

    store.consume_once(key.clone()).expect("first insert");
    let err = store.consume_once(key).expect_err("duplicate");
    assert_eq!(err.message(), AuthError::IdempotencyKeyConflict.message());
}

#[test]
fn validate_request_window_accepts_recent_timestamp() {
    let now = moment(1_700_000_000);
    let result = validate_request_window(now, moment(1_699_999_999), 5_000, 5_000);
    assert!(result.is_ok());
}

#[test]
fn validate_request_window_rejects_expired_timestamp() {
    let now = moment(1_700_000_000);
    let result = validate_request_window(now, moment(1_699_999_970), 1_000, 5_000);
    assert!(matches!(result, Err(AuthError::RequestExpired)));
}

#[test]
fn the_window_includes_its_ends() {
    let now = moment(1_700_000_000);
    assert_eq!(validate_request_window(now, moment(1_700_000_005), 1_000, 5_000), Ok(()));
    assert_eq!(
        validate_request_window(
            now,
            Timestamp::new(1_700_000_005, 1).expect("moment"),
            1_000,
            5_000
        ),
        Err(AuthError::RequestFromFuture)
    );
    assert_eq!(validate_request_window(now, moment(1_699_999_999), 1_000, 5_000), Ok(()));
    assert_eq!(
        validate_request_window(
            now,
            Timestamp::new(1_699_999_998, 999_999_999).expect("moment"),
            1_000,
            5_000
        ),
        Err(AuthError::RequestExpired)
    );
}

fn claim(seat_address: String) -> SeatKeyBindingClaim {
    SeatKeyBindingClaim {
        agent_id: None,
        session_id: None,
        room_id: RoomId(5),
        seat_id: 2,
        seat_address,
        card_encrypt_pubkey: "11".repeat(32),
        request_verify_pubkey: "22".repeat(32),
        key_algo: "x25519+evm".to_string(),
        issued_at: moment(1_700_000_000),
        expires_at: None,
    }
}

#[test]
fn seat_key_binding_message_is_stable() {
    let claim = SeatKeyBindingClaim {
        agent_id: None,
        session_id: None,
        room_id: RoomId::new(),
        seat_id: 1,
        seat_address: "cfx:abc".to_string(),
        card_encrypt_pubkey: "encpk".to_string(),
        request_verify_pubkey: "sigpk".to_string(),
        key_algo: "x25519+ed25519".to_string(),
        issued_at: Timestamp::now(),
        expires_at: None,
    };

    let msg = build_seat_key_binding_message(&claim);
    assert!(msg.contains("seat_address=cfx:abc"));
    assert!(msg.contains("key_algo=x25519+ed25519"));
}

#[test]
fn different_claims_are_signed_differently() {
    let plain = claim("0x01".to_string());
    let claims = vec![
        SeatKeyBindingClaim { agent_id: Some(AgentId(5)), ..claim("0x01".to_string()) },
        SeatKeyBindingClaim { session_id: Some(SessionId(5)), ..claim("0x01".to_string()) },
        SeatKeyBindingClaim { room_id: RoomId(6), ..claim("0x01".to_string()) },
        SeatKeyBindingClaim { seat_id: 21, ..claim("0x01".to_string()) },
        SeatKeyBindingClaim { card_encrypt_pubkey: String::new(), ..claim("0x01".to_string()) },
        SeatKeyBindingClaim { key_algo: "other".to_string(), ..claim("0x01".to_string()) },
        SeatKeyBindingClaim { issued_at: moment(1), ..claim("0x01".to_string()) },
        SeatKeyBindingClaim { expires_at: Some(moment(1)), ..claim("0x01".to_string()) },
        claim("0x02".to_string()),
    ];
    for other in &claims {
        assert_ne!(build_seat_key_binding_message(other), build_seat_key_binding_message(&plain));
    }
    assert_eq!(
        build_seat_key_binding_message(&claims[8]),
        format!(
            "room_id=00000000-0000-0000-0000-000000000005|seat_id=2|seat_address=0x02\
|card_encrypt_pubkey={}|request_verify_pubkey={}|key_algo=x25519+evm\
|issued_at=2023-11-14T22:13:20+00:00|expires_at=|agent_id=|session_id=",
            "11".repeat(32),
            "22".repeat(32)
        )
    );
}

#[test]
fn verify_evm_personal_signature_roundtrip() {
    let signing_key = EvmSigningKey::from_slice(&[7_u8; 32]).expect("evm key");
    let address = evm_address_from_secp256k1_verifying_key(&signing_key.verifying_key());
    let message = b"hello-evm-auth";
    let signature = sign_evm_personal_message_secp256k1(&signing_key, message).expect("sign");
    verify_evm_personal_signature(&address, message, &signature).expect("verify");
}

#[test]
fn verify_evm_personal_signature_rejects_mismatch_address() {
    let signing_key = EvmSigningKey::from_slice(&[7_u8; 32]).expect("evm key");
    let other_key = EvmSigningKey::from_slice(&[8_u8; 32]).expect("other key");
    let wrong_address = evm_address_from_secp256k1_verifying_key(&other_key.verifying_key());
    let message = b"hello-evm-auth";
    let signature = sign_evm_personal_message_secp256k1(&signing_key, message).expect("sign");
    let err =
        verify_evm_personal_signature(&wrong_address, message, &signature).expect_err("mismatch");
    assert!(matches!(err, AuthError::EthereumAddressMismatch));
}

#[test]
fn verify_seat_key_binding_proof_evm_roundtrip() {
    let signing_key = EvmSigningKey::from_slice(&[9_u8; 32]).expect("evm key");
    let seat_address = evm_address_from_secp256k1_verifying_key(&signing_key.verifying_key());
    let claim = claim(seat_address);
    let sig = sign_evm_personal_message_secp256k1(
        &signing_key,
        build_seat_key_binding_message(&claim).as_bytes(),
    )
    .expect("proof sig");

    verify_seat_key_binding_proof_evm(&claim, &sig).expect("verify");
}

#[test]
fn verify_seat_key_binding_proof_evm_rejects_mismatch_address() {
    let signing_key = EvmSigningKey::from_slice(&[9_u8; 32]).expect("evm key");
    let other_key = EvmSigningKey::from_slice(&[10_u8; 32]).expect("other key");
    let seat_address = evm_address_from_secp256k1_verifying_key(&other_key.verifying_key());
    let claim_for_sig =
        claim(evm_address_from_secp256k1_verifying_key(&signing_key.verifying_key()));
    let sig = sign_evm_personal_message_secp256k1(
        &signing_key,
        build_seat_key_binding_message(&claim_for_sig).as_bytes(),
    )
    .expect("proof sig");

    let mismatched_claim = SeatKeyBindingClaim { seat_address, ..claim_for_sig };
    let err = verify_seat_key_binding_proof_evm(&mismatched_claim, &sig).expect_err("mismatch");
    assert!(matches!(err, AuthError::EthereumAddressMismatch));
}

#[test]
fn addresses_are_those_of_the_chain() {
    let mut secret = [0_u8; 32];
    secret[31] = 1;
    let key = EvmSigningKey::from_slice(&secret).expect("key");
    assert_eq!(
        evm_address_from_secp256k1_verifying_key(&key.verifying_key()),
        "0x7e5f4552091a69125d5dfcb7b8c2659029395bdf"
    );
    assert_eq!(key.to_hex(), format!("{}1", "0".repeat(63)));
    assert!(EvmSigningKey::from_slice(&[0_u8; 32]).is_err());
    assert!(EvmSigningKey::from_slice(&[1_u8; 20]).is_err());
    assert!(EvmSigningKey::from_slice(&[1_u8; 33]).is_err());
    assert_eq!(normalize_evm_address(" 0xABCdef "), "0xabcdef");
}

#[test]
fn messages_are_hashed_as_wallets_do() {
    let digest = evm_personal_sign_hash(b"hello");
    let hex: String = digest.iter().map(|byte| format!("{byte:02x}")).collect();
    assert_eq!(hex, "50b2c43fd39106bafbba0da34fc430e1f91e3c96ea2acee2bc34119f92b37750");
}

#[test]
fn bad_signatures_have_their_reasons() {
    let key = EvmSigningKey::from_slice(&[7_u8; 32]).expect("key");
    let address = evm_address_from_secp256k1_verifying_key(&key.verifying_key());
    let message = b"hello";
    assert_eq!(
        verify_evm_personal_signature(&address, message, "0xzz"),
        Err(AuthError::InvalidEthereumSignature)
    );
    assert_eq!(
        verify_evm_personal_signature(&address, message, "0x00"),
        Err(AuthError::InvalidEthereumSignature)
    );
    let zeros = "00".repeat(65);
    assert_eq!(
        verify_evm_personal_signature(&address, message, &zeros),
        Err(AuthError::InvalidEthereumSignature)
    );
    let signature = sign_evm_personal_message_secp256k1(&key, message).expect("sign");
    assert_eq!(
        verify_evm_personal_signature(&address, b"other", &signature),
        Err(AuthError::EthereumAddressMismatch)
    );
    let upper = format!("0x{}", address[2..].to_uppercase());
    assert_eq!(verify_evm_personal_signature(&upper, message, &signature), Ok(()));
}

#[test]
fn signing_messages_name_everything() {
    let params = object(vec![("b", number(2)), ("a", number(1))]);
    let meta = SignedRequestMeta {
        request_id: RequestId(1),
        request_nonce: "nonce".to_string(),
        request_ts: moment(1_700_000_000),
        request_expiry_ms: 30_000,
        signature_pubkey_id: "key".to_string(),
        signature: String::new(),
    };
    let message = build_signing_message(&SigningMessageInput {
        method: "game.act",
        session_id: SessionId(2),
        room_id: Some(RoomId(3)),
        hand_id: Some("hand".to_string()),
        action_seq: Some(4),
        params: &params,
        meta: &meta,
    })
    .expect("message");
    assert_eq!(
        message,
        "method=game.act|session_id=00000000-0000-0000-0000-000000000002\
|room_id=00000000-0000-0000-0000-000000000003|hand_id=hand|action_seq=4\
|params={\"a\":1,\"b\":2}|request_id=00000000-0000-0000-0000-000000000001\
|request_nonce=nonce|request_ts=2023-11-14T22:13:20+00:00|request_expiry_ms=30000"
    );
}

fn message_of(method: &str, room: Option<u128>, turn: Option<u32>, nonce: &str) -> String {
    let params = object(vec![("amount", number(1))]);
    let meta = SignedRequestMeta {
        request_id: RequestId(1),
        request_nonce: nonce.to_string(),
        request_ts: moment(1_700_000_000),
        request_expiry_ms: 30_000,
        signature_pubkey_id: "key".to_string(),
        signature: String::new(),
    };
    build_signing_message(&SigningMessageInput {
        method,
        session_id: SessionId(2),
        room_id: room.map(RoomId),
        hand_id: None,
        action_seq: turn,
        params: &params,
        meta: &meta,
    })
    .expect("message")
}

#[test]
fn different_requests_are_signed_differently() {
    let messages = vec![
        message_of("game.act", Some(3), Some(4), "nonce"),
        message_of("game.ready", Some(3), Some(4), "nonce"),
        message_of("game.act", None, Some(4), "nonce"),
        message_of("game.act", Some(4), Some(4), "nonce"),
        message_of("game.act", Some(3), None, "nonce"),
        message_of("game.act", Some(3), Some(0), "nonce"),
        message_of("game.act", Some(3), Some(4), "nonce2"),
        message_of("game.act", Some(3), Some(4), ""),
    ];
    for i in 0..messages.len() {
        for j in 0..i {
            assert_ne!(messages[i], messages[j]);
        }
    }
    assert_eq!(
        message_of("a|session_id=b", None, None, "c").matches("|session_id=").count(),
        2
    );
}

#[test]
fn requests_are_consumed_once() {
    let mut nonces = InMemoryReplayNonceStore::new();
    let meta = SignedRequestMeta {
        request_id: RequestId(1),
        request_nonce: "nonce".to_string(),
        request_ts: moment(0),
        request_expiry_ms: 1,
        signature_pubkey_id: String::new(),
        signature: String::new(),
    };
    assert_eq!(consume_replay_nonce(&mut nonces, AgentId(1), &meta), Ok(()));
    assert_eq!(consume_replay_nonce(&mut nonces, AgentId(2), &meta), Ok(()));
    assert_eq!(
        consume_replay_nonce(&mut nonces, AgentId(1), &meta),
        Err(AuthError::ReplayDetected)
    );

    let mut actions = InMemoryActionIdempotencyStore::default();
    assert_eq!(consume_action_idempotency_key(&mut actions, RoomId(1), HandId(2), 3, 4), Ok(()));
    assert_eq!(consume_action_idempotency_key(&mut actions, RoomId(1), HandId(2), 3, 5), Ok(()));
    assert_eq!(
        consume_action_idempotency_key(&mut actions, RoomId(1), HandId(2), 3, 4),
        Err(AuthError::IdempotencyKeyConflict)
    );
}

#[test]
fn auth_errors_say_what_happened() {
    assert_eq!(AuthError::RequestExpired.message(), "request expired");
    assert_eq!(AuthError::RequestFromFuture.message(), "request timestamp too far in future");
    assert_eq!(
        AuthError::Serialization("x".to_string()).message(),
        "serialization error: x"
    );
    assert_eq!(
        AuthError::EthereumSignatureRecoveryFailed.message(),
        "ethereum signature recovery failed"
    );
    assert_eq!(AuthError::ReplayStoreUnavailable.message(), "replay store unavailable");
}
