//! How the client takes its seat and plays its turns.
use vstd::prelude::*;
use vstd::string::StringExecFns;

use crate::agent_sdk::{
    unsigned_meta, ActionAttemptKey, AgentSkill, AgentSkillConfig, AgentSkillError, LocalAgentSkill,
    RetryPolicy, SeatContext,
};
use crate::auth::{
    binding_message, build_seat_key_binding_message, SeatKeyBindingClaim, SignedRequestMeta,
};
use crate::client::policy::{
    rule_choice, PolicyAdapter, PolicyDecision, PolicyDecisionInput, PolicySource, RulePolicyAdapter,
};
use crate::client::wallet::{EvmTransferRequest, WalletAdapterError};
use crate::document::{member_text, member_value};
use crate::domain::action::{ActionType, LegalAction};
use crate::domain::events::{id_json, member, number_json, number_tree, object, text_json};
use crate::domain::game::{HandSnapshot, SeatId};
use crate::domain::ids::{id_text, uuid_text, HandId, RoomId};
use crate::domain::money::Chips;
use crate::evm::{bytes_of_hex, hex_decode, hex_error, is_hex};
use crate::json::{items_view, json_text, lemma_array_view, Json, JsonView};
use crate::platform::{ErrorBody, ResponseEnvelope};
use crate::rpc::{
    GameActRequest, GameGetPrivatePayloadsRequest, PrivatePayloadEvent, RoomBindAddressRequest,
    RoomBindSessionKeysRequest, RoomReadyRequest,
};
use crate::server::signatures::{
    act_json, act_params, bind_address_json, bind_address_params, bind_keys_json, bind_keys_params,
    ready_json, ready_params, text_to_sign, SignedText,
};
use crate::text::{copy_optional_text, decimal, decimal_text, owned, same_text};

verus! {

#[derive(Debug, PartialEq, Eq)]
pub enum RuntimeError {
    AgentSkill(String),
    Http(String),
    RpcMissingResult,
    RpcApp(String),
    Wallet(String),
    NotOurTurn,
    StateUnavailable,
    Policy(String),
    Crypto(String),
}

impl RuntimeError {
    pub open spec fn spec_message(self) -> Seq<char> {
        match self {
            RuntimeError::AgentSkill(detail) => "agent skill error: "@ + detail@,
            RuntimeError::Http(detail) => "http error: "@ + detail@,
            RuntimeError::RpcMissingResult => "rpc response missing result"@,
            RuntimeError::RpcApp(detail) => "rpc application error: "@ + detail@,
            RuntimeError::Wallet(detail) => "wallet error: "@ + detail@,
            RuntimeError::NotOurTurn => "not our turn"@,
            RuntimeError::StateUnavailable => "state unavailable"@,
            RuntimeError::Policy(detail) => "policy error: "@ + detail@,
            RuntimeError::Crypto(detail) => "crypto error: "@ + detail@,
        }
    }

    /// What the error says to a reader.
    pub fn message(&self) -> (text: String)
        ensures
            text@ == self.spec_message(),
    {
        match self {
            RuntimeError::AgentSkill(detail) => owned("agent skill error: ").concat(detail.as_str()),
            RuntimeError::Http(detail) => owned("http error: ").concat(detail.as_str()),
            RuntimeError::RpcMissingResult => owned("rpc response missing result"),
            RuntimeError::RpcApp(detail) => owned("rpc application error: ").concat(detail.as_str()),
            RuntimeError::Wallet(detail) => owned("wallet error: ").concat(detail.as_str()),
            RuntimeError::NotOurTurn => owned("not our turn"),
            RuntimeError::StateUnavailable => owned("state unavailable"),
            RuntimeError::Policy(detail) => owned("policy error: ").concat(detail.as_str()),
            RuntimeError::Crypto(detail) => owned("crypto error: ").concat(detail.as_str()),
        }
    }
}

/// Where the client plays, and with what.
#[derive(Debug, PartialEq, Eq)]
pub struct SingleActionRunnerConfig {
    pub rpc_endpoint: String,
    pub room_id: RoomId,
    pub seat_id: SeatId,
    pub seat_address: String,
    pub room_chain_address: String,
    pub chain_id: u64,
    pub tx_value: Chips,
    pub card_encrypt_pubkey_hex: String,
    pub card_encrypt_secret_hex: Option<String>,
}

/// What came of a turn.
#[derive(Debug, PartialEq, Eq)]
pub struct SingleActionRunOutcome {
    pub hand_id: HandId,
    pub action_seq: u32,
    pub submitted_amount: Option<Chips>,
    pub tx_hash: Option<String>,
}

/// The seat is taken and ready.
#[derive(Debug, Clone, Copy, PartialEq, Eq, Structural)]
pub struct PreparedSeatOutcome;

/// A turn, and what a decision about it may rest on.
#[derive(Debug, PartialEq, Eq)]
pub struct TurnDecisionInput {
    pub policy_input: PolicyDecisionInput,
    pub hand_id: HandId,
    pub action_seq: u32,
    pub legal_actions_raw: Vec<LegalAction>,
}

/// A seat that may have its turn.
#[derive(Debug)]
pub struct SeatTurnRunnerInput<'a> {
    pub cfg: &'a SingleActionRunnerConfig,
}

// Answers of the server.

/// What an answer says of a call that failed.
pub open spec fn call_failure(method: Seq<char>, error: JsonView) -> Seq<char> {
    let code = match member_value(error, "code"@) {
        Some(code) => code,
        None => JsonView::Null,
    };
    let message = match member_text(error, "message"@) {
        Some(message) => message,
        None => "unknown json-rpc error"@,
    };
    let data = match member_value(error, "data"@) {
        Some(data) => data,
        None => JsonView::Null,
    };
    "jsonrpc "@ + method + " failed: code="@ + json_text(code) + " message="@ + message + " data="@
        + json_text(data)
}

fn value_text(value: Option<&Json>) -> (text: String)
    ensures
        text@ == json_text(
            match value {
                Some(value) => value@,
                None => JsonView::Null,
            },
        ),
{
    match value {
        Some(value) => value.to_text(),
        None => Json::Null.to_text(),
    }
}

/// The result in the answer to a call; an error in the answer counts first.
pub fn http_rpc_call_result<'a>(method: &str, payload: &'a Json) -> (result: Result<
    &'a Json,
    RuntimeError,
>)
    ensures
        match (member_value(payload@, "error"@), member_value(payload@, "result"@)) {
            (Some(error), _) => {
                &&& result is Err
                &&& result->Err_0 is RpcApp
                &&& result->Err_0->RpcApp_0@ == call_failure(method@, error)
            },
            (None, None) => result == Err::<&Json, RuntimeError>(RuntimeError::RpcMissingResult),
            (None, Some(value)) => result is Ok && result->Ok_0@ == value,
        },
{
    match payload.get("error") {
        Some(error) => {
            let code = value_text(error.get("code"));
            let message = match error.text_at("message") {
                Some(message) => message,
                None => "unknown json-rpc error",
            };
            let data = value_text(error.get("data"));
            let mut text = String::from_str("jsonrpc ");
            text.append(method);
            text.append(" failed: code=");
            text.append(code.as_str());
            text.append(" message=");
            text.append(message);
            text.append(" data=");
            text.append(data.as_str());
            Err(RuntimeError::RpcApp(text))
        },
        None => match payload.get("result") {
            Some(result) => Ok(result),
            None => Err(RuntimeError::RpcMissingResult),
        },
    }
}

/// What a refusal says.
pub open spec fn refusal(error: Option<ErrorBody>, unknown: Seq<char>) -> Seq<char> {
    match error {
        Some(error) => error.code.spec_label() + ": "@ + error.message@,
        None => unknown,
    }
}

/// Writes what a refusal says.
pub fn refusal_text(error: &Option<ErrorBody>, unknown: &str) -> (text: String)
    ensures
        text@ == refusal(*error, unknown@),
{
    match error {
        Some(error) => {
            let mut text = String::from_str(error.code.label());
            text.append(": ");
            text.append(error.message.as_str());
            text
        },
        None => owned(unknown),
    }
}

/// What the server hands out, unless it refuses or hands out nothing.
pub fn envelope_ok<T>(env: ResponseEnvelope<T>) -> (data: Result<T, RuntimeError>)
    ensures
        !env.ok ==> data is Err && data->Err_0 is RpcApp && data->Err_0->RpcApp_0@ == refusal(
            env.error,
            "unknown rpc app error"@,
        ),
        env.ok ==> data == (match env.data {
            Some(data) => Ok::<T, RuntimeError>(data),
            None => Err::<T, RuntimeError>(RuntimeError::RpcMissingResult),
        }),
{
    if !env.ok {
        return Err(RuntimeError::RpcApp(refusal_text(&env.error, "unknown rpc app error")));
    }
    match env.data {
        Some(data) => Ok(data),
        None => Err(RuntimeError::RpcMissingResult),
    }
}

/// Whether the server agreed, whatever it hands out.
pub fn envelope_ok_unit(env: ResponseEnvelope<()>) -> (agreed: Result<(), RuntimeError>)
    ensures
        env.ok ==> agreed is Ok,
        !env.ok ==> agreed is Err && agreed->Err_0 is RpcApp && agreed->Err_0->RpcApp_0@ == refusal(
            env.error,
            "unknown rpc app error"@,
        ),
{
    if !env.ok {
        return Err(RuntimeError::RpcApp(refusal_text(&env.error, "unknown rpc app error")));
    }
    Ok(())
}

// What only the seat may see.

/// Why a secret key cannot be used.
pub open spec fn secret_fault(secret_hex: Seq<char>) -> Option<Seq<char>> {
    if !is_hex(secret_hex) {
        Some(hex_error(secret_hex))
    } else if bytes_of_hex(secret_hex).len() != 32 {
        Some("x25519 secret hex must decode to 32 bytes"@)
    } else {
        None
    }
}

/// The thirty-two bytes of a secret key.
pub fn parse_x25519_secret_hex(secret_hex: &str) -> (secret: Result<Vec<u8>, RuntimeError>)
    ensures
        match secret_fault(secret_hex@) {
            None => secret is Ok && secret->Ok_0@ == bytes_of_hex(secret_hex@)
                && secret->Ok_0@.len() == 32,
            Some(fault) => secret is Err && secret->Err_0 is Crypto && secret->Err_0->Crypto_0@
                == fault,
        },
{
    match hex_decode(secret_hex) {
        Err(fault) => Err(RuntimeError::Crypto(fault)),
        Ok(bytes) => if bytes.len() == 32 {
            Ok(bytes)
        } else {
            Err(RuntimeError::Crypto(owned("x25519 secret hex must decode to 32 bytes")))
        },
    }
}

impl PrivatePayloadEvent {
    /// The event as a document.
    pub open spec fn tree(self) -> JsonView {
        JsonView::Object(
            seq![
                member("room_id"@, JsonView::Text(uuid_text(self.room_id.0))),
                member("hand_id"@, JsonView::Text(uuid_text(self.hand_id.0))),
                member("seat_id"@, number_tree(self.seat_id as u64)),
                member("event_name"@, JsonView::Text(self.event_name@)),
                member("payload"@, self.payload@),
            ],
        )
    }

    /// The event as a document.
    pub fn to_json(&self) -> (value: Json)
        ensures
            value@ == self.tree(),
    {
        let mut members: Vec<(String, Json)> = Vec::new();
        members.push((owned("room_id"), id_json(self.room_id.0)));
        members.push((owned("hand_id"), id_json(self.hand_id.0)));
        members.push((owned("seat_id"), number_json(self.seat_id as u64)));
        members.push((owned("event_name"), text_json(self.event_name.as_str())));
        members.push((owned("payload"), self.payload.clone()));
        let value = object(members);
        assert(value@->Object_0 =~= self.tree()->Object_0);
        value
    }
}

/// What came of decrypting a payload.
#[derive(Debug, PartialEq, Eq)]
pub enum PayloadReading {
    /// The payload is none that was encrypted.
    NotEncrypted,
    /// The payload was encrypted for another key, or was changed.
    Refused,
    /// What was encrypted is no document.
    NoDocument,
    /// What was encrypted.
    Document(Json),
}

/// The documents that were found in the first `count` events, the oldest first.
pub open spec fn found_documents(
    events: Seq<PrivatePayloadEvent>,
    readings: Seq<PayloadReading>,
    count: nat,
) -> Seq<JsonView>
    decreases count,
{
    if count == 0 {
        Seq::empty()
    } else {
        let front = found_documents(events, readings, (count - 1) as nat);
        if events[count - 1].event_name@ == "hole_cards_dealt"@ && readings[count
            - 1] is Document {
            front.push(readings[count - 1]->Document_0@)
        } else {
            front
        }
    }
}

/// How many of the first `count` events could not be decrypted.
pub open spec fn refused_count(
    events: Seq<PrivatePayloadEvent>,
    readings: Seq<PayloadReading>,
    count: nat,
) -> nat
    decreases count,
{
    if count == 0 {
        0
    } else {
        refused_count(events, readings, (count - 1) as nat) + (if events[count - 1].event_name@
            == "hole_cards_dealt"@ && readings[count - 1] is Refused {
            1nat
        } else {
            0nat
        })
    }
}

/// A number that stops at the largest of thirty-two bits.
pub open spec fn held_back(n: nat) -> u64 {
    if n <= u32::MAX {
        n as u64
    } else {
        u32::MAX as u64
    }
}

/// What the seat knows alone, as a document: without a key, nothing is decrypted.
pub open spec fn private_state(
    events: Seq<PrivatePayloadEvent>,
    has_secret: bool,
    readings: Seq<PayloadReading>,
) -> JsonView {
    JsonView::Object(
        seq![
            member(
                "events"@,
                JsonView::Array(events.map_values(|event: PrivatePayloadEvent| event.tree())),
            ),
            member(
                "decrypted_hole_cards"@,
                JsonView::Array(
                    if has_secret {
                        found_documents(events, readings, events.len())
                    } else {
                        Seq::empty()
                    },
                ),
            ),
            member(
                "decrypt_failures"@,
                number_tree(
                    if has_secret {
                        held_back(refused_count(events, readings, events.len()))
                    } else {
                        0
                    },
                ),
            ),
        ],
    )
}

fn event_values(events: &Vec<PrivatePayloadEvent>) -> (value: Json)
    ensures
        value@ == JsonView::Array(events@.map_values(|event: PrivatePayloadEvent| event.tree())),
{
    let ghost told = |event: PrivatePayloadEvent| event.tree();
    let mut items: Vec<Json> = Vec::new();
    let mut i: usize = 0;
    while i < events.len()
        invariant
            i <= events.len(),
            items@.len() == i,
            forall|k: int| 0 <= k < i ==> (#[trigger] items@[k])@ == events@[k].tree(),
        decreases events.len() - i,
    {
        items.push(events[i].to_json());
        i = i + 1;
    }
    proof {
        lemma_array_view(items);
        assert(items_view(items@) =~= events@.map_values(told));
    }
    Json::Array(items)
}

/// What the seat knows alone, from its events and what came of decrypting each; nothing where
/// there are no events, and an error where the key is no key.
pub fn build_private_state_json(
    events: &Vec<PrivatePayloadEvent>,
    card_encrypt_secret_hex: &Option<String>,
    readings: &Vec<PayloadReading>,
) -> (state: Result<Option<Json>, RuntimeError>)
    requires
        readings@.len() == events@.len(),
    ensures
        events@.len() == 0 ==> state == Ok::<Option<Json>, RuntimeError>(None),
        events@.len() > 0 ==> match *card_encrypt_secret_hex {
            Some(secret_hex) if secret_fault(secret_hex@) is Some => {
                &&& state is Err
                &&& state->Err_0 is Crypto
                &&& state->Err_0->Crypto_0@ == secret_fault(secret_hex@)->0
            },
            _ => {
                &&& state is Ok
                &&& state->Ok_0 is Some
                &&& state->Ok_0->0@ == private_state(
                    events@,
                    card_encrypt_secret_hex is Some,
                    readings@,
                )
            },
        },
{
    if events.len() == 0 {
        return Ok(None);
    }
    let has_secret: bool = match card_encrypt_secret_hex {
        Some(secret_hex) => match parse_x25519_secret_hex(secret_hex.as_str()) {
            Ok(_) => true,
            Err(error) => {
                return Err(error);
            },
        },
        None => false,
    };
    let mut cards: Vec<Json> = Vec::new();
    let mut failures: u32 = 0;
    let mut i: usize = 0;
    assert(items_view(cards@) =~= found_documents(events@, readings@, 0));
    while i < events.len()
        invariant
            i <= events.len(),
            readings@.len() == events@.len(),
            has_secret ==> items_view(cards@) == found_documents(events@, readings@, i as nat),
            has_secret ==> failures == held_back(refused_count(events@, readings@, i as nat)),
            !has_secret ==> cards@.len() == 0 && failures == 0,
        decreases events.len() - i,
    {
        let ghost before = cards@;
        if has_secret && same_text(events[i].event_name.as_str(), "hole_cards_dealt") {
            match &readings[i] {
                PayloadReading::Document(value) => {
                    let copy = value.clone();
                    cards.push(copy);
                    assert(items_view(cards@) =~= items_view(before).push(copy@));
                },
                PayloadReading::Refused => {
                    if failures < u32::MAX {
                        failures = failures + 1;
                    }
                },
                PayloadReading::NotEncrypted => {},
                PayloadReading::NoDocument => {},
            }
        }
        i = i + 1;
    }
    proof {
        lemma_array_view(cards);
        if !has_secret {
            assert(items_view(cards@) =~= Seq::<JsonView>::empty());
        }
    }
    let mut members: Vec<(String, Json)> = Vec::new();
    members.push((owned("events"), event_values(events)));
    members.push((owned("decrypted_hole_cards"), Json::Array(cards)));
    members.push((owned("decrypt_failures"), number_json(failures as u64)));
    let value = object(members);
    assert(value@->Object_0 =~= private_state(events@, has_secret, readings@)->Object_0);
    Ok(Some(value))
}

// Requests of the seat.

/// An agent that sits on the seat.
pub fn connect_skill(cfg: &SingleActionRunnerConfig) -> (skill: Result<LocalAgentSkill, RuntimeError>)
    ensures
        skill is Ok,
        skill->Ok_0.connection() is Some,
        skill->Ok_0.connection()->0.endpoint_http@ == cfg.rpc_endpoint@,
        skill->Ok_0.connection()->0.endpoint_ws is None,
        skill->Ok_0.connection()->0.session_id is None,
        skill->Ok_0.session() is None,
        skill->Ok_0.policy() == (RetryPolicy {
            max_attempts: 3,
            retry_on_timeout: true,
            retry_on_transport_error: true,
        }),
        skill->Ok_0.seat() == Some(
            SeatContext {
                room_id: cfg.room_id,
                seat_id: cfg.seat_id,
                seat_address: None,
                request_signature_pubkey_id: None,
            },
        ),
        skill->Ok_0.attempts() == Set::<ActionAttemptKey>::empty(),
{
    let mut skill = LocalAgentSkill::default();
    match skill.connect(
        AgentSkillConfig {
            endpoint_http: cfg.rpc_endpoint.clone(),
            endpoint_ws: None,
            session_id: None,
        },
    ) {
        Ok(_) => {},
        Err(error) => {
            return Err(RuntimeError::AgentSkill(error.message()));
        },
    }
    match skill.join_room(cfg.room_id, cfg.seat_id) {
        Ok(_) => Ok(skill),
        Err(error) => Err(RuntimeError::AgentSkill(error.message())),
    }
}

/// Why a request cannot be made.
pub open spec fn is_skill_error<T>(made: Result<T, RuntimeError>, error: AgentSkillError) -> bool {
    made is Err && made->Err_0 is AgentSkill && made->Err_0->AgentSkill_0@ == error.spec_message()
}

/// Whether a text is what is signed of the seat's request.
pub open spec fn is_text_to_sign(
    text: Seq<char>,
    method: Seq<char>,
    room_id: RoomId,
    params: JsonView,
    meta: SignedRequestMeta,
) -> bool {
    text == (SignedText {
        method: method,
        room_id: room_id,
        hand_id: None,
        action_seq: None,
        params: params,
        meta: meta,
    }).text()
}

/// The message that the wallet signs, with the seat's address as the name of the key.
fn message_to_sign(
    cfg: &SingleActionRunnerConfig,
    method: &str,
    hand_id: Option<String>,
    action_seq: Option<u32>,
    params: &Json,
    meta: &mut SignedRequestMeta,
) -> (message: Result<String, RuntimeError>)
    ensures
        final(meta).signature_pubkey_id@ == cfg.seat_address@,
        *final(meta) == (SignedRequestMeta {
            signature_pubkey_id: final(meta).signature_pubkey_id,
            ..*old(meta)
        }),
        message is Ok,
        message->Ok_0@ == (SignedText {
            method: method@,
            room_id: cfg.room_id,
            hand_id: match hand_id {
                Some(text) => Some(text@),
                None => None,
            },
            action_seq: action_seq,
            params: params@,
            meta: *final(meta),
        }).text(),
{
    meta.signature_pubkey_id = cfg.seat_address.clone();
    match text_to_sign(method, cfg.room_id, hand_id, action_seq, params, meta) {
        Ok(message) => Ok(message),
        Err(error) => Err(RuntimeError::AgentSkill(error.message())),
    }
}

/// The wish to tie the seat to its address, and the message that the wallet signs for it.
pub fn build_bind_address_request(skill: &mut LocalAgentSkill, cfg: &SingleActionRunnerConfig) -> (made:
    Result<(RoomBindAddressRequest, String), RuntimeError>)
    ensures
        final(skill).connection() == old(skill).connection(),
        final(skill).session() == old(skill).session(),
        final(skill).policy() == old(skill).policy(),
        final(skill).attempts() == old(skill).attempts(),
        match old(skill).seat() {
            None => {
                &&& is_skill_error(made, AgentSkillError::MissingSeatContext)
                &&& final(skill).seat() is None
            },
            Some(seat) => {
                &&& made is Ok
                &&& made->Ok_0.0.room_id == seat.room_id
                &&& made->Ok_0.0.seat_id == seat.seat_id
                &&& made->Ok_0.0.seat_address@ == cfg.seat_address@
                &&& unsigned_meta(made->Ok_0.0.request_meta, cfg.seat_address@)
                &&& is_text_to_sign(
                    made->Ok_0.1@,
                    "room.bind_address"@,
                    cfg.room_id,
                    bind_address_params(made->Ok_0.0),
                    made->Ok_0.0.request_meta,
                )
                &&& final(skill).seat() is Some
                &&& final(skill).seat()->0 == (SeatContext {
                    seat_address: final(skill).seat()->0.seat_address,
                    ..seat
                })
                &&& final(skill).seat()->0.seat_address is Some
                &&& final(skill).seat()->0.seat_address->0@ == cfg.seat_address@
            },
        },
{
    let mut request = match skill.bind_seat_address(cfg.seat_address.clone()) {
        Ok(request) => request,
        Err(error) => {
            return Err(RuntimeError::AgentSkill(error.message()));
        },
    };
    let params = bind_address_json(&request);
    match message_to_sign(
        cfg,
        "room.bind_address",
        None,
        None,
        &params,
        &mut request.request_meta,
    ) {
        Ok(message) => Ok((request, message)),
        Err(error) => Err(error),
    }
}

/// What a seat claims of its keys.
pub open spec fn claim_of(request: RoomBindSessionKeysRequest) -> SeatKeyBindingClaim {
    SeatKeyBindingClaim {
        agent_id: None,
        session_id: None,
        room_id: request.room_id,
        seat_id: request.seat_id,
        seat_address: request.seat_address,
        card_encrypt_pubkey: request.card_encrypt_pubkey,
        request_verify_pubkey: request.request_verify_pubkey,
        key_algo: request.key_algo,
        issued_at: request.request_meta.request_ts,
        expires_at: None,
    }
}

/// The wish to tie the seat to its keys, and the claim that the wallet signs as a proof.
pub fn build_bind_session_keys_request(
    skill: &mut LocalAgentSkill,
    cfg: &SingleActionRunnerConfig,
) -> (made: Result<(RoomBindSessionKeysRequest, String), RuntimeError>)
    ensures
        *final(skill) == *old(skill),
        match old(skill).seat() {
            Some(SeatContext { room_id, seat_id, seat_address: Some(address), .. }) => {
                &&& made is Ok
                &&& made->Ok_0.0.room_id == room_id
                &&& made->Ok_0.0.seat_id == seat_id
                &&& made->Ok_0.0.seat_address@ == address@
                &&& made->Ok_0.0.card_encrypt_pubkey@ == cfg.card_encrypt_pubkey_hex@
                &&& made->Ok_0.0.request_verify_pubkey@ == Seq::<char>::empty()
                &&& made->Ok_0.0.key_algo@ == "x25519+evm"@
                &&& made->Ok_0.0.proof_signature@ == Seq::<char>::empty()
                &&& unsigned_meta(made->Ok_0.0.request_meta, address@)
                &&& made->Ok_0.1@ == binding_message(claim_of(made->Ok_0.0))
            },
            _ => is_skill_error(made, AgentSkillError::MissingSeatContext),
        },
{
    let request = match skill.build_bind_session_keys_request_unsigned(
        cfg.card_encrypt_pubkey_hex.clone(),
        owned("x25519+evm"),
    ) {
        Ok(request) => request,
        Err(error) => {
            return Err(RuntimeError::AgentSkill(error.message()));
        },
    };
    let claim = SeatKeyBindingClaim {
        agent_id: None,
        session_id: None,
        room_id: request.room_id,
        seat_id: request.seat_id,
        seat_address: request.seat_address.clone(),
        card_encrypt_pubkey: request.card_encrypt_pubkey.clone(),
        request_verify_pubkey: request.request_verify_pubkey.clone(),
        key_algo: request.key_algo.clone(),
        issued_at: request.request_meta.request_ts,
        expires_at: None,
    };
    assert(claim == claim_of(request));
    let message = build_seat_key_binding_message(&claim);
    Ok((request, message))
}

/// The wish to tie the seat to its keys with the proof that the wallet gave, and the message
/// that the wallet signs for it.
pub fn prove_bind_session_keys_request(
    request: RoomBindSessionKeysRequest,
    cfg: &SingleActionRunnerConfig,
    proof_signature: String,
) -> (made: Result<(RoomBindSessionKeysRequest, String), RuntimeError>)
    ensures
        made is Ok,
        made->Ok_0.0.request_meta.signature_pubkey_id@ == cfg.seat_address@,
        made->Ok_0.0 == (RoomBindSessionKeysRequest {
            proof_signature: proof_signature,
            request_meta: SignedRequestMeta {
                signature_pubkey_id: made->Ok_0.0.request_meta.signature_pubkey_id,
                ..request.request_meta
            },
            ..request
        }),
        is_text_to_sign(
            made->Ok_0.1@,
            "room.bind_session_keys"@,
            cfg.room_id,
            bind_keys_params(made->Ok_0.0),
            made->Ok_0.0.request_meta,
        ),
{
    let mut proven = request;
    proven.proof_signature = proof_signature;
    let params = bind_keys_json(&proven);
    match message_to_sign(
        cfg,
        "room.bind_session_keys",
        None,
        None,
        &params,
        &mut proven.request_meta,
    ) {
        Ok(message) => Ok((proven, message)),
        Err(error) => Err(error),
    }
}

fn build_seat_request(
    skill: &LocalAgentSkill,
    cfg: &SingleActionRunnerConfig,
    method: &str,
) -> (made: Result<(RoomReadyRequest, String), RuntimeError>)
    ensures
        match skill.seat() {
            None => is_skill_error(made, AgentSkillError::MissingSeatContext),
            Some(seat) => {
                &&& made is Ok
                &&& made->Ok_0.0.room_id == seat.room_id
                &&& made->Ok_0.0.seat_id == seat.seat_id
                &&& unsigned_meta(made->Ok_0.0.request_meta, cfg.seat_address@)
                &&& is_text_to_sign(
                    made->Ok_0.1@,
                    method@,
                    cfg.room_id,
                    ready_params(made->Ok_0.0),
                    made->Ok_0.0.request_meta,
                )
            },
        },
{
    let mut request = match skill.build_room_ready_request() {
        Ok(request) => request,
        Err(error) => {
            return Err(RuntimeError::AgentSkill(error.message()));
        },
    };
    let params = ready_json(&request);
    match message_to_sign(cfg, method, None, None, &params, &mut request.request_meta) {
        Ok(message) => Ok((request, message)),
        Err(error) => Err(error),
    }
}

/// The word that the seat is ready, and the message that the wallet signs for it.
pub fn build_room_ready_request(skill: &LocalAgentSkill, cfg: &SingleActionRunnerConfig) -> (made:
    Result<(RoomReadyRequest, String), RuntimeError>)
    ensures
        match skill.seat() {
            None => is_skill_error(made, AgentSkillError::MissingSeatContext),
            Some(seat) => {
                &&& made is Ok
                &&& made->Ok_0.0.room_id == seat.room_id
                &&& made->Ok_0.0.seat_id == seat.seat_id
                &&& unsigned_meta(made->Ok_0.0.request_meta, cfg.seat_address@)
                &&& is_text_to_sign(
                    made->Ok_0.1@,
                    "room.ready"@,
                    cfg.room_id,
                    ready_params(made->Ok_0.0),
                    made->Ok_0.0.request_meta,
                )
            },
        },
{
    build_seat_request(skill, cfg, "room.ready")
}

/// The wish to take the seat, and the message that the wallet signs for it.
pub fn build_room_join_request(skill: &LocalAgentSkill, cfg: &SingleActionRunnerConfig) -> (made:
    Result<(RoomReadyRequest, String), RuntimeError>)
    ensures
        match skill.seat() {
            None => is_skill_error(made, AgentSkillError::MissingSeatContext),
            Some(seat) => {
                &&& made is Ok
                &&& made->Ok_0.0.room_id == seat.room_id
                &&& made->Ok_0.0.seat_id == seat.seat_id
                &&& unsigned_meta(made->Ok_0.0.request_meta, cfg.seat_address@)
                &&& is_text_to_sign(
                    made->Ok_0.1@,
                    "room.join"@,
                    cfg.room_id,
                    ready_params(made->Ok_0.0),
                    made->Ok_0.0.request_meta,
                )
            },
        },
{
    build_seat_request(skill, cfg, "room.join")
}

/// The steps by which a seat is taken.
#[derive(Debug, Clone, Copy, PartialEq, Eq, Structural)]
pub enum PrepareStep {
    Join,
    BindAddress,
    BindSessionKeys,
    Ready,
    Done,
}

impl PrepareStep {
    pub open spec fn spec_method(self) -> Seq<char> {
        match self {
            PrepareStep::Join => "room.join"@,
            PrepareStep::BindAddress => "room.bind_address"@,
            PrepareStep::BindSessionKeys => "room.bind_session_keys"@,
            PrepareStep::Ready => "room.ready"@,
            PrepareStep::Done => ""@,
        }
    }

    /// What the server is asked for.
    pub fn method(self) -> (method: &'static str)
        ensures
            method@ == self.spec_method(),
    {
        match self {
            PrepareStep::Join => "room.join",
            PrepareStep::BindAddress => "room.bind_address",
            PrepareStep::BindSessionKeys => "room.bind_session_keys",
            PrepareStep::Ready => "room.ready",
            PrepareStep::Done => "",
        }
    }

    /// The step after this one.
    pub open spec fn following(self) -> PrepareStep {
        match self {
            PrepareStep::Join => PrepareStep::BindAddress,
            PrepareStep::BindAddress => PrepareStep::BindSessionKeys,
            PrepareStep::BindSessionKeys => PrepareStep::Ready,
            PrepareStep::Ready => PrepareStep::Done,
            PrepareStep::Done => PrepareStep::Done,
        }
    }
}

/// What follows the server's answer to a step: a refusal ends it all.
pub fn prepare_seat(step: PrepareStep, answer: ResponseEnvelope<()>) -> (next: Result<
    PrepareStep,
    RuntimeError,
>)
    ensures
        answer.ok ==> next == Ok::<PrepareStep, RuntimeError>(step.following()),
        !answer.ok ==> next is Err && next->Err_0 is RpcApp && next->Err_0->RpcApp_0@ == refusal(
            answer.error,
            "unknown rpc app error"@,
        ),
{
    match envelope_ok_unit(answer) {
        Err(error) => Err(error),
        Ok(_) => Ok(
            match step {
                PrepareStep::Join => PrepareStep::BindAddress,
                PrepareStep::BindAddress => PrepareStep::BindSessionKeys,
                PrepareStep::BindSessionKeys => PrepareStep::Ready,
                PrepareStep::Ready => PrepareStep::Done,
                PrepareStep::Done => PrepareStep::Done,
            },
        ),
    }
}

/// A seat is ready exactly after it was taken, tied to its address and tied to its keys.
pub proof fn seat_is_ready_after_four_steps()
    ensures
        PrepareStep::Join.following() == PrepareStep::BindAddress,
        PrepareStep::Join.following().following() == PrepareStep::BindSessionKeys,
        PrepareStep::Join.following().following().following() == PrepareStep::Ready,
        PrepareStep::Join.following().following().following().following() == PrepareStep::Done,
        forall|step: PrepareStep| #[trigger] step.following() == PrepareStep::Done <==> step
            == PrepareStep::Ready || step == PrepareStep::Done,
{
}

// Turns.

/// The hand, where it is the seat's turn in it.
pub fn turn_state(cfg: &SingleActionRunnerConfig, answer: ResponseEnvelope<Option<HandSnapshot>>) -> (state:
    Result<Option<HandSnapshot>, RuntimeError>)
    ensures
        !answer.ok ==> state is Err && state->Err_0 is RpcApp && state->Err_0->RpcApp_0@ == refusal(
            answer.error,
            "unknown rpc app error"@,
        ),
        answer.ok ==> state == (match answer.data {
            None => Err::<Option<HandSnapshot>, RuntimeError>(RuntimeError::RpcMissingResult),
            Some(None) => Err::<Option<HandSnapshot>, RuntimeError>(RuntimeError::StateUnavailable),
            Some(Some(state)) => Ok::<Option<HandSnapshot>, RuntimeError>(
                if state.acting_seat_id == Some(cfg.seat_id) {
                    Some(state)
                } else {
                    None
                },
            ),
        }),
{
    let found = match envelope_ok(answer) {
        Ok(found) => found,
        Err(error) => {
            return Err(error);
        },
    };
    match found {
        None => Err(RuntimeError::StateUnavailable),
        Some(state) => match state.acting_seat_id {
            Some(seat) => if seat == cfg.seat_id {
                Ok(Some(state))
            } else {
                Ok(None)
            },
            None => Ok(None),
        },
    }
}

/// The names of choices.
pub open spec fn choice_names(actions: Seq<LegalAction>) -> Seq<Seq<char>> {
    actions.map_values(|action: LegalAction| action.action_type.spec_label())
}

/// The texts as mathematical values.
pub open spec fn texts(values: Seq<String>) -> Seq<Seq<char>> {
    values.map_values(|value: String| value@)
}

fn names_of(actions: &Vec<LegalAction>) -> (names: Vec<String>)
    ensures
        texts(names@) == choice_names(actions@),
{
    let mut names: Vec<String> = Vec::new();
    let mut i: usize = 0;
    while i < actions.len()
        invariant
            i <= actions.len(),
            names@.len() == i,
            forall|k: int|
                0 <= k < i ==> (#[trigger] names@[k])@ == actions@[k].action_type.spec_label(),
        decreases actions.len() - i,
    {
        names.push(owned(actions[i].action_type.label()));
        i = i + 1;
    }
    assert(texts(names@) =~= choice_names(actions@));
    names
}

/// Asks for what only the seat may see of the hand.
pub fn private_payloads_request(cfg: &SingleActionRunnerConfig, hand_id: HandId) -> (request:
    GameGetPrivatePayloadsRequest)
    ensures
        request == (GameGetPrivatePayloadsRequest {
            room_id: cfg.room_id,
            seat_id: cfg.seat_id,
            hand_id: Some(hand_id),
        }),
{
    GameGetPrivatePayloadsRequest {
        room_id: cfg.room_id,
        seat_id: cfg.seat_id,
        hand_id: Some(hand_id),
    }
}

/// The turn that a decision is about.
pub fn collect_turn_decision_input(
    cfg: &SingleActionRunnerConfig,
    state: HandSnapshot,
    legal_actions: Vec<LegalAction>,
    private_state_json: Option<Json>,
    decision_context_json: Option<Json>,
) -> (turn: TurnDecisionInput)
    ensures
        turn.hand_id == state.hand_id,
        turn.action_seq == state.next_action_seq,
        turn.legal_actions_raw == legal_actions,
        turn.policy_input.room_id == cfg.room_id,
        turn.policy_input.hand_id == state.hand_id,
        turn.policy_input.seat_id == cfg.seat_id,
        texts(turn.policy_input.legal_actions@) == choice_names(legal_actions@),
        turn.policy_input.public_state_json@ == JsonView::Object(Seq::empty()),
        turn.policy_input.private_state_json == private_state_json,
        turn.policy_input.decision_context_json == decision_context_json,
{
    let empty = object(Vec::new());
    assert(empty@->Object_0 =~= Seq::<(Seq<char>, JsonView)>::empty());
    let names = names_of(&legal_actions);
    TurnDecisionInput {
        policy_input: PolicyDecisionInput {
            room_id: cfg.room_id,
            hand_id: state.hand_id,
            seat_id: cfg.seat_id,
            legal_actions: names,
            public_state_json: empty,
            private_state_json: private_state_json,
            decision_context_json: decision_context_json,
        },
        hand_id: state.hand_id,
        action_seq: state.next_action_seq,
        legal_actions_raw: legal_actions,
    }
}

/// What the rule decides about a turn; it must decide something.
pub fn run_single_action_if_turn(turn: &TurnDecisionInput) -> (decision: Result<
    PolicyDecision,
    RuntimeError,
>)
    ensures
        match rule_choice(turn.policy_input.legal_actions@) {
            None => decision is Err && decision->Err_0 is Policy && decision->Err_0->Policy_0@
                == "no policy decision"@,
            Some(action) => {
                &&& decision is Ok
                &&& decision->Ok_0.action_type == action
                &&& decision->Ok_0.amount is None
                &&& decision->Ok_0.rationale is Some
                &&& decision->Ok_0.rationale->0@ == "rule_policy_simple_priority"@
                &&& decision->Ok_0.source == PolicySource::Rule
            },
        },
{
    let policy = RulePolicyAdapter;
    match policy.decide_action(&turn.policy_input) {
        Err(error) => Err(RuntimeError::Policy(owned(error.message()))),
        Ok(None) => Err(RuntimeError::Policy(owned("no policy decision"))),
        Ok(Some(decision)) => Ok(decision),
    }
}

/// The first choice of a kind.
pub open spec fn first_choice(actions: Seq<LegalAction>, action_type: ActionType) -> Option<
    LegalAction,
>
    decreases actions.len(),
{
    if actions.len() == 0 {
        None
    } else if actions[0].action_type == action_type {
        Some(actions[0])
    } else {
        first_choice(actions.skip(1), action_type)
    }
}

fn find_choice(actions: &Vec<LegalAction>, action_type: ActionType) -> (found: Option<LegalAction>)
    ensures
        found == first_choice(actions@, action_type),
{
    let mut i: usize = 0;
    assert(actions@.skip(0) =~= actions@);
    while i < actions.len()
        invariant
            i <= actions.len(),
            first_choice(actions@, action_type) == first_choice(
                actions@.skip(i as int),
                action_type,
            ),
        decreases actions.len() - i,
    {
        assert(actions@.skip(i as int)[0] == actions@[i as int]);
        assert(actions@.skip(i as int).skip(1) =~= actions@.skip(i + 1));
        if actions[i].action_type == action_type {
            return Some(actions[i]);
        }
        i = i + 1;
    }
    None
}

/// What a decision costs: nothing for a fold and a check, what is asked for a call, what was
/// decided for a raise and for everything.
pub open spec fn cost(
    action_type: ActionType,
    amount: Option<Chips>,
    legal_actions: Seq<LegalAction>,
) -> Result<Option<Chips>, Seq<char>> {
    match action_type {
        ActionType::Fold | ActionType::Check => Ok(None),
        ActionType::Call => match first_choice(legal_actions, ActionType::Call) {
            None => Err("call not present in legal actions"@),
            Some(call) => Ok(
                if call.min_amount is Some {
                    call.min_amount
                } else {
                    amount
                },
            ),
        },
        ActionType::RaiseTo | ActionType::AllIn => if amount is Some {
            Ok(amount)
        } else {
            Err("raise_to/all_in requires explicit amount"@)
        },
    }
}

/// What a decision costs.
pub fn resolve_action_amount_from_legal_actions(
    decision: &PolicyDecision,
    legal_actions_raw: &Vec<LegalAction>,
) -> (amount: Result<Option<Chips>, RuntimeError>)
    ensures
        match cost(decision.action_type, decision.amount, legal_actions_raw@) {
            Ok(paid) => amount == Ok::<Option<Chips>, RuntimeError>(paid),
            Err(fault) => amount is Err && amount->Err_0 is Policy && amount->Err_0->Policy_0@
                == fault,
        },
{
    match decision.action_type {
        ActionType::Fold => Ok(None),
        ActionType::Check => Ok(None),
        ActionType::Call => match find_choice(legal_actions_raw, ActionType::Call) {
            None => Err(RuntimeError::Policy(owned("call not present in legal actions"))),
            Some(call) => match call.min_amount {
                Some(amount) => Ok(Some(amount)),
                None => Ok(decision.amount),
            },
        },
        ActionType::RaiseTo | ActionType::AllIn => match decision.amount {
            Some(amount) => Ok(Some(amount)),
            None => Err(RuntimeError::Policy(owned("raise_to/all_in requires explicit amount"))),
        },
    }
}

/// The payment that comes before an action that costs something.
pub fn payment_for(cfg: &SingleActionRunnerConfig, amount: Option<Chips>) -> (payment: Option<
    EvmTransferRequest,
>)
    ensures
        payment is Some <==> amount is Some,
        amount is Some ==> {
            &&& payment->0.room_id == cfg.room_id
            &&& payment->0.from@ == cfg.seat_address@
            &&& payment->0.to@ == cfg.room_chain_address@
            &&& payment->0.value == amount->0
            &&& payment->0.chain_id == cfg.chain_id
        },
{
    match amount {
        None => None,
        Some(amount) => Some(
            EvmTransferRequest {
                room_id: cfg.room_id,
                from: cfg.seat_address.clone(),
                to: cfg.room_chain_address.clone(),
                value: amount,
                chain_id: cfg.chain_id,
            },
        ),
    }
}

/// The wallet's error, as an error of the turn.
pub fn wallet_error(error: &WalletAdapterError) -> (fault: RuntimeError)
    ensures
        fault is Wallet,
        fault->Wallet_0@ == error.spec_message(),
{
    RuntimeError::Wallet(error.message())
}

/// The wish to act, and the message that the wallet signs for it.
pub fn build_game_act_request(
    skill: &mut LocalAgentSkill,
    cfg: &SingleActionRunnerConfig,
    turn: &TurnDecisionInput,
    action_type: ActionType,
    amount: Option<Chips>,
    tx_hash: &Option<String>,
) -> (made: Result<(GameActRequest, String), RuntimeError>)
    ensures
        final(skill).connection() == old(skill).connection(),
        final(skill).seat() == old(skill).seat(),
        final(skill).session() == old(skill).session(),
        final(skill).policy() == old(skill).policy(),
        match old(skill).seat() {
            None => {
                &&& is_skill_error(made, AgentSkillError::MissingSeatContext)
                &&& final(skill).attempts() == old(skill).attempts()
            },
            Some(seat) => {
                let key = ActionAttemptKey {
                    room_id: seat.room_id,
                    hand_id: turn.hand_id,
                    seat_id: seat.seat_id,
                    action_seq: turn.action_seq,
                };
                &&& final(skill).attempts() == old(skill).attempts().insert(key)
                &&& old(skill).attempts().contains(key) ==> is_skill_error(
                    made,
                    AgentSkillError::DuplicateActionAttempt,
                )
                &&& !old(skill).attempts().contains(key) ==> {
                    let request = made->Ok_0.0;
                    &&& made is Ok
                    &&& request.room_id == seat.room_id
                    &&& request.hand_id == turn.hand_id
                    &&& request.action_seq == turn.action_seq
                    &&& request.seat_id == seat.seat_id
                    &&& request.action_type@ == action_type.spec_label()
                    &&& request.amount is Some <==> amount is Some
                    &&& amount is Some ==> request.amount->0@ == decimal((amount->0).0 as nat)
                    &&& request.tx_hash == *tx_hash
                    &&& unsigned_meta(request.request_meta, cfg.seat_address@)
                    &&& made->Ok_0.1@ == (SignedText {
                        method: "game.act"@,
                        room_id: cfg.room_id,
                        hand_id: Some(uuid_text(turn.hand_id.0)),
                        action_seq: Some(turn.action_seq),
                        params: act_params(request),
                        meta: request.request_meta,
                    }).text()
                }
            },
        },
{
    let amount_text: Option<String> = match amount {
        Some(amount) => Some(decimal_text(amount.0)),
        None => None,
    };
    let mut request = match skill.build_game_act_request(
        turn.hand_id,
        turn.action_seq,
        action_type,
        amount_text,
        copy_optional_text(tx_hash),
    ) {
        Ok(request) => request,
        Err(error) => {
            return Err(RuntimeError::AgentSkill(error.message()));
        },
    };
    let params = act_json(&request);
    match message_to_sign(
        cfg,
        "game.act",
        Some(id_text(request.hand_id.0)),
        Some(request.action_seq),
        &params,
        &mut request.request_meta,
    ) {
        Ok(message) => Ok((request, message)),
        Err(error) => Err(error),
    }
}

/// What came of a turn, once the server answered.
pub fn execute_turn_decision(
    turn: &TurnDecisionInput,
    amount: Option<Chips>,
    tx_hash: Option<String>,
    answer: ResponseEnvelope<()>,
) -> (outcome: Result<SingleActionRunOutcome, RuntimeError>)
    ensures
        answer.ok ==> outcome == Ok::<SingleActionRunOutcome, RuntimeError>(
            SingleActionRunOutcome {
                hand_id: turn.hand_id,
                action_seq: turn.action_seq,
                submitted_amount: amount,
                tx_hash: tx_hash,
            },
        ),
        !answer.ok ==> outcome is Err && outcome->Err_0 is RpcApp && outcome->Err_0->RpcApp_0@
            == refusal(answer.error, "unknown rpc app error"@),
{
    match envelope_ok_unit(answer) {
        Err(error) => Err(error),
        Ok(_) => Ok(
            SingleActionRunOutcome {
                hand_id: turn.hand_id,
                action_seq: turn.action_seq,
                submitted_amount: amount,
                tx_hash: tx_hash,
            },
        ),
    }
}

/// What came of a turn that had to be the seat's.
pub fn run_single_action_turn(outcome: Result<Option<SingleActionRunOutcome>, RuntimeError>) -> (turn:
    Result<SingleActionRunOutcome, RuntimeError>)
    ensures
        turn == (match outcome {
            Err(error) => Err::<SingleActionRunOutcome, RuntimeError>(error),
            Ok(None) => Err::<SingleActionRunOutcome, RuntimeError>(RuntimeError::NotOurTurn),
            Ok(Some(outcome)) => Ok::<SingleActionRunOutcome, RuntimeError>(outcome),
        }),
{
    match outcome {
        Err(error) => Err(error),
        Ok(None) => Err(RuntimeError::NotOurTurn),
        Ok(Some(outcome)) => Ok(outcome),
    }
}

/// What follows while the first seat that has its turn is looked for.
#[derive(Debug, PartialEq, Eq)]
pub enum SeatSearch {
    /// Try the seat at this place.
    Try(usize),
    /// This seat had its turn.
    Acted(SeatId, SingleActionRunOutcome),
    /// No seat had its turn.
    Nobody,
}

/// Where the search begins.
pub fn first_seat(seats: &Vec<SeatTurnRunnerInput<'_>>) -> (step: SeatSearch)
    ensures
        step == (if seats@.len() > 0 {
            SeatSearch::Try(0)
        } else {
            SeatSearch::Nobody
        }),
{
    if seats.len() > 0 {
        SeatSearch::Try(0)
    } else {
        SeatSearch::Nobody
    }
}

/// What follows what came of the seat at a place: the first turn and the first error end the
/// search.
pub fn run_first_available_action(
    seats: &Vec<SeatTurnRunnerInput<'_>>,
    place: usize,
    outcome: Result<Option<SingleActionRunOutcome>, RuntimeError>,
) -> (step: Result<SeatSearch, RuntimeError>)
    requires
        place < seats@.len(),
    ensures
        step == (match outcome {
            Err(error) => Err::<SeatSearch, RuntimeError>(error),
            Ok(Some(outcome)) => Ok::<SeatSearch, RuntimeError>(
                SeatSearch::Acted(seats@[place as int].cfg.seat_id, outcome),
            ),
            Ok(None) => Ok::<SeatSearch, RuntimeError>(
                if place + 1 < seats@.len() {
                    SeatSearch::Try((place + 1) as usize)
                } else {
                    SeatSearch::Nobody
                },
            ),
        }),
{
    match outcome {
        Err(error) => Err(error),
        Ok(Some(outcome)) => Ok(SeatSearch::Acted(seats[place].cfg.seat_id, outcome)),
        Ok(None) => if seats.len() - place > 1 {
            Ok(SeatSearch::Try(place + 1))
        } else {
            Ok(SeatSearch::Nobody)
        },
    }
}

/// What is paid for a call is what the table asks for, whatever was decided.
pub proof fn a_call_pays_what_is_asked(
    decided: Option<Chips>,
    legal_actions: Seq<LegalAction>,
    asked: Chips,
)
    requires
        first_choice(legal_actions, ActionType::Call) is Some,
        first_choice(legal_actions, ActionType::Call)->0.min_amount == Some(asked),
    ensures
        cost(ActionType::Call, decided, legal_actions) == Ok::<Option<Chips>, Seq<char>>(
            Some(asked),
        ),
{
}

} // verus!
