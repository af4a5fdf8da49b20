//! Who may ask for what: the window of a request, what is signed of it, and its use only once.
use vstd::prelude::*;
use vstd::string::{StrSliceExecFns, StringExecFns};
use vstd::utf8::encode_utf8;

use crate::domain::ids::{
    id_text, uuid_text, AgentId, HandId, RequestId, RoomId, SessionId,
};
use crate::domain::time::Timestamp;
use crate::evm::{
    address_of, check_personal_signature, keccak256, personal_payload, public_point,
    sign_personal_message, signature_fault, signature_text, signed_digest, EvmSigningKey,
    SignatureFault,
};
use crate::json::{canonical, canonicalize_json, json_text, Json, JsonView};
use crate::text::{decimal, decimal_text, same_text, signed_decimal, signed_decimal_text};

verus! {

/// Why a request is not accepted.
#[derive(Debug, PartialEq, Eq)]
pub enum AuthError {
    RequestExpired,
    RequestFromFuture,
    Serialization(String),
    InvalidEthereumSignature,
    EthereumSignatureRecoveryFailed,
    EthereumAddressMismatch,
    ReplayDetected,
    ReplayStoreUnavailable,
    IdempotencyKeyConflict,
    IdempotencyStoreUnavailable,
}

impl AuthError {
    pub open spec fn spec_message(self) -> Seq<char> {
        match self {
            AuthError::RequestExpired => "request expired"@,
            AuthError::RequestFromFuture => "request timestamp too far in future"@,
            AuthError::Serialization(detail) => "serialization error: "@ + detail@,
            AuthError::InvalidEthereumSignature => "invalid ethereum signature"@,
            AuthError::EthereumSignatureRecoveryFailed => "ethereum signature recovery failed"@,
            AuthError::EthereumAddressMismatch => "ethereum address mismatch"@,
            AuthError::ReplayDetected => "replay request detected"@,
            AuthError::ReplayStoreUnavailable => "replay store unavailable"@,
            AuthError::IdempotencyKeyConflict => "idempotency key already consumed"@,
            AuthError::IdempotencyStoreUnavailable => "idempotency store unavailable"@,
        }
    }

    /// What the error says to a reader.
    pub fn message(&self) -> (text: String)
        ensures
            text@ == self.spec_message(),
    {
        match self {
            AuthError::RequestExpired => String::from_str("request expired"),
            AuthError::RequestFromFuture => String::from_str("request timestamp too far in future"),
            AuthError::Serialization(detail) => {
                let text = String::from_str("serialization error: ");
                text.concat(detail.as_str())
            },
            AuthError::InvalidEthereumSignature => String::from_str("invalid ethereum signature"),
            AuthError::EthereumSignatureRecoveryFailed => String::from_str(
                "ethereum signature recovery failed",
            ),
            AuthError::EthereumAddressMismatch => String::from_str("ethereum address mismatch"),
            AuthError::ReplayDetected => String::from_str("replay request detected"),
            AuthError::ReplayStoreUnavailable => String::from_str("replay store unavailable"),
            AuthError::IdempotencyKeyConflict => String::from_str(
                "idempotency key already consumed",
            ),
            AuthError::IdempotencyStoreUnavailable => String::from_str(
                "idempotency store unavailable",
            ),
        }
    }
}

/// What makes a request of an agent one that was seen before.
#[derive(Debug, PartialEq, Eq)]
pub struct ReplayNonceKey {
    pub agent_id: AgentId,
    pub request_id: RequestId,
    pub request_nonce: String,
}

pub ghost struct NonceView {
    pub agent_id: AgentId,
    pub request_id: RequestId,
    pub request_nonce: Seq<char>,
}

impl View for ReplayNonceKey {
    type V = NonceView;

    open spec fn view(&self) -> NonceView {
        NonceView {
            agent_id: self.agent_id,
            request_id: self.request_id,
            request_nonce: self.request_nonce@,
        }
    }
}

impl Clone for ReplayNonceKey {
    fn clone(&self) -> (copy: ReplayNonceKey)
        ensures
            copy == *self,
    {
        ReplayNonceKey {
            agent_id: self.agent_id,
            request_id: self.request_id,
            request_nonce: self.request_nonce.clone(),
        }
    }
}

/// What makes an action of a seat one that was taken before.
#[derive(Debug, Clone, Copy, PartialEq, Eq, Hash, Structural)]
pub struct ActionIdempotencyKey {
    pub room_id: RoomId,
    pub hand_id: HandId,
    pub seat_id: u8,
    pub action_seq: u32,
}

/// What accompanies a request: who signed it, when, and for how long it is good.
#[derive(Debug, PartialEq, Eq)]
pub struct SignedRequestMeta {
    pub request_id: RequestId,
    pub request_nonce: String,
    pub request_ts: Timestamp,
    pub request_expiry_ms: i64,
    pub signature_pubkey_id: String,
    pub signature: String,
}

impl Clone for SignedRequestMeta {
    fn clone(&self) -> (copy: SignedRequestMeta)
        ensures
            copy == *self,
    {
        SignedRequestMeta {
            request_id: self.request_id,
            request_nonce: self.request_nonce.clone(),
            request_ts: self.request_ts,
            request_expiry_ms: self.request_expiry_ms,
            signature_pubkey_id: self.signature_pubkey_id.clone(),
            signature: self.signature.clone(),
        }
    }
}

/// Everything of a request that its signature covers.
pub struct SigningMessageInput<'a> {
    pub method: &'a str,
    pub session_id: SessionId,
    pub room_id: Option<RoomId>,
    pub hand_id: Option<String>,
    pub action_seq: Option<u32>,
    pub params: &'a Json,
    pub meta: &'a SignedRequestMeta,
}

/// A seat's claim to its keys.
#[derive(Debug, PartialEq, Eq)]
pub struct SeatKeyBindingClaim {
    pub agent_id: Option<AgentId>,
    pub session_id: Option<SessionId>,
    pub room_id: RoomId,
    pub seat_id: u8,
    pub seat_address: String,
    pub card_encrypt_pubkey: String,
    pub request_verify_pubkey: String,
    pub key_algo: String,
    pub issued_at: Timestamp,
    pub expires_at: Option<Timestamp>,
}

/// Remembers requests, so that each is accepted only once.
pub trait ReplayNonceStore {
    /// The requests that were accepted.
    spec fn seen(&self) -> Set<NonceView>;

    fn consume_once(&mut self, key: ReplayNonceKey) -> (result: Result<(), AuthError>)
        ensures
            match result {
                Ok(_) => !old(self).seen().contains(key@) && final(self).seen() == old(self).seen().insert(key@),
                Err(AuthError::ReplayDetected) => old(self).seen().contains(key@) && final(self).seen() == old(self).seen(),
                Err(_) => final(self).seen() == old(self).seen(),
            },
    ;
}

/// Remembers actions, so that each is taken only once.
pub trait ActionIdempotencyStore {
    /// The actions that were taken.
    spec fn seen(&self) -> Set<ActionIdempotencyKey>;

    fn consume_once(&mut self, key: ActionIdempotencyKey) -> (result: Result<(), AuthError>)
        ensures
            match result {
                Ok(_) => !old(self).seen().contains(key) && final(self).seen() == old(self).seen().insert(key),
                Err(AuthError::IdempotencyKeyConflict) => old(self).seen().contains(key) && final(self).seen() == old(self).seen(),
                Err(_) => final(self).seen() == old(self).seen(),
            },
    ;
}

/// Remembers requests in memory.
#[derive(Debug)]
pub struct InMemoryReplayNonceStore {
    seen: Vec<ReplayNonceKey>,
}

impl InMemoryReplayNonceStore {
    pub closed spec fn keys(self) -> Set<NonceView> {
        self.seen@.map_values(|key: ReplayNonceKey| key@).to_set()
    }

    pub fn new() -> (store: InMemoryReplayNonceStore)
        ensures
            store.keys() == Set::<NonceView>::empty(),
    {
        let store = InMemoryReplayNonceStore { seen: Vec::new() };
        assert(store.keys() =~= Set::<NonceView>::empty());
        store
    }
}

impl Default for InMemoryReplayNonceStore {
    fn default() -> (store: InMemoryReplayNonceStore)
        ensures
            store.keys() == Set::<NonceView>::empty(),
    {
        InMemoryReplayNonceStore::new()
    }
}

impl ReplayNonceStore for InMemoryReplayNonceStore {
    open spec fn seen(&self) -> Set<NonceView> {
        self.keys()
    }

    /// Accepts a request that was not seen before, and no other.
    fn consume_once(&mut self, key: ReplayNonceKey) -> (result: Result<(), AuthError>)
        ensures
            result == (if old(self).keys().contains(key@) {
                Err::<(), AuthError>(AuthError::ReplayDetected)
            } else {
                Ok::<(), AuthError>(())
            }),
            final(self).keys() == old(self).keys().insert(key@),
    {
        let ghost before = self.seen@.map_values(|key: ReplayNonceKey| key@);
        let mut i: usize = 0;
        while i < self.seen.len()
            invariant
                i <= self.seen.len(),
                before == self.seen@.map_values(|key: ReplayNonceKey| key@),
                self.keys() == old(self).keys(),
                forall|j: int| 0 <= j < i ==> (#[trigger] before[j]) != key@,
            decreases self.seen.len() - i,
        {
            let seen = &self.seen[i];
            assert(before[i as int] == seen@);
            if seen.agent_id == key.agent_id && seen.request_id == key.request_id && same_text(
                seen.request_nonce.as_str(),
                key.request_nonce.as_str(),
            ) {
                assert(before.contains(key@));
                assert(self.keys().insert(key@) =~= self.keys());
                return Err(AuthError::ReplayDetected);
            }
            i = i + 1;
        }
        let ghost added = key@;
        assert(!before.contains(added));
        self.seen.push(key);
        assert(self.seen@.map_values(|key: ReplayNonceKey| key@) =~= before.push(added));
        assert(before.push(added).to_set() =~= before.to_set().insert(added)) by {
            before.lemma_push_to_set_commute(added);
        }
        Ok(())
    }
}

/// Remembers actions in memory.
#[derive(Debug)]
pub struct InMemoryActionIdempotencyStore {
    seen: Vec<ActionIdempotencyKey>,
}

impl InMemoryActionIdempotencyStore {
    pub closed spec fn keys(self) -> Set<ActionIdempotencyKey> {
        self.seen@.to_set()
    }

    pub fn new() -> (store: InMemoryActionIdempotencyStore)
        ensures
            store.keys() == Set::<ActionIdempotencyKey>::empty(),
    {
        let store = InMemoryActionIdempotencyStore { seen: Vec::new() };
        assert(store.keys() =~= Set::<ActionIdempotencyKey>::empty());
        store
    }
}

impl Default for InMemoryActionIdempotencyStore {
    fn default() -> (store: InMemoryActionIdempotencyStore)
        ensures
            store.keys() == Set::<ActionIdempotencyKey>::empty(),
    {
        InMemoryActionIdempotencyStore::new()
    }
}

impl ActionIdempotencyStore for InMemoryActionIdempotencyStore {
    open spec fn seen(&self) -> Set<ActionIdempotencyKey> {
        self.keys()
    }

    /// Accepts an action that was not taken before, and no other.
    fn consume_once(&mut self, key: ActionIdempotencyKey) -> (result: Result<(), AuthError>)
        ensures
            result == (if old(self).keys().contains(key) {
                Err::<(), AuthError>(AuthError::IdempotencyKeyConflict)
            } else {
                Ok::<(), AuthError>(())
            }),
            final(self).keys() == old(self).keys().insert(key),
    {
        let mut i: usize = 0;
        while i < self.seen.len()
            invariant
                i <= self.seen.len(),
                self.keys() == old(self).keys(),
                forall|j: int| 0 <= j < i ==> self.seen@[j] != key,
            decreases self.seen.len() - i,
        {
            if self.seen[i] == key {
                assert(self.seen@.contains(key));
                assert(self.keys().insert(key) =~= self.keys());
                return Err(AuthError::IdempotencyKeyConflict);
            }
            i = i + 1;
        }
        assert(!self.seen@.contains(key));
        proof {
            self.seen@.lemma_push_to_set_commute(key);
        }
        self.seen.push(key);
        Ok(())
    }
}

/// What is wrong with the moment of a request, if anything is: it may lie ahead of now by the
/// tolerance and behind now by the time for which it is good.
pub open spec fn window_fault(now: int, requested: int, expiry_ms: int, tolerance_ms: int) -> Option<
    AuthError,
> {
    if requested - now > tolerance_ms * 1_000_000 {
        Some(AuthError::RequestFromFuture)
    } else if now - requested > expiry_ms * 1_000_000 {
        Some(AuthError::RequestExpired)
    } else {
        None
    }
}

/// Tests the moment of a request.
pub fn validate_request_window(
    now: Timestamp,
    request_ts: Timestamp,
    expiry_ms: i64,
    future_skew_tolerance_ms: i64,
) -> (result: Result<(), AuthError>)
    requires
        expiry_ms > i64::MIN,
        future_skew_tolerance_ms > i64::MIN,
    ensures
        result == (match window_fault(
            now.instant(),
            request_ts.instant(),
            expiry_ms as int,
            future_skew_tolerance_ms as int,
        ) {
            Some(fault) => Err::<(), AuthError>(fault),
            None => Ok::<(), AuthError>(()),
        }),
{
    if request_ts.nanos_since(now) > (future_skew_tolerance_ms as i128) * 1_000_000 {
        return Err(AuthError::RequestFromFuture);
    }
    if now.nanos_since(request_ts) > (expiry_ms as i128) * 1_000_000 {
        return Err(AuthError::RequestExpired);
    }
    Ok(())
}

/// The compact text of the parameters in their canonical form. It is the same however the
/// members of an object were ordered, and it never fails.
pub fn canonical_params_json(params: &Json) -> (text: Result<String, AuthError>)
    ensures
        text is Ok,
        text->Ok_0@ == json_text(canonical(params@)),
{
    Ok(canonicalize_json(params).to_text())
}

pub open spec fn optional_id_text(id: Option<u128>) -> Seq<char> {
    match id {
        Some(id) => uuid_text(id),
        None => Seq::empty(),
    }
}

pub open spec fn room_number(room_id: Option<RoomId>) -> Option<u128> {
    match room_id {
        Some(id) => Some(id.0),
        None => None,
    }
}

pub open spec fn agent_number(agent_id: Option<AgentId>) -> Option<u128> {
    match agent_id {
        Some(id) => Some(id.0),
        None => None,
    }
}

pub open spec fn session_number(session_id: Option<SessionId>) -> Option<u128> {
    match session_id {
        Some(id) => Some(id.0),
        None => None,
    }
}

fn write_optional_id(id: Option<u128>) -> (text: String)
    ensures
        text@ == optional_id_text(id),
{
    match id {
        Some(id) => id_text(id),
        None => String::new(),
    }
}

/// What is signed of a request, part by part.
pub open spec fn signed_text(
    method: Seq<char>,
    session_id: SessionId,
    room_id: Option<RoomId>,
    hand_id: Option<Seq<char>>,
    action_seq: Option<u32>,
    params: JsonView,
    meta: SignedRequestMeta,
) -> Seq<char> {
    "method="@ + method + "|session_id="@ + uuid_text(session_id.0) + "|room_id="@
        + optional_id_text(room_number(room_id)) + "|hand_id="@ + (match hand_id {
        Some(hand_id) => hand_id,
        None => Seq::empty(),
    }) + "|action_seq="@ + (match action_seq {
        Some(action_seq) => decimal(action_seq as nat),
        None => Seq::empty(),
    }) + "|params="@ + json_text(canonical(params)) + "|request_id="@ + uuid_text(
        meta.request_id.0,
    ) + "|request_nonce="@ + meta.request_nonce@ + "|request_ts="@ + meta.request_ts.text()
        + "|request_expiry_ms="@ + signed_decimal(meta.request_expiry_ms as int)
}

/// What is signed of a request.
pub open spec fn signing_message(input: SigningMessageInput) -> Seq<char> {
    signed_text(
        input.method@,
        input.session_id,
        input.room_id,
        match input.hand_id {
            Some(hand_id) => Some(hand_id@),
            None => None,
        },
        input.action_seq,
        input.params@,
        *input.meta,
    )
}

/// Writes what is signed of a request.
pub fn build_signing_message(input: &SigningMessageInput<'_>) -> (text: Result<String, AuthError>)
    ensures
        text is Ok,
        text->Ok_0@ == signing_message(*input),
{
    let params = canonicalize_json(input.params).to_text();
    let mut text = String::from_str("method=");
    text.append(input.method);
    text.append("|session_id=");
    text.append(id_text(input.session_id.0).as_str());
    text.append("|room_id=");
    let room: Option<u128> = match input.room_id {
        Some(id) => Some(id.0),
        None => None,
    };
    text.append(write_optional_id(room).as_str());
    text.append("|hand_id=");
    match &input.hand_id {
        Some(hand_id) => text.append(hand_id.as_str()),
        None => text.append(String::new().as_str()),
    }
    text.append("|action_seq=");
    match input.action_seq {
        Some(action_seq) => text.append(decimal_text(action_seq as u128).as_str()),
        None => text.append(String::new().as_str()),
    }
    text.append("|params=");
    text.append(params.as_str());
    text.append("|request_id=");
    text.append(id_text(input.meta.request_id.0).as_str());
    text.append("|request_nonce=");
    text.append(input.meta.request_nonce.as_str());
    text.append("|request_ts=");
    text.append(input.meta.request_ts.to_rfc3339().as_str());
    text.append("|request_expiry_ms=");
    text.append(signed_decimal_text(input.meta.request_expiry_ms).as_str());
    Ok(text)
}

/// What is signed of a seat's claim to its keys.
pub open spec fn binding_message(claim: SeatKeyBindingClaim) -> Seq<char> {
    "room_id="@ + uuid_text(claim.room_id.0) + "|seat_id="@ + decimal(claim.seat_id as nat)
        + "|seat_address="@ + claim.seat_address@ + "|card_encrypt_pubkey="@
        + claim.card_encrypt_pubkey@ + "|request_verify_pubkey="@ + claim.request_verify_pubkey@
        + "|key_algo="@ + claim.key_algo@ + "|issued_at="@ + claim.issued_at.text()
        + "|expires_at="@ + (match claim.expires_at {
        Some(moment) => moment.text(),
        None => Seq::empty(),
    }) + "|agent_id="@ + optional_id_text(agent_number(claim.agent_id)) + "|session_id="@
        + optional_id_text(session_number(claim.session_id))
}

/// Writes what is signed of a seat's claim to its keys.
pub fn build_seat_key_binding_message(claim: &SeatKeyBindingClaim) -> (text: String)
    ensures
        text@ == binding_message(*claim),
{
    let mut text = String::from_str("room_id=");
    text.append(id_text(claim.room_id.0).as_str());
    text.append("|seat_id=");
    text.append(decimal_text(claim.seat_id as u128).as_str());
    text.append("|seat_address=");
    text.append(claim.seat_address.as_str());
    text.append("|card_encrypt_pubkey=");
    text.append(claim.card_encrypt_pubkey.as_str());
    text.append("|request_verify_pubkey=");
    text.append(claim.request_verify_pubkey.as_str());
    text.append("|key_algo=");
    text.append(claim.key_algo.as_str());
    text.append("|issued_at=");
    text.append(claim.issued_at.to_rfc3339().as_str());
    text.append("|expires_at=");
    match claim.expires_at {
        Some(moment) => text.append(moment.to_rfc3339().as_str()),
        None => text.append(String::new().as_str()),
    }
    text.append("|agent_id=");
    let agent: Option<u128> = match claim.agent_id {
        Some(id) => Some(id.0),
        None => None,
    };
    text.append(write_optional_id(agent).as_str());
    text.append("|session_id=");
    let session: Option<u128> = match claim.session_id {
        Some(id) => Some(id.0),
        None => None,
    };
    text.append(write_optional_id(session).as_str());
    text
}

/// The error for a fault of a signature.
pub open spec fn fault_result(fault: Option<SignatureFault>) -> Result<(), AuthError> {
    match fault {
        None => Ok(()),
        Some(SignatureFault::Invalid) => Err(AuthError::InvalidEthereumSignature),
        Some(SignatureFault::RecoveryFailed) => Err(AuthError::EthereumSignatureRecoveryFailed),
        Some(SignatureFault::AddressMismatch) => Err(AuthError::EthereumAddressMismatch),
    }
}

/// Tests whether the owner of the address signed the message.
pub fn verify_evm_personal_signature(
    expected_address: &str,
    message: &[u8],
    signature_hex: &str,
) -> (result: Result<(), AuthError>)
    ensures
        result == fault_result(signature_fault(expected_address@, message@, signature_hex@)),
{
    match check_personal_signature(expected_address, message, signature_hex) {
        None => Ok(()),
        Some(SignatureFault::Invalid) => Err(AuthError::InvalidEthereumSignature),
        Some(SignatureFault::RecoveryFailed) => Err(AuthError::EthereumSignatureRecoveryFailed),
        Some(SignatureFault::AddressMismatch) => Err(AuthError::EthereumAddressMismatch),
    }
}

/// Signs a message for the owner of the key. What comes out is accepted for the key's address
/// and the message.
pub fn sign_evm_personal_message_secp256k1(signing_key: &EvmSigningKey, message: &[u8]) -> (signed:
    Result<String, AuthError>)
    ensures
        ({
            let made = signed_digest(signing_key.secret(), keccak256(personal_payload(message@)));
            match signed {
                Ok(text) => {
                    &&& made is Ok
                    &&& text@ == signature_text(made->Ok_0.0, made->Ok_0.1)
                    &&& fault_result(
                        signature_fault(
                            address_of(public_point(signing_key.secret())),
                            message@,
                            text@,
                        ),
                    ) is Ok
                },
                Err(error) => made is Err && error == AuthError::InvalidEthereumSignature,
            }
        }),
{
    match sign_personal_message(signing_key, message) {
        Ok(text) => Ok(text),
        Err(_) => Err(AuthError::InvalidEthereumSignature),
    }
}

/// Tests whether the owner of the seat's address signed the seat's claim to its keys.
pub fn verify_seat_key_binding_proof_evm(
    claim: &SeatKeyBindingClaim,
    proof_signature_hex: &str,
) -> (result: Result<(), AuthError>)
    ensures
        result == fault_result(
            signature_fault(
                claim.seat_address@,
                encode_utf8(binding_message(*claim)),
                proof_signature_hex@,
            ),
        ),
{
    let message = build_seat_key_binding_message(claim).as_str().as_bytes_vec();
    verify_evm_personal_signature(
        claim.seat_address.as_str(),
        message.as_slice(),
        proof_signature_hex,
    )
}

/// Uses up a request of an agent.
pub fn consume_replay_nonce<S: ReplayNonceStore>(
    store: &mut S,
    agent_id: AgentId,
    meta: &SignedRequestMeta,
) -> (result: Result<(), AuthError>)
    ensures
        ({
            let key = NonceView {
                agent_id: agent_id,
                request_id: meta.request_id,
                request_nonce: meta.request_nonce@,
            };
            match result {
                Ok(_) => !old(store).seen().contains(key) && final(store).seen() == old(store).seen().insert(key),
                Err(AuthError::ReplayDetected) => old(store).seen().contains(key) && final(store).seen() == old(store).seen(),
                Err(_) => final(store).seen() == old(store).seen(),
            }
        }),
{
    store.consume_once(
        ReplayNonceKey {
            agent_id: agent_id,
            request_id: meta.request_id,
            request_nonce: meta.request_nonce.clone(),
        },
    )
}

/// Uses up an action of a seat.
pub fn consume_action_idempotency_key<S: ActionIdempotencyStore>(
    store: &mut S,
    room_id: RoomId,
    hand_id: HandId,
    seat_id: u8,
    action_seq: u32,
) -> (result: Result<(), AuthError>)
    ensures
        ({
            let key = ActionIdempotencyKey {
                room_id: room_id,
                hand_id: hand_id,
                seat_id: seat_id,
                action_seq: action_seq,
            };
            match result {
                Ok(_) => !old(store).seen().contains(key) && final(store).seen() == old(store).seen().insert(key),
                Err(AuthError::IdempotencyKeyConflict) => old(store).seen().contains(key) && final(store).seen() == old(store).seen(),
                Err(_) => final(store).seen() == old(store).seen(),
            }
        }),
{
    store.consume_once(
        ActionIdempotencyKey {
            room_id: room_id,
            hand_id: hand_id,
            seat_id: seat_id,
            action_seq: action_seq,
        },
    )
}

/// What is signed of two requests is the same where they differ only in the order of the
/// members of their parameters.
pub proof fn signed_text_ignores_parameter_order(
    a: Seq<(Seq<char>, JsonView)>,
    b: Seq<(Seq<char>, JsonView)>,
    first: SigningMessageInput,
    second: SigningMessageInput,
)
    requires
        crate::json::keys_differ(a),
        crate::json::keys_differ(b),
        forall|member: (Seq<char>, JsonView)|
            #![trigger a.contains(member)]
            #![trigger b.contains(member)]
            a.contains(member) <==> b.contains(member),
        first.params@ == JsonView::Object(a),
        second.params@ == JsonView::Object(b),
        second == (SigningMessageInput { params: second.params, ..first }),
    ensures
        signing_message(first) == signing_message(second),
{
    crate::json::canonical_form_ignores_order(a, b);
}

/// A moment exactly at either end of the window is inside it.
pub proof fn window_includes_its_ends(now: int, expiry_ms: int, tolerance_ms: int)
    requires
        expiry_ms >= 0,
        tolerance_ms >= 0,
    ensures
        window_fault(now, now + tolerance_ms * 1_000_000, expiry_ms, tolerance_ms) is None,
        window_fault(now, now - expiry_ms * 1_000_000, expiry_ms, tolerance_ms) is None,
        window_fault(now, now + tolerance_ms * 1_000_000 + 1, expiry_ms, tolerance_ms) == Some(
            AuthError::RequestFromFuture,
        ),
        window_fault(now, now - expiry_ms * 1_000_000 - 1, expiry_ms, tolerance_ms) == Some(
            AuthError::RequestExpired,
        ),
{
}

} // verus!
