//! What an agent at a seat keeps in mind between its requests.
use vstd::prelude::*;
use vstd::string::StringExecFns;

use crate::auth::SignedRequestMeta;
use crate::domain::action::ActionType;
use crate::domain::game::SeatId;
use crate::domain::ids::{
    fresh_id_text, is_fresh_text, is_time_ordered, HandId, RequestId, RoomId, SessionId,
};
use crate::domain::time::Timestamp;
use crate::json::{Json, JsonView};
use crate::rpc::{
    GameActRequest, GameGetLegalActionsRequest, GameGetStateRequest, HoleCardsDealtCipherPayload,
    RoomBindAddressRequest, RoomBindSessionKeysRequest, RoomReadyRequest, SeatEventAad,
};
use crate::text::{copy_optional_text, same_text};

verus! {

/// How long a request of an agent is good, in milliseconds.
pub const REQUEST_EXPIRY_MS: i64 = 30_000;

/// Why the agent cannot do what it is asked.
#[derive(Debug, PartialEq, Eq)]
pub enum AgentSkillError {
    NotConnected,
    MissingSeatContext,
    Serialization(String),
    SeatCrypto(String),
    ActionNotLegal,
    DuplicateActionAttempt,
}

impl AgentSkillError {
    pub open spec fn spec_message(self) -> Seq<char> {
        match self {
            AgentSkillError::NotConnected => "not connected"@,
            AgentSkillError::MissingSeatContext => "seat context missing"@,
            AgentSkillError::Serialization(detail) => "serialization error: "@ + detail@,
            AgentSkillError::SeatCrypto(detail) => "seat crypto error: "@ + detail@,
            AgentSkillError::ActionNotLegal => "action not in legal action set"@,
            AgentSkillError::DuplicateActionAttempt => "duplicate action attempt detected"@,
        }
    }

    /// What the error says to a reader.
    pub fn message(&self) -> (text: String)
        ensures
            text@ == self.spec_message(),
    {
        match self {
            AgentSkillError::NotConnected => String::from_str("not connected"),
            AgentSkillError::MissingSeatContext => String::from_str("seat context missing"),
            AgentSkillError::Serialization(detail) => String::from_str(
                "serialization error: ",
            ).concat(detail.as_str()),
            AgentSkillError::SeatCrypto(detail) => String::from_str("seat crypto error: ").concat(
                detail.as_str(),
            ),
            AgentSkillError::ActionNotLegal => String::from_str("action not in legal action set"),
            AgentSkillError::DuplicateActionAttempt => String::from_str(
                "duplicate action attempt detected",
            ),
        }
    }
}

/// Where the server is found.
#[derive(Debug, PartialEq, Eq)]
pub struct AgentSkillConfig {
    pub endpoint_http: String,
    pub endpoint_ws: Option<String>,
    pub session_id: Option<SessionId>,
}

/// The seat that the agent plays on.
#[derive(Debug, PartialEq, Eq)]
pub struct SeatContext {
    pub room_id: RoomId,
    pub seat_id: SeatId,
    pub seat_address: Option<String>,
    pub request_signature_pubkey_id: Option<String>,
}

/// What the agent sees of the table.
#[derive(Debug, PartialEq, Eq)]
pub struct Observation {
    pub room_id: RoomId,
    pub hand_id: Option<HandId>,
    pub seat_id: SeatId,
    pub legal_actions: Vec<String>,
    pub public_state: Json,
    pub private_payloads: Vec<HoleCardsDealtCipherPayload>,
}

/// What makes an attempt to act one that was made before.
#[derive(Debug, Clone, Copy, PartialEq, Eq, Hash, Structural)]
pub struct ActionAttemptKey {
    pub room_id: RoomId,
    pub hand_id: HandId,
    pub seat_id: SeatId,
    pub action_seq: u32,
}

#[derive(Debug, Clone, Copy, PartialEq, Eq, Structural)]
pub enum RetryDecision {
    Retry,
    Stop,
}

/// Whether and how often a request is tried again.
#[derive(Debug, Clone, Copy, PartialEq, Eq, Structural)]
pub struct RetryPolicy {
    pub max_attempts: u32,
    pub retry_on_timeout: bool,
    pub retry_on_transport_error: bool,
}

#[derive(Debug, Clone, Copy, PartialEq, Eq, Structural)]
pub enum RetryableErrorKind {
    Timeout,
    Transport,
}

impl Default for RetryPolicy {
    fn default() -> (policy: RetryPolicy)
        ensures
            policy.max_attempts == 3,
            policy.retry_on_timeout,
            policy.retry_on_transport_error,
    {
        RetryPolicy { max_attempts: 3, retry_on_timeout: true, retry_on_transport_error: true }
    }
}

impl RetryPolicy {
    /// Whether an attempt that failed for this reason is made again.
    pub open spec fn retries(self, attempt_no: u32, reason: RetryableErrorKind) -> bool {
        attempt_no < self.max_attempts && (match reason {
            RetryableErrorKind::Timeout => self.retry_on_timeout,
            RetryableErrorKind::Transport => self.retry_on_transport_error,
        })
    }

    /// Decides whether an attempt that failed for this reason is made again.
    pub fn should_retry(&self, attempt_no: u32, reason: RetryableErrorKind) -> (decision: RetryDecision)
        ensures
            decision == (if self.retries(attempt_no, reason) {
                RetryDecision::Retry
            } else {
                RetryDecision::Stop
            }),
    {
        if attempt_no >= self.max_attempts {
            return RetryDecision::Stop;
        }
        let allowed: bool = match reason {
            RetryableErrorKind::Timeout => self.retry_on_timeout,
            RetryableErrorKind::Transport => self.retry_on_transport_error,
        };
        if allowed {
            RetryDecision::Retry
        } else {
            RetryDecision::Stop
        }
    }
}

/// Remembers the attempts to act that were made.
#[derive(Debug)]
pub struct LocalActionAttemptStore {
    seen: Vec<ActionAttemptKey>,
}

impl Default for LocalActionAttemptStore {
    fn default() -> (store: LocalActionAttemptStore)
        ensures
            store.attempts() == Set::<ActionAttemptKey>::empty(),
    {
        LocalActionAttemptStore::new()
    }
}

impl LocalActionAttemptStore {
    /// The attempts that were made.
    pub closed spec fn attempts(self) -> Set<ActionAttemptKey> {
        self.seen@.to_set()
    }

    pub fn new() -> (store: LocalActionAttemptStore)
        ensures
            store.attempts() == Set::<ActionAttemptKey>::empty(),
    {
        let store = LocalActionAttemptStore { seen: Vec::new() };
        assert(store.attempts() =~= Set::<ActionAttemptKey>::empty());
        store
    }

    /// Accepts an attempt that was not made before, and no other.
    pub fn reserve(&mut self, key: ActionAttemptKey) -> (result: Result<(), AgentSkillError>)
        ensures
            result == (if old(self).attempts().contains(key) {
                Err::<(), AgentSkillError>(AgentSkillError::DuplicateActionAttempt)
            } else {
                Ok::<(), AgentSkillError>(())
            }),
            final(self).attempts() == old(self).attempts().insert(key),
    {
        let mut i: usize = 0;
        while i < self.seen.len()
            invariant
                i <= self.seen.len(),
                self.attempts() == old(self).attempts(),
                forall|j: int| 0 <= j < i ==> self.seen@[j] != key,
            decreases self.seen.len() - i,
        {
            if self.seen[i] == key {
                assert(self.seen@.contains(key));
                assert(self.attempts().insert(key) =~= self.attempts());
                return Err(AgentSkillError::DuplicateActionAttempt);
            }
            i = i + 1;
        }
        assert(!self.seen@.contains(key));
        proof {
            self.seen@.lemma_push_to_set_commute(key);
        }
        self.seen.push(key);
        Ok(())
    }
}

/// What an agent can do from its seat.
pub trait AgentSkill {
    fn connect(&mut self, config: AgentSkillConfig) -> Result<(), AgentSkillError>;

    fn join_room(&mut self, room_id: RoomId, seat_id: SeatId) -> Result<(), AgentSkillError>;

    fn bind_seat_address(&mut self, seat_address: String) -> Result<
        RoomBindAddressRequest,
        AgentSkillError,
    >;

    fn observe(&self) -> Result<Observation, AgentSkillError>;

    fn build_game_act_request(
        &mut self,
        hand_id: HandId,
        action_seq: u32,
        action_type: ActionType,
        amount: Option<String>,
        tx_hash: Option<String>,
    ) -> Result<GameActRequest, AgentSkillError>;
}

/// An agent that keeps its state in its own process.
#[derive(Debug)]
pub struct LocalAgentSkill {
    config: Option<AgentSkillConfig>,
    seat_ctx: Option<SeatContext>,
    session_id: Option<SessionId>,
    retry_policy: RetryPolicy,
    action_attempts: LocalActionAttemptStore,
}

impl Default for LocalAgentSkill {
    fn default() -> (skill: LocalAgentSkill)
        ensures
            skill.connection() is None,
            skill.seat() is None,
            skill.session() is None,
            skill.policy() == (RetryPolicy {
                max_attempts: 3,
                retry_on_timeout: true,
                retry_on_transport_error: true,
            }),
            skill.attempts() == Set::<ActionAttemptKey>::empty(),
    {
        LocalAgentSkill {
            config: None,
            seat_ctx: None,
            session_id: None,
            retry_policy: RetryPolicy {
                max_attempts: 3,
                retry_on_timeout: true,
                retry_on_transport_error: true,
            },
            action_attempts: LocalActionAttemptStore::new(),
        }
    }
}

/// What accompanies an unsigned request of the seat: fresh names of the request, a good time, no
/// signature yet, and the name of the key that will sign it.
pub open spec fn unsigned_meta(meta: SignedRequestMeta, key_id: Seq<char>) -> bool {
    &&& is_time_ordered(meta.request_id.0)
    &&& is_fresh_text(meta.request_nonce@)
    &&& meta.request_expiry_ms == REQUEST_EXPIRY_MS
    &&& meta.signature@ == Seq::<char>::empty()
    &&& meta.signature_pubkey_id@ == key_id
}

/// The name of the key that signs the seat's requests.
pub open spec fn key_name(seat: SeatContext) -> Seq<char> {
    match seat.request_signature_pubkey_id {
        Some(name) => name@,
        None => "unset"@,
    }
}

impl LocalAgentSkill {
    pub closed spec fn connection(self) -> Option<AgentSkillConfig> {
        self.config
    }

    pub closed spec fn seat(self) -> Option<SeatContext> {
        self.seat_ctx
    }

    pub closed spec fn session(self) -> Option<SessionId> {
        self.session_id
    }

    pub closed spec fn policy(self) -> RetryPolicy {
        self.retry_policy
    }

    pub closed spec fn attempts(self) -> Set<ActionAttemptKey> {
        self.action_attempts.attempts()
    }

    /// What accompanies a new request of the seat.
    fn signed_meta(&self) -> (meta: Result<SignedRequestMeta, AgentSkillError>)
        ensures
            match self.seat() {
                None => meta == Err::<SignedRequestMeta, AgentSkillError>(
                    AgentSkillError::MissingSeatContext,
                ),
                Some(seat) => meta is Ok && unsigned_meta(meta->Ok_0, key_name(seat)),
            },
    {
        match &self.seat_ctx {
            None => Err(AgentSkillError::MissingSeatContext),
            Some(seat) => Ok(
                SignedRequestMeta {
                    request_id: RequestId::new(),
                    request_nonce: fresh_id_text(),
                    request_ts: Timestamp::now(),
                    request_expiry_ms: REQUEST_EXPIRY_MS,
                    signature_pubkey_id: match &seat.request_signature_pubkey_id {
                        Some(name) => name.clone(),
                        None => String::from_str("unset"),
                    },
                    signature: String::new(),
                },
            ),
        }
    }

    /// Asks for the state of the room's hand.
    pub fn build_get_state_request(&self, hand_id: Option<HandId>) -> (request: Result<
        GameGetStateRequest,
        AgentSkillError,
    >)
        ensures
            request == (match self.seat() {
                None => Err::<GameGetStateRequest, AgentSkillError>(
                    AgentSkillError::MissingSeatContext,
                ),
                Some(seat) => Ok::<GameGetStateRequest, AgentSkillError>(
                    GameGetStateRequest {
                        room_id: seat.room_id,
                        hand_id: hand_id,
                        seat_id: Some(seat.seat_id),
                    },
                ),
            }),
    {
        match &self.seat_ctx {
            None => Err(AgentSkillError::MissingSeatContext),
            Some(seat) => Ok(
                GameGetStateRequest {
                    room_id: seat.room_id,
                    hand_id: hand_id,
                    seat_id: Some(seat.seat_id),
                },
            ),
        }
    }

    /// Asks for the seat's choices.
    pub fn build_get_legal_actions_request(&self) -> (request: Result<
        GameGetLegalActionsRequest,
        AgentSkillError,
    >)
        ensures
            request == (match self.seat() {
                None => Err::<GameGetLegalActionsRequest, AgentSkillError>(
                    AgentSkillError::MissingSeatContext,
                ),
                Some(seat) => Ok::<GameGetLegalActionsRequest, AgentSkillError>(
                    GameGetLegalActionsRequest { room_id: seat.room_id, seat_id: seat.seat_id },
                ),
            }),
    {
        match &self.seat_ctx {
            None => Err(AgentSkillError::MissingSeatContext),
            Some(seat) => Ok(
                GameGetLegalActionsRequest { room_id: seat.room_id, seat_id: seat.seat_id },
            ),
        }
    }

    /// Says that the player on the seat is ready.
    pub fn build_room_ready_request(&self) -> (request: Result<RoomReadyRequest, AgentSkillError>)
        ensures
            match self.seat() {
                None => request == Err::<RoomReadyRequest, AgentSkillError>(
                    AgentSkillError::MissingSeatContext,
                ),
                Some(seat) => {
                    &&& request is Ok
                    &&& request->Ok_0.room_id == seat.room_id
                    &&& request->Ok_0.seat_id == seat.seat_id
                    &&& unsigned_meta(request->Ok_0.request_meta, key_name(seat))
                },
            },
    {
        let meta = match self.signed_meta() {
            Ok(meta) => meta,
            Err(error) => {
                return Err(error);
            },
        };
        match &self.seat_ctx {
            None => Err(AgentSkillError::MissingSeatContext),
            Some(seat) => Ok(
                RoomReadyRequest {
                    room_id: seat.room_id,
                    seat_id: seat.seat_id,
                    request_meta: meta,
                },
            ),
        }
    }

    /// Asks to tie the seat to its keys, with the seat's address as the name of the key that
    /// will sign.
    pub fn build_bind_session_keys_request_unsigned(
        &mut self,
        card_encrypt_pubkey_hex: String,
        key_algo: String,
    ) -> (request: Result<RoomBindSessionKeysRequest, AgentSkillError>)
        ensures
            *final(self) == *old(self),
            match old(self).seat() {
                Some(SeatContext { room_id, seat_id, seat_address: Some(address), .. }) => {
                    &&& request is Ok
                    &&& request->Ok_0.room_id == room_id
                    &&& request->Ok_0.seat_id == seat_id
                    &&& request->Ok_0.seat_address@ == address@
                    &&& request->Ok_0.card_encrypt_pubkey == card_encrypt_pubkey_hex
                    &&& request->Ok_0.request_verify_pubkey@ == Seq::<char>::empty()
                    &&& request->Ok_0.key_algo == key_algo
                    &&& request->Ok_0.proof_signature@ == Seq::<char>::empty()
                    &&& unsigned_meta(request->Ok_0.request_meta, address@)
                },
                _ => request == Err::<RoomBindSessionKeysRequest, AgentSkillError>(
                    AgentSkillError::MissingSeatContext,
                ),
            },
    {
        let mut meta = match self.signed_meta() {
            Ok(meta) => meta,
            Err(error) => {
                return Err(error);
            },
        };
        match &self.seat_ctx {
            None => Err(AgentSkillError::MissingSeatContext),
            Some(seat) => match &seat.seat_address {
                None => Err(AgentSkillError::MissingSeatContext),
                Some(address) => {
                    meta.signature_pubkey_id = address.clone();
                    Ok(
                        RoomBindSessionKeysRequest {
                            room_id: seat.room_id,
                            seat_id: seat.seat_id,
                            seat_address: address.clone(),
                            card_encrypt_pubkey: card_encrypt_pubkey_hex,
                            request_verify_pubkey: String::new(),
                            key_algo: key_algo,
                            proof_signature: String::new(),
                            request_meta: meta,
                        },
                    )
                },
            },
        }
    }

    /// Of payloads, each with the bytes that were decoded from it or the reason why they were
    /// not, hands out the bytes of those meant for this seat; one that could not be decoded
    /// makes it fail.
    pub fn decrypt_private_payloads_placeholder(
        &self,
        payloads: &Vec<(SeatEventAad, Result<Vec<u8>, String>)>,
    ) -> (bytes: Result<Vec<Vec<u8>>, AgentSkillError>)
        ensures
            match self.seat() {
                None => bytes == Err::<Vec<Vec<u8>>, AgentSkillError>(
                    AgentSkillError::MissingSeatContext,
                ),
                Some(seat) => match decoded_for(payloads@, seat.room_id, seat.seat_id, payloads@.len()) {
                    Ok(wanted) => bytes is Ok && bytes->Ok_0@.map_values(|b: Vec<u8>| b@) == wanted,
                    Err(detail) => bytes is Err && bytes->Err_0 is SeatCrypto
                        && bytes->Err_0->SeatCrypto_0@ == detail,
                },
            },
    {
        match &self.seat_ctx {
            None => Err(AgentSkillError::MissingSeatContext),
            Some(seat) => {
                let mut found: Vec<Vec<u8>> = Vec::new();
                let mut i: usize = 0;
                assert(found@.map_values(|b: Vec<u8>| b@) =~= Seq::<Seq<u8>>::empty());
                while i < payloads.len()
                    invariant
                        i <= payloads.len(),
                        self.seat() == Some(*seat),
                        decoded_for(payloads@, seat.room_id, seat.seat_id, i as nat) == Ok::<
                            Seq<Seq<u8>>,
                            Seq<char>,
                        >(found@.map_values(|b: Vec<u8>| b@)),
                    decreases payloads.len() - i,
                {
                    let (aad, decoded) = &payloads[i];
                    if aad.room_id == seat.room_id && aad.seat_id == seat.seat_id {
                        match decoded {
                            Ok(bytes) => {
                                let ghost before = found@.map_values(|b: Vec<u8>| b@);
                                let copy = bytes.clone();
                                assert(copy@ =~= bytes@);
                                found.push(copy);
                                assert(found@.map_values(|b: Vec<u8>| b@) =~= before.push(bytes@));
                            },
                            Err(detail) => {
                                proof {
                                    lemma_decoded_fails_early(
                                        payloads@,
                                        seat.room_id,
                                        seat.seat_id,
                                        (i + 1) as nat,
                                        payloads@.len(),
                                    );
                                }
                                return Err(AgentSkillError::SeatCrypto(detail.clone()));
                            },
                        }
                    }
                    i = i + 1;
                }
                Ok(found)
            },
        }
    }

    /// Tests whether the action is one of the legal ones.
    pub fn validate_action_choice(&self, legal_actions: &Vec<String>, action_type: ActionType) -> (result:
        Result<(), AgentSkillError>)
        ensures
            result == (if lists(legal_actions@, action_type.spec_label()) {
                Ok::<(), AgentSkillError>(())
            } else {
                Err::<(), AgentSkillError>(AgentSkillError::ActionNotLegal)
            }),
    {
        if contains_text(legal_actions, action_type.label()) {
            Ok(())
        } else {
            Err(AgentSkillError::ActionNotLegal)
        }
    }

    pub fn retry_policy(&self) -> (policy: &RetryPolicy)
        ensures
            *policy == self.policy(),
    {
        &self.retry_policy
    }

    pub fn set_retry_policy(&mut self, retry_policy: RetryPolicy)
        ensures
            final(self).policy() == retry_policy,
            final(self).connection() == old(self).connection(),
            final(self).seat() == old(self).seat(),
            final(self).session() == old(self).session(),
            final(self).attempts() == old(self).attempts(),
    {
        self.retry_policy = retry_policy;
    }

    /// Notes an attempt to act; the same attempt cannot be noted twice.
    pub fn reserve_action_attempt(&mut self, hand_id: HandId, action_seq: u32) -> (result: Result<
        (),
        AgentSkillError,
    >)
        ensures
            final(self).connection() == old(self).connection(),
            final(self).seat() == old(self).seat(),
            final(self).session() == old(self).session(),
            final(self).policy() == old(self).policy(),
            match old(self).seat() {
                None => {
                    &&& result == Err::<(), AgentSkillError>(AgentSkillError::MissingSeatContext)
                    &&& final(self).attempts() == old(self).attempts()
                },
                Some(seat) => {
                    let key = ActionAttemptKey {
                        room_id: seat.room_id,
                        hand_id: hand_id,
                        seat_id: seat.seat_id,
                        action_seq: action_seq,
                    };
                    &&& result == (if old(self).attempts().contains(key) {
                        Err::<(), AgentSkillError>(AgentSkillError::DuplicateActionAttempt)
                    } else {
                        Ok::<(), AgentSkillError>(())
                    })
                    &&& final(self).attempts() == old(self).attempts().insert(key)
                },
            },
    {
        let (room_id, seat_id) = match &self.seat_ctx {
            None => {
                return Err(AgentSkillError::MissingSeatContext);
            },
            Some(seat) => (seat.room_id, seat.seat_id),
        };
        self.action_attempts.reserve(
            ActionAttemptKey {
                room_id: room_id,
                hand_id: hand_id,
                seat_id: seat_id,
                action_seq: action_seq,
            },
        )
    }
}

/// Whether a text is one of a list.
pub open spec fn lists(texts: Seq<String>, text: Seq<char>) -> bool {
    exists|i: int| 0 <= i < texts.len() && (#[trigger] texts[i])@ == text
}

/// Whether a text is one of a list.
pub fn contains_text(texts: &Vec<String>, text: &str) -> (found: bool)
    ensures
        found == lists(texts@, text@),
{
    let mut i: usize = 0;
    while i < texts.len()
        invariant
            i <= texts.len(),
            forall|j: int| 0 <= j < i ==> (#[trigger] texts@[j])@ != text@,
        decreases texts.len() - i,
    {
        if same_text(texts[i].as_str(), text) {
            return true;
        }
        i = i + 1;
    }
    false
}

/// The bytes of the first `count` payloads that are meant for the seat, or the first reason
/// why one of them could not be decoded.
pub open spec fn decoded_for(
    payloads: Seq<(SeatEventAad, Result<Vec<u8>, String>)>,
    room_id: RoomId,
    seat_id: SeatId,
    count: nat,
) -> Result<Seq<Seq<u8>>, Seq<char>>
    decreases count,
{
    if count == 0 {
        Ok(Seq::empty())
    } else {
        match decoded_for(payloads, room_id, seat_id, (count - 1) as nat) {
            Err(detail) => Err(detail),
            Ok(front) => {
                let (aad, decoded) = payloads[count - 1];
                if aad.room_id == room_id && aad.seat_id == seat_id {
                    match decoded {
                        Ok(bytes) => Ok(front.push(bytes@)),
                        Err(detail) => Err(detail@),
                    }
                } else {
                    Ok(front)
                }
            },
        }
    }
}

proof fn lemma_decoded_fails_early(
    payloads: Seq<(SeatEventAad, Result<Vec<u8>, String>)>,
    room_id: RoomId,
    seat_id: SeatId,
    count: nat,
    all: nat,
)
    requires
        count <= all,
        decoded_for(payloads, room_id, seat_id, count) is Err,
    ensures
        decoded_for(payloads, room_id, seat_id, all) == decoded_for(
            payloads,
            room_id,
            seat_id,
            count,
        ),
    decreases all - count,
{
    if count < all {
        lemma_decoded_fails_early(payloads, room_id, seat_id, count + 1, all);
    }
}

impl AgentSkill for LocalAgentSkill {
    /// Remembers where the server is and the session that goes with it.
    fn connect(&mut self, config: AgentSkillConfig) -> (result: Result<(), AgentSkillError>)
        ensures
            result is Ok,
            final(self).connection() == Some(config),
            final(self).session() == config.session_id,
            final(self).seat() == old(self).seat(),
            final(self).policy() == old(self).policy(),
            final(self).attempts() == old(self).attempts(),
    {
        self.session_id = config.session_id;
        self.config = Some(config);
        Ok(())
    }

    /// Takes a seat, which needs a connection.
    fn join_room(&mut self, room_id: RoomId, seat_id: SeatId) -> (result: Result<
        (),
        AgentSkillError,
    >)
        ensures
            old(self).connection() is None ==> {
                &&& result == Err::<(), AgentSkillError>(AgentSkillError::NotConnected)
                &&& *final(self) == *old(self)
            },
            old(self).connection() is Some ==> {
                &&& result is Ok
                &&& final(self).seat() == Some(
                    SeatContext {
                        room_id: room_id,
                        seat_id: seat_id,
                        seat_address: None,
                        request_signature_pubkey_id: None,
                    },
                )
                &&& final(self).connection() == old(self).connection()
                &&& final(self).session() == old(self).session()
                &&& final(self).policy() == old(self).policy()
                &&& final(self).attempts() == old(self).attempts()
            },
    {
        if self.config.is_none() {
            return Err(AgentSkillError::NotConnected);
        }
        self.seat_ctx = Some(
            SeatContext {
                room_id: room_id,
                seat_id: seat_id,
                seat_address: None,
                request_signature_pubkey_id: None,
            },
        );
        Ok(())
    }

    /// Remembers the seat's address and asks to tie the seat to it.
    fn bind_seat_address(&mut self, seat_address: String) -> (request: Result<
        RoomBindAddressRequest,
        AgentSkillError,
    >)
        ensures
            final(self).connection() == old(self).connection(),
            final(self).session() == old(self).session(),
            final(self).policy() == old(self).policy(),
            final(self).attempts() == old(self).attempts(),
            match old(self).seat() {
                None => {
                    &&& request == Err::<RoomBindAddressRequest, AgentSkillError>(
                        AgentSkillError::MissingSeatContext,
                    )
                    &&& final(self).seat() is None
                },
                Some(seat) => {
                    &&& request is Ok
                    &&& request->Ok_0.room_id == seat.room_id
                    &&& request->Ok_0.seat_id == seat.seat_id
                    &&& request->Ok_0.seat_address == seat_address
                    &&& unsigned_meta(request->Ok_0.request_meta, key_name(seat))
                    &&& final(self).seat() == Some(
                        SeatContext { seat_address: Some(seat_address), ..seat },
                    )
                },
            },
    {
        let meta = match self.signed_meta() {
            Ok(meta) => meta,
            Err(error) => {
                return Err(error);
            },
        };
        let seat = match &self.seat_ctx {
            None => {
                return Err(AgentSkillError::MissingSeatContext);
            },
            Some(seat) => SeatContext {
                room_id: seat.room_id,
                seat_id: seat.seat_id,
                seat_address: Some(seat_address.clone()),
                request_signature_pubkey_id: copy_optional_text(&seat.request_signature_pubkey_id),
            },
        };
        let request = RoomBindAddressRequest {
            room_id: seat.room_id,
            seat_id: seat.seat_id,
            seat_address: seat_address,
            request_meta: meta,
        };
        self.seat_ctx = Some(seat);
        Ok(request)
    }

    /// What the agent knows of the table without asking: its seat.
    fn observe(&self) -> (seen: Result<Observation, AgentSkillError>)
        ensures
            match self.seat() {
                None => seen == Err::<Observation, AgentSkillError>(
                    AgentSkillError::MissingSeatContext,
                ),
                Some(seat) => {
                    &&& seen is Ok
                    &&& seen->Ok_0.room_id == seat.room_id
                    &&& seen->Ok_0.seat_id == seat.seat_id
                    &&& seen->Ok_0.hand_id is None
                    &&& seen->Ok_0.legal_actions@.len() == 0
                    &&& seen->Ok_0.public_state@ == JsonView::Object(Seq::empty())
                    &&& seen->Ok_0.private_payloads@.len() == 0
                },
            },
    {
        match &self.seat_ctx {
            None => Err(AgentSkillError::MissingSeatContext),
            Some(seat) => {
                let public_state = crate::domain::events::object(Vec::new());
                assert(public_state@->Object_0 =~= Seq::empty());
                Ok(
                    Observation {
                        room_id: seat.room_id,
                        hand_id: None,
                        seat_id: seat.seat_id,
                        legal_actions: Vec::new(),
                        public_state: public_state,
                        private_payloads: Vec::new(),
                    },
                )
            },
        }
    }

    /// Asks for an action, once for each number of an action.
    fn build_game_act_request(
        &mut self,
        hand_id: HandId,
        action_seq: u32,
        action_type: ActionType,
        amount: Option<String>,
        tx_hash: Option<String>,
    ) -> (request: Result<GameActRequest, AgentSkillError>)
        ensures
            final(self).connection() == old(self).connection(),
            final(self).seat() == old(self).seat(),
            final(self).session() == old(self).session(),
            final(self).policy() == old(self).policy(),
            match old(self).seat() {
                None => {
                    &&& request == Err::<GameActRequest, AgentSkillError>(
                        AgentSkillError::MissingSeatContext,
                    )
                    &&& final(self).attempts() == old(self).attempts()
                },
                Some(seat) => {
                    let key = ActionAttemptKey {
                        room_id: seat.room_id,
                        hand_id: hand_id,
                        seat_id: seat.seat_id,
                        action_seq: action_seq,
                    };
                    &&& final(self).attempts() == old(self).attempts().insert(key)
                    &&& old(self).attempts().contains(key) ==> request == Err::<
                        GameActRequest,
                        AgentSkillError,
                    >(AgentSkillError::DuplicateActionAttempt)
                    &&& !old(self).attempts().contains(key) ==> {
                        &&& request is Ok
                        &&& request->Ok_0.room_id == seat.room_id
                        &&& request->Ok_0.hand_id == hand_id
                        &&& request->Ok_0.action_seq == action_seq
                        &&& request->Ok_0.seat_id == seat.seat_id
                        &&& request->Ok_0.action_type@ == action_type.spec_label()
                        &&& request->Ok_0.amount == amount
                        &&& request->Ok_0.tx_hash == tx_hash
                        &&& unsigned_meta(request->Ok_0.request_meta, key_name(seat))
                    }
                },
            },
    {
        match self.reserve_action_attempt(hand_id, action_seq) {
            Ok(_) => {},
            Err(error) => {
                return Err(error);
            },
        }
        let meta = match self.signed_meta() {
            Ok(meta) => meta,
            Err(error) => {
                return Err(error);
            },
        };
        match &self.seat_ctx {
            None => Err(AgentSkillError::MissingSeatContext),
            Some(seat) => Ok(
                GameActRequest {
                    room_id: seat.room_id,
                    hand_id: hand_id,
                    action_seq: action_seq,
                    seat_id: seat.seat_id,
                    action_type: String::from_str(action_type.label()),
                    amount: amount,
                    tx_hash: tx_hash,
                    request_meta: meta,
                },
            ),
        }
    }
}

} // verus!
