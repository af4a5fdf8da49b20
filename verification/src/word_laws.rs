//! The words for errors, codes and states.
use vstd::prelude::*;

use crate::agent_sdk::AgentSkillError;
use crate::audit::AuditStoreError;
use crate::auth::AuthError;
use crate::cards::{card_text, CardsFault};
use crate::chain_watcher::ChainWatcherError;
use crate::client::policy::{PolicyAdapterError, PolicySource};
use crate::client::runtime::RuntimeError;
use crate::client::wallet::WalletAdapterError;
use crate::domain::errors::DomainError;
use crate::ledger::LedgerStoreError;
use crate::platform::{ConfigError, ErrorCode};
use crate::server::audit_events::RequestRejectReason;
use crate::server::settings::SettlementMode;
use crate::server::settlement::SettlementTxStatus;
use crate::text::NumberError;

verus! {

/// How errors of an agent are told.
pub proof fn skill_errors_have_their_words(error: AgentSkillError)
    ensures
        error is NotConnected ==> error.spec_message() == "not connected"@,
        error is MissingSeatContext ==> error.spec_message() == "seat context missing"@,
        error matches AgentSkillError::Serialization(detail)
            ==> error.spec_message() == "serialization error: "@ + detail@,
        error matches AgentSkillError::SeatCrypto(detail)
            ==> error.spec_message() == "seat crypto error: "@ + detail@,
        error is ActionNotLegal ==> error.spec_message() == "action not in legal action set"@,
        error is DuplicateActionAttempt
            ==> error.spec_message() == "duplicate action attempt detected"@,
{
}

/// How errors of the audit are told.
pub proof fn audit_errors_have_their_words(error: AuditStoreError)
    ensures
        error is NotImplemented ==> error.spec_message() == "not implemented"@,
        error is LockPoisoned ==> error.spec_message() == "store lock poisoned"@,
        error matches AuditStoreError::Database(detail)
            ==> error.spec_message() == "database error: "@ + detail@,
        error matches AuditStoreError::InvalidUuid { field, value }
            ==> error.spec_message() == "invalid uuid in field "@ + field@ + ": "@ + value@,
        error matches AuditStoreError::Serialization(detail)
            ==> error.spec_message() == "serialization error: "@ + detail@,
{
}

/// How errors of authentication are told.
pub proof fn authentication_errors_have_their_words(error: AuthError)
    ensures
        error is RequestExpired ==> error.spec_message() == "request expired"@,
        error is RequestFromFuture
            ==> error.spec_message() == "request timestamp too far in future"@,
        error matches AuthError::Serialization(detail)
            ==> error.spec_message() == "serialization error: "@ + detail@,
        error is InvalidEthereumSignature ==> error.spec_message() == "invalid ethereum signature"@,
        error is EthereumSignatureRecoveryFailed
            ==> error.spec_message() == "ethereum signature recovery failed"@,
        error is EthereumAddressMismatch ==> error.spec_message() == "ethereum address mismatch"@,
        error is ReplayDetected ==> error.spec_message() == "replay request detected"@,
        error is ReplayStoreUnavailable ==> error.spec_message() == "replay store unavailable"@,
        error is IdempotencyKeyConflict
            ==> error.spec_message() == "idempotency key already consumed"@,
        error is IdempotencyStoreUnavailable
            ==> error.spec_message() == "idempotency store unavailable"@,
{
}

/// How faults of cards are told.
pub proof fn card_faults_have_their_words(fault: CardsFault)
    ensures
        fault is Value ==> fault.message() == "Unable to parse value"@,
        fault is Suit ==> fault.message() == "Unable to parse suit"@,
        fault matches CardsFault::Twice(card)
            ==> fault.message() == "Card already added to hand "@ + card_text(card),
{
}

/// How errors of the watcher of the chain are told.
pub proof fn watcher_errors_have_their_words(error: ChainWatcherError)
    ensures
        error is UnsupportedRpc ==> error.spec_message() == "unsupported chain rpc"@,
        error matches ChainWatcherError::CallbackSink(detail)
            ==> error.spec_message() == "callback sink error: "@ + detail@,
        error matches ChainWatcherError::Http(detail)
            ==> error.spec_message() == "http error: "@ + detail@,
        error matches ChainWatcherError::Rpc(detail)
            ==> error.spec_message() == "rpc response error: "@ + detail@,
        error matches ChainWatcherError::Parse(detail)
            ==> error.spec_message() == "parse error: "@ + detail@,
{
}

/// How errors of a policy are told.
pub proof fn policy_errors_have_their_words(error: PolicyAdapterError)
    ensures
        error is BackendUnavailable ==> error.spec_message() == "policy backend unavailable"@,
        error is InvalidDecision ==> error.spec_message() == "invalid policy decision"@,
{
}

/// How the source of a decision is named.
pub proof fn sources_have_their_words(source: PolicySource)
    ensures
        source is Rule ==> source.spec_label() == "rule"@,
        source is Llm ==> source.spec_label() == "llm"@,
        source is Script ==> source.spec_label() == "script"@,
{
}

/// How errors of the client are told.
pub proof fn client_errors_have_their_words(error: RuntimeError)
    ensures
        error matches RuntimeError::AgentSkill(detail)
            ==> error.spec_message() == "agent skill error: "@ + detail@,
        error matches RuntimeError::Http(detail)
            ==> error.spec_message() == "http error: "@ + detail@,
        error is RpcMissingResult ==> error.spec_message() == "rpc response missing result"@,
        error matches RuntimeError::RpcApp(detail)
            ==> error.spec_message() == "rpc application error: "@ + detail@,
        error matches RuntimeError::Wallet(detail)
            ==> error.spec_message() == "wallet error: "@ + detail@,
        error is NotOurTurn ==> error.spec_message() == "not our turn"@,
        error is StateUnavailable ==> error.spec_message() == "state unavailable"@,
        error matches RuntimeError::Policy(detail)
            ==> error.spec_message() == "policy error: "@ + detail@,
        error matches RuntimeError::Crypto(detail)
            ==> error.spec_message() == "crypto error: "@ + detail@,
{
}

/// How errors of a wallet are told.
pub proof fn wallet_errors_have_their_words(error: WalletAdapterError)
    ensures
        error is NotConfigured ==> error.spec_message() == "wallet not configured"@,
        error is RpcUnavailable ==> error.spec_message() == "rpc unavailable"@,
        error matches WalletAdapterError::Http(detail)
            ==> error.spec_message() == "http error: "@ + detail@,
        error matches WalletAdapterError::Rpc(detail)
            ==> error.spec_message() == "rpc error: "@ + detail@,
        error matches WalletAdapterError::Parse(detail)
            ==> error.spec_message() == "parse error: "@ + detail@,
{
}

/// How errors of the rules are told.
pub proof fn rule_errors_have_their_words(error: DomainError)
    ensures
        error is InvalidRoomState ==> error.spec_message() == "invalid room state"@,
        error is InvalidHandState ==> error.spec_message() == "invalid hand state"@,
        error is ActionIllegal ==> error.spec_message() == "action is not legal"@,
        error is NotYourTurn ==> error.spec_message() == "not your turn"@,
{
}

/// How errors of the ledger are told.
pub proof fn ledger_errors_have_their_words(error: LedgerStoreError)
    ensures
        error is NotImplemented ==> error.spec_message() == "not implemented"@,
        error is LockPoisoned ==> error.spec_message() == "store lock poisoned"@,
        error is DuplicateTxBinding
            ==> error.spec_message() == "duplicate tx binding for hand/action"@,
        error is DuplicateTxHashBinding ==> error.spec_message() == "duplicate tx hash binding"@,
        error matches LedgerStoreError::Database(detail)
            ==> error.spec_message() == "database error: "@ + detail@,
        error is MissingExpectedAmount
            ==> error.spec_message() == "expected_amount is required for tx_binding"@,
{
}

/// How errors of the configuration are told.
pub proof fn configuration_errors_have_their_words(error: ConfigError)
    ensures
        error matches ConfigError::InvalidEnv(value)
            ==> error.spec_message() == "invalid APP_ENV value: "@ + value@,
        error is ConfigDirNotFound
            ==> error.spec_message()
            == "unable to locate config directory (expected config/default.toml)"@,
        error matches ConfigError::ReadFile { path, source }
            ==> error.spec_message() == "failed reading config file "@ + path@ + ": "@ + source@,
        error matches ConfigError::ParseToml { path, source }
            ==> error.spec_message() == "failed parsing config file "@ + path@ + ": "@ + source@,
{
}

/// How codes of errors stand in documents.
pub proof fn codes_have_their_words(code: ErrorCode)
    ensures
        code is RequestInvalid ==> code.spec_name() == "REQUEST_INVALID"@,
        code is Forbidden ==> code.spec_name() == "FORBIDDEN"@,
        code is RoomListFailed ==> code.spec_name() == "ROOM_LIST_FAILED"@,
        code is RoomCreateFailed ==> code.spec_name() == "ROOM_CREATE_FAILED"@,
        code is RoomReadyFailed ==> code.spec_name() == "ROOM_READY_FAILED"@,
        code is RoomBindAddressFailed ==> code.spec_name() == "ROOM_BIND_ADDRESS_FAILED"@,
        code is RoomBindKeysFailed ==> code.spec_name() == "ROOM_BIND_KEYS_FAILED"@,
        code is GameGetStateFailed ==> code.spec_name() == "GAME_GET_STATE_FAILED"@,
        code is GameActFailed ==> code.spec_name() == "GAME_ACT_FAILED"@,
        code is KeyBindingProofInvalid ==> code.spec_name() == "KEY_BINDING_PROOF_INVALID"@,
        code is SubscribeFailed ==> code.spec_name() == "SUBSCRIBE_FAILED"@,
        code is UnsubscribeFailed ==> code.spec_name() == "UNSUBSCRIBE_FAILED"@,
        code is InternalError ==> code.spec_name() == "INTERNAL_ERROR"@,
{
}

/// How codes of errors stand in logs.
pub proof fn codes_have_their_names(code: ErrorCode)
    ensures
        code is RequestInvalid ==> code.spec_label() == "RequestInvalid"@,
        code is Forbidden ==> code.spec_label() == "Forbidden"@,
        code is RoomListFailed ==> code.spec_label() == "RoomListFailed"@,
        code is RoomCreateFailed ==> code.spec_label() == "RoomCreateFailed"@,
        code is RoomReadyFailed ==> code.spec_label() == "RoomReadyFailed"@,
        code is RoomBindAddressFailed ==> code.spec_label() == "RoomBindAddressFailed"@,
        code is RoomBindKeysFailed ==> code.spec_label() == "RoomBindKeysFailed"@,
        code is GameGetStateFailed ==> code.spec_label() == "GameGetStateFailed"@,
        code is GameActFailed ==> code.spec_label() == "GameActFailed"@,
        code is KeyBindingProofInvalid ==> code.spec_label() == "KeyBindingProofInvalid"@,
        code is SubscribeFailed ==> code.spec_label() == "SubscribeFailed"@,
        code is UnsubscribeFailed ==> code.spec_label() == "UnsubscribeFailed"@,
        code is InternalError ==> code.spec_label() == "InternalError"@,
{
}

/// How reasons of rejections are named.
pub proof fn rejections_have_their_words(reason: RequestRejectReason)
    ensures
        reason is RequestExpiredOrInvalidWindow
            ==> reason.spec_name() == "RequestExpiredOrInvalidWindow"@,
        reason is MissingOrInvalidSignature ==> reason.spec_name() == "MissingOrInvalidSignature"@,
        reason is InvalidKeyBindingProof ==> reason.spec_name() == "InvalidKeyBindingProof"@,
        reason is ReplayRejected ==> reason.spec_name() == "ReplayRejected"@,
{
}

/// How modes of settlement are named.
pub proof fn modes_have_their_words(mode: SettlementMode)
    ensures
        mode is Batch ==> mode.spec_name() == "batch"@,
        mode is Direct ==> mode.spec_name() == "direct"@,
        mode is Disabled ==> mode.spec_name() == "disabled"@,
{
}

/// How the states of a payment are named.
pub proof fn payments_have_their_words(status: SettlementTxStatus)
    ensures
        status is Confirmed ==> status.spec_name() == "confirmed"@,
        status is Pending ==> status.spec_name() == "pending"@,
        status is Failed ==> status.spec_name() == "failed"@,
{
}

/// How faults of numbers are told.
pub proof fn number_faults_have_their_words(fault: NumberError)
    ensures
        fault is Empty ==> fault.spec_message() == "cannot parse integer from empty string"@,
        fault is InvalidDigit ==> fault.spec_message() == "invalid digit found in string"@,
        fault is PosOverflow ==> fault.spec_message() == "number too large to fit in target type"@,
{
}

} // verus!
