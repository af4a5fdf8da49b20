//! Whether a transaction that a player names is the payment that is expected.
use vstd::prelude::*;
use vstd::string::StringExecFns;

use crate::backoff::{capped_backoff_ms, capped_wait};
use crate::domain::game::SeatId;
use crate::domain::ids::{HandId, RoomId};
use crate::domain::money::Chips;
use crate::text::{
    chars_of, copy_optional_text, lemma_hex_digits, lemma_solid_text, number_text,
    numbers_read_back, parse_number, read_number, same_text, signed_decimal, signed_decimal_text,
    strip_prefix, trim, trimmed, without_prefix, NumberError,
};

verus! {

/// Why a transaction could not be looked at.
#[derive(Debug, PartialEq, Eq)]
pub enum ChainWatcherError {
    UnsupportedRpc,
    CallbackSink(String),
    Http(String),
    Rpc(String),
    Parse(String),
}

impl ChainWatcherError {
    pub open spec fn spec_message(self) -> Seq<char> {
        match self {
            ChainWatcherError::UnsupportedRpc => "unsupported chain rpc"@,
            ChainWatcherError::CallbackSink(detail) => "callback sink error: "@ + detail@,
            ChainWatcherError::Http(detail) => "http error: "@ + detail@,
            ChainWatcherError::Rpc(detail) => "rpc response error: "@ + detail@,
            ChainWatcherError::Parse(detail) => "parse error: "@ + detail@,
        }
    }

    /// What the error says to a reader.
    pub fn message(&self) -> (text: String)
        ensures
            text@ == self.spec_message(),
    {
        match self {
            ChainWatcherError::UnsupportedRpc => String::from_str("unsupported chain rpc"),
            ChainWatcherError::CallbackSink(detail) => String::from_str(
                "callback sink error: ",
            ).concat(detail.as_str()),
            ChainWatcherError::Http(detail) => String::from_str("http error: ").concat(
                detail.as_str(),
            ),
            ChainWatcherError::Rpc(detail) => String::from_str("rpc response error: ").concat(
                detail.as_str(),
            ),
            ChainWatcherError::Parse(detail) => String::from_str("parse error: ").concat(
                detail.as_str(),
            ),
        }
    }
}

/// What became of a transaction.
#[derive(Debug, Clone, Copy, PartialEq, Eq, Structural)]
pub enum VerificationStatus {
    Pending,
    Matched,
    Late,
    Unmatched,
    Failed,
}

impl VerificationStatus {
    pub open spec fn spec_name(self) -> Seq<char> {
        match self {
            VerificationStatus::Pending => "pending"@,
            VerificationStatus::Matched => "matched"@,
            VerificationStatus::Late => "late"@,
            VerificationStatus::Unmatched => "unmatched"@,
            VerificationStatus::Failed => "failed"@,
        }
    }

    /// The name in records.
    pub fn name(self) -> (name: &'static str)
        ensures
            name@ == self.spec_name(),
    {
        match self {
            VerificationStatus::Pending => "pending",
            VerificationStatus::Matched => "matched",
            VerificationStatus::Late => "late",
            VerificationStatus::Unmatched => "unmatched",
            VerificationStatus::Failed => "failed",
        }
    }
}

/// The payment that is expected.
#[derive(Debug, PartialEq, Eq)]
pub struct TxVerificationInput {
    pub room_id: RoomId,
    pub hand_id: Option<HandId>,
    pub seat_id: Option<SeatId>,
    pub action_seq: Option<u32>,
    pub tx_hash: String,
    pub expected_to: String,
    pub expected_from: Option<String>,
    pub expected_amount: Option<Chips>,
    pub min_confirmations: u64,
}

#[derive(Debug, PartialEq, Eq)]
pub struct TxVerificationResult {
    pub tx_hash: String,
    pub status: VerificationStatus,
    pub confirmations: u64,
    pub failure_reason: Option<String>,
}

/// What is told of a transaction.
#[derive(Debug, PartialEq, Eq)]
pub struct TxVerificationCallback {
    pub room_id: RoomId,
    pub hand_id: Option<HandId>,
    pub seat_id: Option<SeatId>,
    pub action_seq: Option<u32>,
    pub tx_hash: String,
    pub status: VerificationStatus,
    pub confirmations: u64,
    pub failure_reason: Option<String>,
}

/// A transaction as the chain shows it.
#[derive(Debug, PartialEq, Eq)]
pub struct ObservedTx {
    pub tx_hash: String,
    pub from: String,
    pub to: String,
    pub value: Chips,
    pub success: bool,
    pub confirmations: u64,
}

#[derive(Debug, Clone, Copy, PartialEq, Eq, Structural)]
pub enum ConfirmationDecision {
    Pending,
    Confirmed,
}

/// How often, and after which waits, a transaction is looked for.
#[derive(Debug, Clone, Copy, PartialEq, Eq, Structural)]
pub struct RetryPolicy {
    pub max_attempts: u32,
    pub base_backoff_ms: u64,
    pub max_backoff_ms: u64,
}

impl Default for RetryPolicy {
    fn default() -> (policy: RetryPolicy)
        ensures
            policy.max_attempts == 5,
            policy.base_backoff_ms == 300,
            policy.max_backoff_ms == 5_000,
    {
        RetryPolicy { max_attempts: 5, base_backoff_ms: 300, max_backoff_ms: 5_000 }
    }
}

impl RetryPolicy {
    /// The wait after attempt number `attempt_no`, in milliseconds.
    pub fn backoff_ms(&self, attempt_no: u32) -> (wait: u64)
        ensures
            wait == capped_wait(self.base_backoff_ms, self.max_backoff_ms, attempt_no),
    {
        capped_backoff_ms(self.base_backoff_ms, self.max_backoff_ms, attempt_no)
    }
}

/// The number that a quantity of the chain's interface stands for; nothing stands for zero.
pub open spec fn hex_quantity(text: Seq<char>, max: int) -> Result<int, NumberError> {
    let raw = without_prefix(trimmed(text), "0x"@);
    if raw.len() == 0 {
        Ok(0)
    } else {
        read_number(raw, 16, max)
    }
}

/// Whether reading a quantity of the chain's interface gave what it should.
pub open spec fn reads_quantity(
    text: Seq<char>,
    max: int,
    read: Result<u128, ChainWatcherError>,
) -> bool {
    match hex_quantity(text, max) {
        Ok(n) => read is Ok && read->Ok_0 == n,
        Err(fault) => read is Err && read->Err_0 is Parse && read->Err_0->Parse_0@
            == fault.spec_message(),
    }
}

fn parse_quantity(input: &str, max: u128) -> (read: Result<u128, ChainWatcherError>)
    ensures
        reads_quantity(input@, max as int, read),
        read is Ok ==> read->Ok_0 <= max,
{
    let trimmed_input = trim(&chars_of(input));
    let raw = strip_prefix(&trimmed_input, "0x");
    if raw.len() == 0 {
        return Ok(0);
    }
    match parse_number(&raw, 16, max) {
        Ok(n) => Ok(n),
        Err(fault) => Err(ChainWatcherError::Parse(String::from_str(fault.message()))),
    }
}

/// Widens a quantity, so that both kinds of quantities are spoken of alike.
pub open spec fn widened(read: Result<u64, ChainWatcherError>) -> Result<u128, ChainWatcherError> {
    match read {
        Ok(n) => Ok(n as u128),
        Err(error) => Err(error),
    }
}

/// Reads a quantity of at most 64 bits.
pub fn parse_hex_u64(input: &str) -> (read: Result<u64, ChainWatcherError>)
    ensures
        reads_quantity(input@, u64::MAX as int, widened(read)),
{
    match parse_quantity(input, u64::MAX as u128) {
        Ok(n) => Ok(n as u64),
        Err(error) => Err(error),
    }
}

/// Reads a quantity of at most 128 bits.
pub fn parse_hex_u128(input: &str) -> (read: Result<u128, ChainWatcherError>)
    ensures
        reads_quantity(input@, u128::MAX as int, read),
{
    parse_quantity(input, u128::MAX)
}

/// What a node of the chain says went wrong.
#[derive(Debug, PartialEq, Eq)]
pub struct JsonRpcErrorObj {
    pub code: i64,
    pub message: String,
}

/// The answer of a node of the chain.
#[derive(Debug, PartialEq, Eq)]
pub struct JsonRpcResponse<T> {
    pub result: Option<T>,
    pub error: Option<JsonRpcErrorObj>,
}

impl<T> JsonRpcResponse<T> {
    /// The result of the call; an error in the answer counts first.
    pub fn into_result(self) -> (outcome: Result<T, ChainWatcherError>)
        ensures
            match (self.error, self.result) {
                (Some(error), _) => outcome is Err && outcome->Err_0 is Rpc
                    && outcome->Err_0->Rpc_0@ == "code="@ + signed_decimal(error.code as int)
                    + " message="@ + error.message@,
                (None, Some(result)) => outcome == Ok::<T, ChainWatcherError>(result),
                (None, None) => outcome is Err && outcome->Err_0 is Rpc && outcome->Err_0->Rpc_0@
                    == "missing result"@,
            },
    {
        match self.error {
            Some(error) => {
                let mut text = String::from_str("code=");
                text.append(signed_decimal_text(error.code).as_str());
                text.append(" message=");
                text.append(error.message.as_str());
                Err(ChainWatcherError::Rpc(text))
            },
            None => match self.result {
                Some(result) => Ok(result),
                None => Err(ChainWatcherError::Rpc(String::from_str("missing result"))),
            },
        }
    }
}

/// A transaction as a node of the chain writes it.
#[derive(Debug, PartialEq, Eq)]
pub struct EthTransaction {
    pub hash: String,
    pub from: String,
    pub to: Option<String>,
    pub value: String,
    pub block_number: Option<String>,
}

/// A receipt as a node of the chain writes it.
#[derive(Debug, PartialEq, Eq)]
pub struct EthTransactionReceipt {
    pub status: Option<String>,
}

/// The blocks from the transaction's to the latest, both counted; none where the transaction
/// is in no block yet or in one that the node does not know.
pub open spec fn confirmations_at(latest_block: int, tx_block: int) -> int {
    if tx_block == 0 || latest_block < tx_block {
        0
    } else if latest_block - tx_block + 1 <= u64::MAX {
        latest_block - tx_block + 1
    } else {
        u64::MAX as int
    }
}

/// The block of a transaction, zero where it is in none yet.
pub open spec fn block_of(tx: EthTransaction) -> Result<int, NumberError> {
    match tx.block_number {
        Some(text) => hex_quantity(text@, u64::MAX as int),
        None => Ok(0),
    }
}

/// Whether a receipt tells of success; without a word on it, the transaction counts as
/// successful.
pub open spec fn success_of(receipt: Option<EthTransactionReceipt>) -> Result<bool, NumberError> {
    match receipt {
        Some(EthTransactionReceipt { status: Some(text) }) => match hex_quantity(
            text@,
            u64::MAX as int,
        ) {
            Ok(status) => Ok(status == 1),
            Err(fault) => Err(fault),
        },
        _ => Ok(true),
    }
}

/// The first quantity that cannot be read: the latest block, the transaction's block, the
/// status, the value.
pub open spec fn quantity_fault(
    tx: EthTransaction,
    receipt: Option<EthTransactionReceipt>,
    latest_block: Seq<char>,
) -> Option<NumberError> {
    if let Err(fault) = hex_quantity(latest_block, u64::MAX as int) {
        Some(fault)
    } else if let Err(fault) = block_of(tx) {
        Some(fault)
    } else if let Err(fault) = success_of(receipt) {
        Some(fault)
    } else if let Err(fault) = hex_quantity(tx.value@, u128::MAX as int) {
        Some(fault)
    } else {
        None
    }
}

/// What the chain shows of a transaction, from the answers of a node.
pub fn observe_tx(
    tx: EthTransaction,
    receipt: Option<EthTransactionReceipt>,
    latest_block_hex: &str,
) -> (observed: Result<ObservedTx, ChainWatcherError>)
    ensures
        match quantity_fault(tx, receipt, latest_block_hex@) {
            Some(fault) => observed is Err && observed->Err_0 is Parse
                && observed->Err_0->Parse_0@ == fault.spec_message(),
            None => {
                &&& observed is Ok
                &&& observed->Ok_0.tx_hash == tx.hash
                &&& observed->Ok_0.from == tx.from
                &&& observed->Ok_0.to@ == (match tx.to {
                    Some(to) => to@,
                    None => Seq::<char>::empty(),
                })
                &&& observed->Ok_0.value.0 == hex_quantity(tx.value@, u128::MAX as int)->Ok_0
                &&& observed->Ok_0.success == success_of(receipt)->Ok_0
                &&& observed->Ok_0.confirmations == confirmations_at(
                    hex_quantity(latest_block_hex@, u64::MAX as int)->Ok_0,
                    block_of(tx)->Ok_0,
                )
            },
        },
        observed is Ok <==> {
            &&& hex_quantity(latest_block_hex@, u64::MAX as int) is Ok
            &&& tx.block_number matches Some(text) ==> hex_quantity(text@, u64::MAX as int) is Ok
            &&& receipt is Some && receipt->0.status is Some ==> hex_quantity(
                receipt->0.status->0@,
                u64::MAX as int,
            ) is Ok
            &&& hex_quantity(tx.value@, u128::MAX as int) is Ok
        },
        observed is Ok && receipt is Some && receipt->0.status is Some
            ==> observed->Ok_0.success == (hex_quantity(
            receipt->0.status->0@,
            u64::MAX as int,
        )->Ok_0 == 1),
        observed is Ok && (receipt is None || receipt->0.status is None)
            ==> observed->Ok_0.success,
        observed is Ok && tx.block_number is None ==> observed->Ok_0.confirmations == 0,
        observed is Ok && tx.block_number is Some ==> ({
            let latest = hex_quantity(latest_block_hex@, u64::MAX as int)->Ok_0;
            let mined = hex_quantity(tx.block_number->0@, u64::MAX as int)->Ok_0;
            let shown = observed->Ok_0.confirmations;
            &&& mined == 0 || latest < mined ==> shown == 0
            &&& 0 < mined <= latest ==> shown == latest - mined + 1
        }),
{
    let latest_block: u64 = match parse_hex_u64(latest_block_hex) {
        Ok(n) => n,
        Err(error) => {
            return Err(error);
        },
    };
    let tx_block: u64 = match &tx.block_number {
        Some(text) => match parse_hex_u64(text.as_str()) {
            Ok(n) => n,
            Err(error) => {
                return Err(error);
            },
        },
        None => 0,
    };
    let confirmations: u64 = if tx_block == 0 || latest_block < tx_block {
        0
    } else {
        match (latest_block - tx_block).checked_add(1) {
            Some(n) => n,
            None => u64::MAX,
        }
    };
    let success: bool = match &receipt {
        Some(receipt) => match &receipt.status {
            Some(text) => match parse_hex_u64(text.as_str()) {
                Ok(n) => n == 1,
                Err(error) => {
                    return Err(error);
                },
            },
            None => true,
        },
        None => true,
    };
    let value: u128 = match parse_hex_u128(tx.value.as_str()) {
        Ok(n) => n,
        Err(error) => {
            return Err(error);
        },
    };
    Ok(
        ObservedTx {
            tx_hash: tx.hash,
            from: tx.from,
            to: match tx.to {
                Some(to) => to,
                None => String::new(),
            },
            value: Chips(value),
            success: success,
            confirmations: confirmations,
        },
    )
}

/// What is wrong with a transaction as such.
pub open spec fn identity_fault(input: TxVerificationInput, observed: ObservedTx) -> Option<Seq<char>> {
    if observed.tx_hash@ != input.tx_hash@ {
        Some("tx_hash_mismatch"@)
    } else if !observed.success {
        Some("tx_failed"@)
    } else {
        None
    }
}

/// In what a transaction differs from the payment that is expected.
pub open spec fn field_fault(input: TxVerificationInput, observed: ObservedTx) -> Option<Seq<char>> {
    if observed.to@ != input.expected_to@ {
        Some("to_mismatch"@)
    } else if input.expected_from is Some && observed.from@ != input.expected_from->0@ {
        Some("from_mismatch"@)
    } else if input.expected_amount is Some && observed.value != input.expected_amount->0 {
        Some("value_mismatch"@)
    } else {
        None
    }
}

/// Whether a result says this of the transaction that is looked for.
pub open spec fn says(
    result: TxVerificationResult,
    tx_hash: Seq<char>,
    status: VerificationStatus,
    confirmations: u64,
    reason: Option<Seq<char>>,
) -> bool {
    &&& result.tx_hash@ == tx_hash
    &&& result.status == status
    &&& result.confirmations == confirmations
    &&& match reason {
        Some(reason) => result.failure_reason is Some && result.failure_reason->0@ == reason,
        None => result.failure_reason is None,
    }
}

/// What is to be said of a transaction, and why.
pub open spec fn verdict(input: TxVerificationInput, observed: ObservedTx) -> (
    VerificationStatus,
    Option<Seq<char>>,
) {
    if identity_fault(input, observed) is Some {
        (VerificationStatus::Failed, identity_fault(input, observed))
    } else if observed.confirmations < input.min_confirmations {
        (VerificationStatus::Pending, None)
    } else if field_fault(input, observed) is Some {
        (VerificationStatus::Unmatched, field_fault(input, observed))
    } else if input.hand_id is None || input.action_seq is None {
        (VerificationStatus::Late, Some("missing_binding_context"@))
    } else {
        (VerificationStatus::Matched, None)
    }
}

fn result_of(
    input: &TxVerificationInput,
    status: VerificationStatus,
    confirmations: u64,
    reason: &str,
) -> (result: TxVerificationResult)
    ensures
        says(result, input.tx_hash@, status, confirmations, Some(reason@)),
{
    TxVerificationResult {
        tx_hash: input.tx_hash.clone(),
        status: status,
        confirmations: confirmations,
        failure_reason: Some(String::from_str(reason)),
    }
}

/// Tells of a transaction that is not the one looked for or that failed.
pub fn check_tx_status_and_identity(input: &TxVerificationInput, observed: &ObservedTx) -> (result:
    Option<TxVerificationResult>)
    ensures
        result is Some <==> identity_fault(*input, *observed) is Some,
        result is Some ==> says(
            result->0,
            input.tx_hash@,
            VerificationStatus::Failed,
            observed.confirmations,
            identity_fault(*input, *observed),
        ),
{
    if !same_text(observed.tx_hash.as_str(), input.tx_hash.as_str()) {
        return Some(
            result_of(
                input,
                VerificationStatus::Failed,
                observed.confirmations,
                "tx_hash_mismatch",
            ),
        );
    }
    if !observed.success {
        return Some(
            result_of(input, VerificationStatus::Failed, observed.confirmations, "tx_failed"),
        );
    }
    None
}

/// Whether a transaction has as many confirmations as are asked for.
pub fn evaluate_confirmations(min_confirmations: u64, observed_confirmations: u64) -> (decision:
    ConfirmationDecision)
    ensures
        decision == (if observed_confirmations < min_confirmations {
            ConfirmationDecision::Pending
        } else {
            ConfirmationDecision::Confirmed
        }),
{
    if observed_confirmations < min_confirmations {
        ConfirmationDecision::Pending
    } else {
        ConfirmationDecision::Confirmed
    }
}

/// Tells of a transaction that is another payment than the one expected.
pub fn check_tx_fields(input: &TxVerificationInput, observed: &ObservedTx) -> (result: Option<
    TxVerificationResult,
>)
    ensures
        result is Some <==> field_fault(*input, *observed) is Some,
        result is Some ==> says(
            result->0,
            input.tx_hash@,
            VerificationStatus::Unmatched,
            observed.confirmations,
            field_fault(*input, *observed),
        ),
{
    if !same_text(observed.to.as_str(), input.expected_to.as_str()) {
        return Some(
            result_of(input, VerificationStatus::Unmatched, observed.confirmations, "to_mismatch"),
        );
    }
    if let Some(expected_from) = &input.expected_from {
        if !same_text(observed.from.as_str(), expected_from.as_str()) {
            return Some(
                result_of(
                    input,
                    VerificationStatus::Unmatched,
                    observed.confirmations,
                    "from_mismatch",
                ),
            );
        }
    }
    if let Some(expected_amount) = input.expected_amount {
        if observed.value != expected_amount {
            return Some(
                result_of(
                    input,
                    VerificationStatus::Unmatched,
                    observed.confirmations,
                    "value_mismatch",
                ),
            );
        }
    }
    None
}

/// Says what became of a transaction: first whether it failed, then whether it has its
/// confirmations, then whether it is the payment that is expected, and last whether it was
/// tied to an action.
pub fn classify_tx_verification(input: &TxVerificationInput, observed: &ObservedTx) -> (result:
    TxVerificationResult)
    ensures
        says(
            result,
            input.tx_hash@,
            verdict(*input, *observed).0,
            observed.confirmations,
            verdict(*input, *observed).1,
        ),
{
    if let Some(result) = check_tx_status_and_identity(input, observed) {
        return result;
    }
    if evaluate_confirmations(input.min_confirmations, observed.confirmations)
        == ConfirmationDecision::Pending {
        return TxVerificationResult {
            tx_hash: input.tx_hash.clone(),
            status: VerificationStatus::Pending,
            confirmations: observed.confirmations,
            failure_reason: None,
        };
    }
    if let Some(result) = check_tx_fields(input, observed) {
        return result;
    }
    if input.hand_id.is_none() || input.action_seq.is_none() {
        return result_of(
            input,
            VerificationStatus::Late,
            observed.confirmations,
            "missing_binding_context",
        );
    }
    TxVerificationResult {
        tx_hash: input.tx_hash.clone(),
        status: VerificationStatus::Matched,
        confirmations: observed.confirmations,
        failure_reason: None,
    }
}

/// Says what became of a transaction that may not have been found at all.
pub fn verification_outcome(input: &TxVerificationInput, observed: &Option<ObservedTx>) -> (result:
    TxVerificationResult)
    ensures
        match *observed {
            None => says(
                result,
                input.tx_hash@,
                VerificationStatus::Pending,
                0,
                Some("tx_not_found"@),
            ),
            Some(observed) => says(
                result,
                input.tx_hash@,
                verdict(*input, observed).0,
                observed.confirmations,
                verdict(*input, observed).1,
            ),
        },
{
    match observed {
        None => result_of(input, VerificationStatus::Pending, 0, "tx_not_found"),
        Some(observed) => classify_tx_verification(input, observed),
    }
}

/// What is told of a transaction: the payment that was expected and what became of it.
pub fn build_verification_callback(input: &TxVerificationInput, result: &TxVerificationResult) -> (callback:
    TxVerificationCallback)
    ensures
        callback.room_id == input.room_id,
        callback.hand_id == input.hand_id,
        callback.seat_id == input.seat_id,
        callback.action_seq == input.action_seq,
        callback.tx_hash == result.tx_hash,
        callback.status == result.status,
        callback.confirmations == result.confirmations,
        callback.failure_reason == result.failure_reason,
{
    TxVerificationCallback {
        room_id: input.room_id,
        hand_id: input.hand_id,
        seat_id: input.seat_id,
        action_seq: input.action_seq,
        tx_hash: result.tx_hash.clone(),
        status: result.status,
        confirmations: result.confirmations,
        failure_reason: copy_optional_text(&result.failure_reason),
    }
}

/// What is to be done next while a transaction is looked for.
#[derive(Debug, PartialEq, Eq)]
pub enum QueryStep {
    /// Wait this long, then ask for the transaction, for the time with this number.
    Ask { wait_ms: u64, attempt: u32 },
    /// The transaction was found.
    Found(ObservedTx),
    /// It was asked for as often as it may be.
    GiveUp,
}

/// How to begin looking for a transaction.
pub fn first_query_step(retry: RetryPolicy) -> (step: QueryStep)
    ensures
        step == (if retry.max_attempts == 0 {
            QueryStep::GiveUp
        } else {
            QueryStep::Ask { wait_ms: 0, attempt: 0 }
        }),
{
    if retry.max_attempts == 0 {
        QueryStep::GiveUp
    } else {
        QueryStep::Ask { wait_ms: 0, attempt: 0 }
    }
}

/// How to go on when attempt number `attempt` gave this answer.
pub open spec fn step_after(retry: RetryPolicy, attempt: u32, answer: Option<ObservedTx>) -> QueryStep {
    match answer {
        Some(tx) => QueryStep::Found(tx),
        None => if attempt + 1 < retry.max_attempts {
            QueryStep::Ask {
                wait_ms: capped_wait(retry.base_backoff_ms, retry.max_backoff_ms, attempt) as u64,
                attempt: (attempt + 1) as u32,
            }
        } else {
            QueryStep::GiveUp
        },
    }
}

/// How to go on when attempt number `attempt` gave this answer.
pub fn next_query_step(retry: RetryPolicy, attempt: u32, answer: Option<ObservedTx>) -> (step:
    QueryStep)
    ensures
        step == step_after(retry, attempt, answer),
{
    match answer {
        Some(tx) => QueryStep::Found(tx),
        None => if attempt < u32::MAX && attempt + 1 < retry.max_attempts {
            QueryStep::Ask { wait_ms: retry.backoff_ms(attempt), attempt: attempt + 1 }
        } else {
            QueryStep::GiveUp
        },
    }
}

/// A transaction is never asked for again once as many attempts were made as the policy
/// allows, and no wait is longer than its cap.
pub proof fn attempts_are_bounded(retry: RetryPolicy, attempt: u32)
    ensures
        match step_after(retry, attempt, None) {
            QueryStep::Ask { wait_ms, attempt: next } => next == attempt + 1 && next
                < retry.max_attempts && wait_ms <= retry.max_backoff_ms,
            _ => attempt + 1 >= retry.max_attempts,
        },
{
}

/// A watcher that has no chain to look at.
#[derive(Debug)]
pub struct ChainWatcher;

impl Default for ChainWatcher {
    fn default() -> ChainWatcher {
        ChainWatcher
    }
}

impl ChainWatcher {
    pub fn new() -> (watcher: ChainWatcher)
        ensures
            watcher == ChainWatcher,
    {
        ChainWatcher
    }

    /// Without a chain to look at, every transaction is pending.
    pub fn verify_tx(&self, input: TxVerificationInput) -> (result: Result<
        TxVerificationResult,
        ChainWatcherError,
    >)
        ensures
            result is Ok,
            says(result->Ok_0, input.tx_hash@, VerificationStatus::Pending, 0, None),
    {
        Ok(
            TxVerificationResult {
                tx_hash: input.tx_hash,
                status: VerificationStatus::Pending,
                confirmations: 0,
                failure_reason: None,
            },
        )
    }
}

/// A watcher that asks a client for the transactions of its chain.
#[derive(Debug)]
pub struct EvmChainWatcher<C> {
    client: C,
    retry_policy: RetryPolicy,
}

impl<C> EvmChainWatcher<C> {
    pub closed spec fn spec_client(self) -> C {
        self.client
    }

    pub closed spec fn policy(self) -> RetryPolicy {
        self.retry_policy
    }

    pub fn new(client: C, retry_policy: RetryPolicy) -> (watcher: EvmChainWatcher<C>)
        ensures
            watcher.spec_client() == client,
            watcher.policy() == retry_policy,
    {
        EvmChainWatcher { client: client, retry_policy: retry_policy }
    }

    pub fn client(&self) -> (client: &C)
        ensures
            *client == self.spec_client(),
    {
        &self.client
    }

    pub fn retry_policy(&self) -> (policy: RetryPolicy)
        ensures
            policy == self.policy(),
    {
        self.retry_policy
    }
}

/// A transaction that failed, or that is not the one looked for, is never said to match,
/// whatever else is true of it.
pub proof fn failed_payment_never_matches(input: TxVerificationInput, observed: ObservedTx)
    requires
        !observed.success || observed.tx_hash@ != input.tx_hash@,
    ensures
        verdict(input, observed).0 == VerificationStatus::Failed,
{
}

/// A transaction matches exactly when it succeeded, has its confirmations, pays the expected
/// amount from and to the expected addresses, and was tied to an action of a hand.
pub proof fn match_means_everything_agrees(input: TxVerificationInput, observed: ObservedTx)
    ensures
        verdict(input, observed).0 == VerificationStatus::Matched <==> {
            &&& observed.tx_hash@ == input.tx_hash@
            &&& observed.success
            &&& observed.confirmations >= input.min_confirmations
            &&& observed.to@ == input.expected_to@
            &&& input.expected_from is Some ==> observed.from@ == input.expected_from->0@
            &&& input.expected_amount is Some ==> observed.value == input.expected_amount->0
            &&& input.hand_id is Some
            &&& input.action_seq is Some
        },
{
}

/// More confirmations never turn a transaction that was judged into a pending one.
pub proof fn confirmations_settle_the_verdict(
    input: TxVerificationInput,
    earlier: ObservedTx,
    later: ObservedTx,
)
    requires
        later == (ObservedTx { confirmations: later.confirmations, ..earlier }),
        earlier.confirmations <= later.confirmations,
        verdict(input, earlier).0 != VerificationStatus::Pending,
    ensures
        verdict(input, later) == verdict(input, earlier),
{
}

/// A receipt that names a status tells of success exactly where that status is one; a receipt
/// without a status, or no receipt, tells of no failure.
pub proof fn only_status_one_is_success(receipt: Option<EthTransactionReceipt>, n: int)
    ensures
        receipt is Some && receipt->0.status is Some && hex_quantity(
            receipt->0.status->0@,
            u64::MAX as int,
        ) == Ok::<int, NumberError>(n) ==> success_of(receipt) == Ok::<bool, NumberError>(n == 1),
        receipt is None || receipt->0.status is None ==> success_of(receipt) == Ok::<
            bool,
            NumberError,
        >(true),
{
}

/// A transaction that the chain reverted, by the status of its receipt, is told as failed.
pub proof fn a_reverted_payment_has_failed(
    receipt: EthTransactionReceipt,
    input: TxVerificationInput,
    observed: ObservedTx,
)
    requires
        receipt.status is Some,
        hex_quantity(receipt.status->0@, u64::MAX as int) == Ok::<int, NumberError>(0),
        observed.success == success_of(Some(receipt))->Ok_0,
        observed.tx_hash@ == input.tx_hash@,
    ensures
        verdict(input, observed) == (VerificationStatus::Failed, Some("tx_failed"@)),
{
}

/// Every number within the bound is read back from its hexadecimal digits, with the prefix or
/// without.
pub proof fn quantities_read_back(n: nat, max: int)
    requires
        n <= max,
    ensures
        hex_quantity("0x"@ + number_text(n, 16), max) == Ok::<int, NumberError>(n as int),
        hex_quantity(number_text(n, 16), max) == Ok::<int, NumberError>(n as int),
{
    reveal_strlit("0x");
    let digits = number_text(n, 16);
    let text = "0x"@ + digits;
    numbers_read_back(n, 16, max);
    lemma_hex_digits(n);
    lemma_solid_text(text);
    lemma_solid_text(digits);
    assert(text.skip(2) =~= digits);
    assert(text.take(2) =~= "0x"@);
    if digits.len() >= 2 {
        assert(digits[1] != 'x');
        assert(digits.take(2)[1] == digits[1]);
    }
}

/// What is said of a transaction, in plain terms: a hash that differs or a failure comes first,
/// then missing confirmations, then the receiver, the sender and the amount, then a payment
/// that no action of a hand waits for.
pub proof fn verdicts_in_plain_terms(input: TxVerificationInput, observed: ObservedTx)
    ensures
        ({
            let (status, reason) = verdict(input, observed);
            let known = observed.tx_hash@ == input.tx_hash@;
            let confirmed = observed.confirmations >= input.min_confirmations;
            let to_agrees = observed.to@ == input.expected_to@;
            let from_agrees = input.expected_from is None || observed.from@
                == input.expected_from->0@;
            let value_agrees = input.expected_amount is None || observed.value.0 == (
            input.expected_amount->0).0;
            &&& !known ==> status == VerificationStatus::Failed && reason == Some(
                "tx_hash_mismatch"@,
            )
            &&& known && !observed.success ==> status == VerificationStatus::Failed && reason
                == Some("tx_failed"@)
            &&& known && observed.success && !confirmed ==> status == VerificationStatus::Pending
                && reason is None
            &&& known && observed.success && confirmed && !to_agrees ==> status
                == VerificationStatus::Unmatched && reason == Some("to_mismatch"@)
            &&& known && observed.success && confirmed && to_agrees && !from_agrees ==> status
                == VerificationStatus::Unmatched && reason == Some("from_mismatch"@)
            &&& known && observed.success && confirmed && to_agrees && from_agrees
                && !value_agrees ==> status == VerificationStatus::Unmatched && reason == Some(
                "value_mismatch"@,
            )
            &&& known && observed.success && confirmed && to_agrees && from_agrees && value_agrees
                && (input.hand_id is None || input.action_seq is None) ==> status
                == VerificationStatus::Late && reason == Some("missing_binding_context"@)
            &&& known && observed.success && confirmed && to_agrees && from_agrees && value_agrees
                && input.hand_id is Some && input.action_seq is Some ==> status
                == VerificationStatus::Matched && reason is None
        }),
{
}

/// A transaction is asked for as often as the policy says and no more: after an answer without
/// it, it is asked for again exactly while attempts are left.
pub proof fn every_attempt_is_used(retry: RetryPolicy, attempt: u32, found: ObservedTx)
    ensures
        step_after(retry, attempt, Some(found)) == QueryStep::Found(found),
        attempt + 1 < retry.max_attempts <==> step_after(retry, attempt, None) is Ask,
        attempt + 1 >= retry.max_attempts <==> step_after(retry, attempt, None) is GiveUp,
{
}

/// The words for what became of a transaction.
pub proof fn statuses_have_their_words()
    ensures
        VerificationStatus::Pending.spec_name() == "pending"@,
        VerificationStatus::Matched.spec_name() == "matched"@,
        VerificationStatus::Late.spec_name() == "late"@,
        VerificationStatus::Unmatched.spec_name() == "unmatched"@,
        VerificationStatus::Failed.spec_name() == "failed"@,
{
}

/// The first quantity that cannot be read is told: of the latest block, then of the transaction's
/// block, of the status and of the value.
pub proof fn the_first_unreadable_quantity_is_told(
    tx: EthTransaction,
    receipt: Option<EthTransactionReceipt>,
    latest_block: Seq<char>,
)
    ensures
        ({
            let latest = hex_quantity(latest_block, u64::MAX as int);
            let block_fault = tx.block_number is Some && hex_quantity(
                tx.block_number->0@,
                u64::MAX as int,
            ) is Err;
            let status_fault = receipt is Some && receipt->0.status is Some && hex_quantity(
                receipt->0.status->0@,
                u64::MAX as int,
            ) is Err;
            let value = hex_quantity(tx.value@, u128::MAX as int);
            let told = quantity_fault(tx, receipt, latest_block);
            &&& latest is Err ==> told == Some(latest->Err_0)
            &&& latest is Ok && block_fault ==> told == Some(
                hex_quantity(tx.block_number->0@, u64::MAX as int)->Err_0,
            )
            &&& latest is Ok && !block_fault && status_fault ==> told == Some(
                hex_quantity(receipt->0.status->0@, u64::MAX as int)->Err_0,
            )
            &&& latest is Ok && !block_fault && !status_fault && value is Err ==> told == Some(
                value->Err_0,
            )
            &&& latest is Ok && !block_fault && !status_fault && value is Ok ==> told is None
        }),
{
}

/// White space round a quantity does not count; where nothing is left but a prefix, or nothing at
/// all, it stands for zero, and else for the number of its hexadecimal digits.
pub proof fn empty_quantities_are_zero(text: Seq<char>, digits: Seq<char>, max: int)
    ensures
        trimmed(text).len() == 0 ==> hex_quantity(text, max) == Ok::<int, NumberError>(0),
        trimmed(text) == "0x"@ ==> hex_quantity(text, max) == Ok::<int, NumberError>(0),
        trimmed(text) == "0x"@ + digits && digits.len() > 0 ==> hex_quantity(text, max)
            == read_number(digits, 16, max),
{
    reveal_strlit("0x");
    let inner = trimmed(text);
    if inner == "0x"@ {
        assert(inner.take(2) =~= "0x"@);
        assert(inner.skip(2) =~= Seq::empty());
    }
    if inner == "0x"@ + digits {
        assert(inner.take(2) =~= "0x"@);
        assert(inner.skip(2) =~= digits);
    }
}

} // verus!
