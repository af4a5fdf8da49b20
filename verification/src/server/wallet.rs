//! How a room pays on the chain.
use vstd::prelude::*;
use vstd::string::StringExecFns;

use crate::chain_tx::{
    address_bytes, address_fault, amounts_of, batch_arguments, batch_id, build_legacy_raw_tx,
    encode_batch_settlement_call, function_selector, recipient_fault, recipients_of, signed_tx,
    tx_digest, BatchTransfer,
};
use crate::chain_watcher::hex_quantity;
use crate::document::{member_text, member_value, signed_value, text_value};
use crate::domain::ids::{id_text, uuid_text, HandId, RoomId};
use crate::domain::money::Chips;
use crate::evm::{
    address_of, bytes_of_hex, evm_address_from_secp256k1_verifying_key, hex_decode, hex_error,
    hex_of, is_hex, loaded_secret, public_point, signed_digest, EvmSigningKey,
};
use crate::json::{Json, JsonView};
use crate::server::settlement::{SettlementTransferReceipt, SettlementTxStatus};
use crate::table::{lookup, upserted, Table};
use crate::text::{
    chars_of, lower, lowered, owned, parse_number, same_chars, signed_decimal, signed_decimal_text,
    strip_prefix, trim, NumberError,
};

verus! {

/// Whether reading a quantity gave what it should.
pub open spec fn reads_quantity(text: Seq<char>, max: int, read: Result<u128, String>) -> bool {
    match hex_quantity(text, max) {
        Ok(n) => read is Ok && read->Ok_0 == n,
        Err(fault) => read is Err && read->Err_0@ == fault.spec_message(),
    }
}

fn read_quantity(input: &str, max: u128) -> (read: Result<u128, String>)
    ensures
        reads_quantity(input@, max as int, read),
        read is Ok ==> read->Ok_0 <= max,
{
    let raw = strip_prefix(&trim(&chars_of(input)), "0x");
    if raw.len() == 0 {
        return Ok(0);
    }
    match parse_number(&raw, 16, max) {
        Ok(n) => Ok(n),
        Err(fault) => Err(owned(fault.message())),
    }
}

/// Widens a quantity.
pub open spec fn widened(read: Result<u64, String>) -> Result<u128, String> {
    match read {
        Ok(n) => Ok(n as u128),
        Err(error) => Err(error),
    }
}

/// Reads a quantity of at most 64 bits.
pub fn parse_hex_u64(input: &str) -> (read: Result<u64, String>)
    ensures
        reads_quantity(input@, u64::MAX as int, widened(read)),
{
    match read_quantity(input, u64::MAX as u128) {
        Ok(n) => Ok(n as u64),
        Err(error) => Err(error),
    }
}

/// Reads a quantity of at most 128 bits.
pub fn parse_hex_u128(input: &str) -> (read: Result<u128, String>)
    ensures
        reads_quantity(input@, u128::MAX as int, read),
{
    read_quantity(input, u128::MAX)
}

/// What the error in a node's answer says.
pub open spec fn rpc_fault(error: JsonView) -> Seq<char> {
    let code = match member_value(error, "code"@) {
        Some(value) => match signed_value(value) {
            Some(n) => n as int,
            None => 0,
        },
        None => 0,
    };
    let message = match member_text(error, "message"@) {
        Some(text) => text,
        None => "unknown"@,
    };
    "rpc code="@ + signed_decimal(code) + " message="@ + message
}

/// The result in a node's answer; an error counts first, and an answer without either is an
/// error too.
pub fn rpc_result(payload: &Json) -> (result: Result<Json, String>)
    ensures
        match (member_value(payload@, "error"@), member_value(payload@, "result"@)) {
            (Some(error), _) => result is Err && result->Err_0@ == rpc_fault(error),
            (None, Some(value)) => result is Ok && result->Ok_0@ == value,
            (None, None) => result is Err && result->Err_0@ == "missing result"@,
        },
{
    match payload.get("error") {
        Some(error) => {
            let code: i64 = match error.get("code") {
                Some(value) => match value.as_i64() {
                    Some(n) => n,
                    None => 0,
                },
                None => 0,
            };
            let mut text = owned("rpc code=");
            text.append(signed_decimal_text(code).as_str());
            text.append(" message=");
            match error.text_at("message") {
                Some(message) => text.append(message),
                None => text.append("unknown"),
            }
            Err(text)
        },
        None => match payload.get("result") {
            Some(value) => Ok(value.clone()),
            None => Err(owned("missing result")),
        },
    }
}

/// The text that a node answered a call with.
pub fn text_reply(method: &str, reply: &Json) -> (text: Result<String, String>)
    ensures
        match text_value(reply@) {
            Some(chars) => text is Ok && text->Ok_0@ == chars,
            None => text is Err && text->Err_0@ == method@ + " returned non-string"@,
        },
{
    match reply.as_str() {
        Some(text) => Ok(owned(text)),
        None => Err(owned(method).concat(" returned non-string")),
    }
}

/// Whether reading the number that a node answered a call with gave what it should.
pub open spec fn reads_reply(
    method: Seq<char>,
    reply: JsonView,
    max: int,
    read: Result<u128, String>,
) -> bool {
    match text_value(reply) {
        Some(text) => reads_quantity(text, max, read),
        None => read is Err && read->Err_0@ == method + " returned non-string"@,
    }
}

/// The number that a node answered a call with, or why there is none.
pub open spec fn number_in_reply(method: Seq<char>, reply: JsonView, max: int) -> Result<
    int,
    Seq<char>,
> {
    match text_value(reply) {
        None => Err(method + " returned non-string"@),
        Some(text) => match hex_quantity(text, max) {
            Ok(n) => Ok(n),
            Err(fault) => Err(fault.spec_message()),
        },
    }
}

/// The number that a node answered a call with.
pub fn number_reply(method: &str, reply: &Json) -> (n: Result<u64, String>)
    ensures
        reads_reply(method@, reply@, u64::MAX as int, widened(n)),
{
    match text_reply(method, reply) {
        Ok(text) => parse_hex_u64(text.as_str()),
        Err(error) => Err(error),
    }
}

/// The amount that a node answered a call with.
pub fn amount_reply(method: &str, reply: &Json) -> (n: Result<u128, String>)
    ensures
        reads_reply(method@, reply@, u128::MAX as int, n),
{
    match text_reply(method, reply) {
        Ok(text) => parse_hex_u128(text.as_str()),
        Err(error) => Err(error),
    }
}

/// The account that a room pays from.
#[derive(Debug, PartialEq, Eq)]
pub struct RoomChainAccount {
    pub address: String,
    pub private_key_hex: String,
}

/// What is wrong with the account of a room, if anything is: there is none, its secret key
/// cannot be read or loaded, or belongs to another address.
pub open spec fn account_fault(room_id: RoomId, account: Option<RoomChainAccount>) -> Option<Seq<char>> {
    match account {
        None => Some("room "@ + uuid_text(room_id.0) + " has no chain signer"@),
        Some(account) => {
            let key = account.private_key_hex@;
            if !is_hex(key) {
                Some("invalid private key hex: "@ + hex_error(key))
            } else {
                match loaded_secret(bytes_of_hex(key)) {
                    Err(detail) => Some("invalid private key bytes: "@ + detail),
                    Ok(secret) => {
                        let actual = address_of(public_point(secret));
                        if lowered(actual) != lowered(account.address@) {
                            Some(
                                "room "@ + uuid_text(room_id.0)
                                    + " signer address mismatch expected="@ + account.address@
                                    + " actual="@ + actual,
                            )
                        } else {
                            None
                        }
                    },
                }
            }
        },
    }
}

/// The address and the key that a room pays with.
pub fn signer_for_room(room_id: RoomId, account: &Option<RoomChainAccount>) -> (signer: Result<
    (String, EvmSigningKey),
    String,
>)
    ensures
        match account_fault(room_id, *account) {
            Some(fault) => signer is Err && signer->Err_0@ == fault,
            None => {
                &&& signer is Ok
                &&& loaded_secret(bytes_of_hex(account->0.private_key_hex@)) == Ok::<
                    Seq<u8>,
                    Seq<char>,
                >(signer->Ok_0.1.secret())
                &&& signer->Ok_0.0@ == address_of(public_point(signer->Ok_0.1.secret()))
            },
        },
{
    let account = match account {
        Some(account) => account,
        None => {
            let mut text = owned("room ");
            text.append(id_text(room_id.0).as_str());
            text.append(" has no chain signer");
            return Err(text);
        },
    };
    let bytes = match hex_decode(account.private_key_hex.as_str()) {
        Ok(bytes) => bytes,
        Err(detail) => {
            return Err(owned("invalid private key hex: ").concat(detail.as_str()));
        },
    };
    let key = match EvmSigningKey::from_slice(bytes.as_slice()) {
        Ok(key) => key,
        Err(detail) => {
            return Err(owned("invalid private key bytes: ").concat(detail.as_str()));
        },
    };
    let actual = evm_address_from_secp256k1_verifying_key(&key.verifying_key());
    let left = lower(&chars_of(actual.as_str()));
    let right = lower(&chars_of(account.address.as_str()));
    if !same_chars(&left, &right) {
        let mut text = owned("room ");
        text.append(id_text(room_id.0).as_str());
        text.append(" signer address mismatch expected=");
        text.append(account.address.as_str());
        text.append(" actual=");
        text.append(actual.as_str());
        return Err(text);
    }
    Ok((actual, key))
}

/// The block that a receipt names, zero where it names none.
pub open spec fn receipt_block(receipt: JsonView) -> Result<int, NumberError> {
    match member_text(receipt, "blockNumber"@) {
        Some(text) => hex_quantity(text, u64::MAX as int),
        None => Ok(0),
    }
}

/// Whether a receipt tells of success; without a word on it, it does not.
pub open spec fn receipt_success(receipt: JsonView) -> Result<bool, NumberError> {
    match member_text(receipt, "status"@) {
        Some(text) => match hex_quantity(text, u64::MAX as int) {
            Ok(status) => Ok(status == 1),
            Err(fault) => Err(fault),
        },
        None => Ok(false),
    }
}

/// The blocks from one to the latest, both counted.
pub open spec fn blocks_since(latest: int, block: int) -> int {
    let passed = if latest < block {
        0
    } else {
        latest - block
    };
    if passed < u64::MAX {
        passed + 1
    } else {
        u64::MAX as int
    }
}

/// Whether a receipt was read as it should: no receipt yet means that the payment is pending;
/// otherwise the latest block, the receipt's block and its status are read in this order.
pub open spec fn reads_receipt(
    tx_hash: Seq<char>,
    receipt: JsonView,
    latest: JsonView,
    read: Result<SettlementTransferReceipt, String>,
) -> bool {
    if receipt is Null {
        &&& read is Ok
        &&& read->Ok_0.tx_hash@ == tx_hash
        &&& read->Ok_0.status == SettlementTxStatus::Pending
        &&& read->Ok_0.confirmations == 0
    } else if text_value(latest) is None {
        read is Err && read->Err_0@ == "eth_blockNumber returned non-string"@
    } else {
        match (
            hex_quantity(text_value(latest)->0, u64::MAX as int),
            receipt_block(receipt),
            receipt_success(receipt),
        ) {
            (Err(fault), _, _) => read is Err && read->Err_0@ == fault.spec_message(),
            (Ok(_), Err(fault), _) => read is Err && read->Err_0@ == fault.spec_message(),
            (Ok(_), Ok(_), Err(fault)) => read is Err && read->Err_0@ == fault.spec_message(),
            (Ok(latest), Ok(block), Ok(success)) => {
                &&& read is Ok
                &&& read->Ok_0.tx_hash@ == tx_hash
                &&& read->Ok_0.status == (if success {
                    SettlementTxStatus::Confirmed
                } else {
                    SettlementTxStatus::Failed
                })
                &&& read->Ok_0.confirmations == blocks_since(latest, block)
            },
        }
    }
}

/// What became of a payment, from the answers of a node.
pub fn get_transfer_receipt(tx_hash: &str, receipt: &Json, latest_block: &Json) -> (read: Result<
    SettlementTransferReceipt,
    String,
>)
    ensures
        reads_receipt(tx_hash@, receipt@, latest_block@, read),
{
    if receipt.is_null() {
        return Ok(
            SettlementTransferReceipt {
                tx_hash: owned(tx_hash),
                status: SettlementTxStatus::Pending,
                confirmations: 0,
            },
        );
    }
    proof {
        reveal_strlit("eth_blockNumber");
        reveal_strlit(" returned non-string");
        reveal_strlit("eth_blockNumber returned non-string");
        assert("eth_blockNumber"@ + " returned non-string"@
            =~= "eth_blockNumber returned non-string"@);
    }
    let latest: u64 = match number_reply("eth_blockNumber", latest_block) {
        Ok(n) => n,
        Err(error) => {
            return Err(error);
        },
    };
    let block: u64 = match receipt.text_at("blockNumber") {
        Some(text) => match parse_hex_u64(text) {
            Ok(n) => n,
            Err(error) => {
                return Err(error);
            },
        },
        None => 0,
    };
    let passed: u64 = if latest < block {
        0
    } else {
        latest - block
    };
    let confirmations: u64 = if passed < u64::MAX {
        passed + 1
    } else {
        u64::MAX
    };
    let success: bool = match receipt.text_at("status") {
        Some(text) => match parse_hex_u64(text) {
            Ok(n) => n == 1,
            Err(error) => {
                return Err(error);
            },
        },
        None => false,
    };
    Ok(
        SettlementTransferReceipt {
            tx_hash: owned(tx_hash),
            status: if success {
                SettlementTxStatus::Confirmed
            } else {
                SettlementTxStatus::Failed
            },
            confirmations: confirmations,
        },
    )
}

/// The sum of the first `count` payments.
pub open spec fn transferred(transfers: Seq<BatchTransfer>, count: nat) -> int
    decreases count,
{
    if count == 0 {
        0
    } else {
        transferred(transfers, (count - 1) as nat) + transfers[count - 1].amount
    }
}

proof fn lemma_transferred_grows(transfers: Seq<BatchTransfer>, count: nat, all: nat)
    requires
        count <= all <= transfers.len(),
    ensures
        0 <= transferred(transfers, count) <= transferred(transfers, all),
    decreases all,
{
    if count < all {
        lemma_transferred_grows(transfers, count, (all - 1) as nat);
    } else if count > 0 {
        lemma_transferred_grows(transfers, (count - 1) as nat, (count - 1) as nat);
    }
}

/// What all payments of a hand come to; a hand without payments, or with more than an amount
/// can be, is refused.
pub fn batch_total(transfers: &Vec<BatchTransfer>) -> (total: Result<u128, String>)
    ensures
        if transfers@.len() == 0 {
            total is Err && total->Err_0@ == "batch transfer list cannot be empty"@
        } else if transferred(transfers@, transfers@.len()) > u128::MAX {
            total is Err && total->Err_0@ == "batch payout total overflow: amount overflow"@
        } else {
            total is Ok && total->Ok_0 == transferred(transfers@, transfers@.len())
        },
{
    if transfers.len() == 0 {
        return Err(owned("batch transfer list cannot be empty"));
    }
    let mut total: u128 = 0;
    let mut i: usize = 0;
    while i < transfers.len()
        invariant
            i <= transfers.len(),
            transfers@.len() > 0,
            total == transferred(transfers@, i as nat),
        decreases transfers.len() - i,
    {
        proof {
            lemma_transferred_grows(transfers@, (i + 1) as nat, transfers@.len());
        }
        match total.checked_add(transfers[i].amount) {
            Some(sum) => {
                total = sum;
            },
            None => {
                return Err(owned("batch payout total overflow: amount overflow"));
            },
        }
        i = i + 1;
    }
    Ok(total)
}

/// How many payments each transaction makes.
#[derive(Debug)]
pub struct BatchTransferCounts {
    counts: Table<String, usize>,
}

/// What became of the payments of one transaction.
#[derive(Debug, PartialEq, Eq)]
pub struct BatchSettlementTransferReceipt {
    pub tx_hash: String,
    pub status: SettlementTxStatus,
    pub confirmations: u64,
    pub applied_count: usize,
}

impl BatchTransferCounts {
    pub closed spec fn rows(self) -> Seq<(Seq<char>, usize)> {
        self.counts.rows()
    }

    pub fn new() -> (counts: BatchTransferCounts)
        ensures
            counts.rows().len() == 0,
    {
        BatchTransferCounts { counts: Table::new() }
    }

    /// Notes how many payments a transaction makes.
    pub fn note(&mut self, tx_hash: String, count: usize)
        ensures
            final(self).rows() == upserted(old(self).rows(), tx_hash@, count),
    {
        self.counts.upsert(tx_hash, count);
    }

    /// How many payments a transaction makes, none where nothing is known of it.
    pub fn count_of(&self, tx_hash: &str) -> (count: usize)
        ensures
            count == (match lookup(self.rows(), tx_hash@) {
                Some(count) => count,
                None => 0,
            }),
    {
        match self.counts.get(&owned(tx_hash)) {
            Some(count) => *count,
            None => 0,
        }
    }

    /// What became of the payments of one transaction, from the answers of a node.
    pub fn get_batch_transfer_receipt(&self, tx_hash: &str, receipt: &Json, latest_block: &Json) -> (read:
        Result<BatchSettlementTransferReceipt, String>)
        ensures
            read is Ok ==> reads_receipt(
                tx_hash@,
                receipt@,
                latest_block@,
                Ok(
                    SettlementTransferReceipt {
                        tx_hash: read->Ok_0.tx_hash,
                        status: read->Ok_0.status,
                        confirmations: read->Ok_0.confirmations,
                    },
                ),
            ),
            read is Ok ==> read->Ok_0.applied_count == (match lookup(self.rows(), tx_hash@) {
                Some(count) => count,
                None => 0,
            }),
            read is Err ==> reads_receipt(tx_hash@, receipt@, latest_block@, Err(read->Err_0)),
    {
        match get_transfer_receipt(tx_hash, receipt, latest_block) {
            Err(error) => Err(error),
            Ok(one) => Ok(
                BatchSettlementTransferReceipt {
                    tx_hash: one.tx_hash,
                    status: one.status,
                    confirmations: one.confirmations,
                    applied_count: self.count_of(tx_hash),
                },
            ),
        }
    }
}

/// What a node says before a payment is made.
#[derive(Debug, Clone, Copy, PartialEq, Eq, Structural)]
pub struct ChainConditions {
    pub chain_id: u64,
    pub nonce: u64,
    pub gas_price: u128,
}

/// Whether the number of a chain leaves room for the mark that a signature carries.
pub open spec fn chain_fits(chain_id: u64) -> bool {
    2 * chain_id + 38 <= u64::MAX
}

/// The signed transaction that pays one winner.
pub fn prepare_transfer(
    conditions: &ChainConditions,
    to_address: &str,
    amount: Chips,
    key: &EvmSigningKey,
) -> (raw: Result<String, String>)
    requires
        chain_fits(conditions.chain_id),
    ensures
        match address_fault(to_address@) {
            Some(fault) => raw is Err && raw->Err_0@ == fault,
            None => {
                let to = address_bytes(to_address@);
                match signed_digest(
                    key.secret(),
                    tx_digest(
                        conditions.chain_id,
                        conditions.nonce,
                        conditions.gas_price,
                        to,
                        amount.0,
                        Seq::empty(),
                    ),
                ) {
                    Err(detail) => raw is Err && raw->Err_0@ == "sign tx failed: "@ + detail,
                    Ok((signature, id)) => raw is Ok && raw->Ok_0@ == "0x"@ + hex_of(
                        signed_tx(
                            conditions.chain_id,
                            conditions.nonce,
                            conditions.gas_price,
                            to,
                            amount.0,
                            Seq::empty(),
                            signature,
                            id,
                        ),
                    ),
                }
            },
        },
{
    let nothing: Vec<u8> = Vec::new();
    assert(nothing@ =~= Seq::empty());
    build_legacy_raw_tx(
        conditions.chain_id,
        conditions.nonce,
        conditions.gas_price,
        to_address,
        amount.0,
        &nothing,
        key,
    )
}

/// The most payments whose call still fits a transaction.
pub const MAX_BATCH: usize = 2_000_000;

/// What is wrong with the payments of a hand, if anything is: there are none, they come to more
/// than an amount can be, or one of the addresses cannot be read.
pub open spec fn batch_fault(transfers: Seq<BatchTransfer>) -> Option<Seq<char>> {
    if transfers.len() == 0 {
        Some("batch transfer list cannot be empty"@)
    } else if transferred(transfers, transfers.len()) > u128::MAX {
        Some("batch payout total overflow: amount overflow"@)
    } else {
        recipient_fault(transfers, transfers.len())
    }
}

/// The signed transaction that pays all winners of a hand through a contract.
pub fn prepare_batch_transfer(
    conditions: &ChainConditions,
    contract_address: &str,
    room_id: RoomId,
    hand_id: HandId,
    transfers: &Vec<BatchTransfer>,
    key: &EvmSigningKey,
) -> (raw: Result<String, String>)
    requires
        chain_fits(conditions.chain_id),
        transfers@.len() <= MAX_BATCH,
    ensures
        match (batch_fault(transfers@), address_fault(contract_address@)) {
            (Some(fault), _) => raw is Err && raw->Err_0@ == fault,
            (None, Some(fault)) => raw is Err && raw->Err_0@ == fault,
            (None, None) => {
                let to = address_bytes(contract_address@);
                let total = transferred(transfers@, transfers@.len()) as u128;
                let data = function_selector("settleBatch"@) + batch_arguments(
                    recipients_of(transfers@),
                    amounts_of(transfers@),
                    batch_id(room_id, hand_id),
                );
                match signed_digest(
                    key.secret(),
                    tx_digest(
                        conditions.chain_id,
                        conditions.nonce,
                        conditions.gas_price,
                        to,
                        total,
                        data,
                    ),
                ) {
                    Err(detail) => raw is Err && raw->Err_0@ == "sign tx failed: "@ + detail,
                    Ok((signature, id)) => raw is Ok && raw->Ok_0@ == "0x"@ + hex_of(
                        signed_tx(
                            conditions.chain_id,
                            conditions.nonce,
                            conditions.gas_price,
                            to,
                            total,
                            data,
                            signature,
                            id,
                        ),
                    ),
                }
            },
        },
{
    let total: u128 = match batch_total(transfers) {
        Ok(total) => total,
        Err(error) => {
            return Err(error);
        },
    };
    let data = match encode_batch_settlement_call(room_id, hand_id, transfers) {
        Ok(data) => data,
        Err(error) => {
            return Err(error);
        },
    };
    build_legacy_raw_tx(
        conditions.chain_id,
        conditions.nonce,
        conditions.gas_price,
        contract_address,
        total,
        &data,
        key,
    )
}

/// The number of the chain, the number of the next transaction and the price of gas, from the
/// answers of a node.
pub fn read_conditions(chain_id: &Json, nonce: &Json, gas_price: &Json) -> (read: Result<
    ChainConditions,
    String,
>)
    ensures
        match (
            number_in_reply("eth_chainId"@, chain_id@, u64::MAX as int),
            number_in_reply("eth_getTransactionCount"@, nonce@, u64::MAX as int),
            number_in_reply("eth_gasPrice"@, gas_price@, u128::MAX as int),
        ) {
            (Err(fault), _, _) => read is Err && read->Err_0@ == fault,
            (Ok(_), Err(fault), _) => read is Err && read->Err_0@ == fault,
            (Ok(_), Ok(_), Err(fault)) => read is Err && read->Err_0@ == fault,
            (Ok(chain), Ok(count), Ok(price)) => {
                &&& read is Ok
                &&& read->Ok_0.chain_id == chain
                &&& read->Ok_0.nonce == count
                &&& read->Ok_0.gas_price == price
            },
        },
{
    let chain_id: u64 = match number_reply("eth_chainId", chain_id) {
        Ok(n) => n,
        Err(error) => {
            return Err(error);
        },
    };
    let nonce: u64 = match number_reply("eth_getTransactionCount", nonce) {
        Ok(n) => n,
        Err(error) => {
            return Err(error);
        },
    };
    let gas_price: u128 = match amount_reply("eth_gasPrice", gas_price) {
        Ok(n) => n,
        Err(error) => {
            return Err(error);
        },
    };
    Ok(ChainConditions { chain_id: chain_id, nonce: nonce, gas_price: gas_price })
}

} // verus!
