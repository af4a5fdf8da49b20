//! The ledger: entries, payments on the chain, and what is kept of settlements.
use vstd::prelude::*;
use vstd::string::StringExecFns;

use crate::domain::game::SeatId;
use crate::domain::ids::{AgentId, HandId, RoomId, TraceId};
use crate::domain::money::Chips;
use crate::domain::time::Timestamp;
use crate::columns::{
    from_middle, from_wide, is_optional_id_text, middle, optional_id, optional_id_in,
    optional_id_text, optional_seat, optional_seat_column, seat_column, seat_in, seat_or_zero,
    to_middle, to_wide, unsigned_or_zero, wide,
};
use crate::json::Json;
pub use crate::paging::{page_of, PageRequest};
use crate::table::{lookup, upserted, Table};
use crate::text::{
    chars_of, contains, copy_optional_text, decimal, decimal_text, holds, numbers_read_back, owned,
    parse_number, read_number, same_text,
};

verus! {

/// The name of the chain that payments are made on.
pub open spec fn default_chain_id() -> Seq<char> {
    "cfx-espace"@
}

/// Why the ledger could not do what it was asked.
#[derive(Debug, PartialEq, Eq)]
pub enum LedgerStoreError {
    NotImplemented,
    LockPoisoned,
    DuplicateTxBinding,
    DuplicateTxHashBinding,
    Database(String),
    MissingExpectedAmount,
}

impl LedgerStoreError {
    pub open spec fn spec_message(self) -> Seq<char> {
        match self {
            LedgerStoreError::NotImplemented => "not implemented"@,
            LedgerStoreError::LockPoisoned => "store lock poisoned"@,
            LedgerStoreError::DuplicateTxBinding => "duplicate tx binding for hand/action"@,
            LedgerStoreError::DuplicateTxHashBinding => "duplicate tx hash binding"@,
            LedgerStoreError::Database(detail) => "database error: "@ + detail@,
            LedgerStoreError::MissingExpectedAmount =>
                "expected_amount is required for tx_binding"@,
        }
    }

    /// What the error says to a reader.
    pub fn message(&self) -> (text: String)
        ensures
            text@ == self.spec_message(),
    {
        match self {
            LedgerStoreError::NotImplemented => String::from_str("not implemented"),
            LedgerStoreError::LockPoisoned => String::from_str("store lock poisoned"),
            LedgerStoreError::DuplicateTxBinding => String::from_str(
                "duplicate tx binding for hand/action",
            ),
            LedgerStoreError::DuplicateTxHashBinding => String::from_str(
                "duplicate tx hash binding",
            ),
            LedgerStoreError::Database(detail) => String::from_str("database error: ").concat(
                detail.as_str(),
            ),
            LedgerStoreError::MissingExpectedAmount => String::from_str(
                "expected_amount is required for tx_binding",
            ),
        }
    }
}

#[derive(Debug, Clone, Copy, PartialEq, Eq, Structural)]
pub enum LedgerDirection {
    Debit,
    Credit,
}

impl LedgerDirection {
    pub open spec fn spec_name(self) -> Seq<char> {
        match self {
            LedgerDirection::Debit => "debit"@,
            LedgerDirection::Credit => "credit"@,
        }
    }

    /// The name in the database.
    pub fn name(self) -> (name: &'static str)
        ensures
            name@ == self.spec_name(),
    {
        match self {
            LedgerDirection::Debit => "debit",
            LedgerDirection::Credit => "credit",
        }
    }
}

/// One movement of chips.
#[derive(Debug, PartialEq, Eq)]
pub struct LedgerEntryInsert {
    pub entry_type: String,
    pub room_id: Option<RoomId>,
    pub hand_id: Option<HandId>,
    pub seat_id: Option<SeatId>,
    pub agent_id: Option<AgentId>,
    pub asset_type: String,
    pub amount: Chips,
    pub direction: LedgerDirection,
    pub account_scope: String,
    pub related_tx_hash: Option<String>,
    pub related_event_id: Option<String>,
    pub related_attempt_id: Option<String>,
    pub remark: Option<String>,
    pub trace_id: TraceId,
}

impl Clone for LedgerEntryInsert {
    fn clone(&self) -> (copy: LedgerEntryInsert)
        ensures
            copy == *self,
    {
        LedgerEntryInsert {
            entry_type: self.entry_type.clone(),
            room_id: self.room_id,
            hand_id: self.hand_id,
            seat_id: self.seat_id,
            agent_id: self.agent_id,
            asset_type: self.asset_type.clone(),
            amount: self.amount,
            direction: self.direction,
            account_scope: self.account_scope.clone(),
            related_tx_hash: copy_optional_text(&self.related_tx_hash),
            related_event_id: copy_optional_text(&self.related_event_id),
            related_attempt_id: copy_optional_text(&self.related_attempt_id),
            remark: copy_optional_text(&self.remark),
            trace_id: self.trace_id,
        }
    }
}

/// What was found out about a payment.
#[derive(Debug, PartialEq, Eq)]
pub struct TxVerificationUpsert {
    pub tx_hash: String,
    pub room_id: RoomId,
    pub hand_id: Option<HandId>,
    pub seat_id: Option<SeatId>,
    pub action_seq: Option<u32>,
    pub status: String,
    pub confirmations: u64,
    pub failure_reason: Option<String>,
    pub observed_from: Option<String>,
    pub observed_to: Option<String>,
    pub observed_amount: Option<Chips>,
    pub verified_at: Timestamp,
    pub trace_id: TraceId,
}

/// The action that a payment is for.
#[derive(Debug, PartialEq, Eq)]
pub struct TxBindingInsert {
    pub tx_hash: String,
    pub room_id: RoomId,
    pub hand_id: HandId,
    pub seat_id: SeatId,
    pub action_seq: u32,
    pub expected_amount: Option<Chips>,
    pub binding_status: String,
    pub created_at: Timestamp,
    pub trace_id: TraceId,
}

/// A payment that belongs to no action and is owed back.
#[derive(Debug, PartialEq, Eq)]
pub struct ExceptionCreditUpsert {
    pub room_id: RoomId,
    pub seat_id: Option<SeatId>,
    pub tx_hash: String,
    pub credit_type: String,
    pub amount: Chips,
    pub status: String,
    pub reason: String,
    pub updated_at: Timestamp,
    pub trace_id: TraceId,
}

#[derive(Debug, PartialEq, Eq)]
pub struct TxVerificationRecord {
    pub tx_hash: String,
    pub chain_id: String,
    pub from_address: Option<String>,
    pub to_address: Option<String>,
    pub value: Option<Chips>,
    pub tx_status: String,
    pub confirmations: u64,
    pub verification_status: String,
    pub failure_reason: Option<String>,
    pub verified_at: Option<Timestamp>,
}

#[derive(Debug, PartialEq, Eq)]
pub struct TxBindingRecord {
    pub room_id: RoomId,
    pub hand_id: HandId,
    pub action_seq: u32,
    pub seat_id: SeatId,
    pub expected_amount: Chips,
    pub tx_hash: String,
    pub binding_status: String,
    pub bound_at: Timestamp,
}

#[derive(Debug, PartialEq, Eq)]
pub struct ExceptionCreditRecord {
    pub room_id: RoomId,
    pub seat_id: SeatId,
    pub hand_id: Option<HandId>,
    pub tx_hash: Option<String>,
    pub credit_kind: String,
    pub amount: Chips,
    pub status: String,
    pub reason: Option<String>,
    pub created_at: Timestamp,
    pub updated_at: Timestamp,
}

/// The key that a room signs its payments with, under lock.
#[derive(Debug, PartialEq, Eq)]
pub struct RoomSigningKeyRecord {
    pub room_id: RoomId,
    pub address: String,
    pub encrypted_private_key: Vec<u8>,
    pub cipher_alg: String,
    pub key_version: i32,
    pub kek_id: String,
    pub nonce: Vec<u8>,
    pub aad: Vec<u8>,
    pub status: String,
    pub created_at: Timestamp,
    pub rotated_at: Option<Timestamp>,
    pub revoked_at: Option<Timestamp>,
}

/// Who is to be paid what after a hand.
#[derive(Debug, PartialEq, Eq)]
pub struct SettlementPlanRecordInsert {
    pub settlement_plan_id: u128,
    pub room_id: RoomId,
    pub hand_id: HandId,
    pub status: String,
    pub rake_amount: Chips,
    pub payout_total: Chips,
    pub payload_json: Json,
    pub created_at: Timestamp,
    pub finalized_at: Option<Timestamp>,
}

/// One step of paying out after a hand.
#[derive(Debug, PartialEq, Eq)]
pub struct SettlementRecordInsert {
    pub settlement_record_id: u128,
    pub settlement_plan_id: u128,
    pub room_id: RoomId,
    pub hand_id: HandId,
    pub tx_hash: Option<String>,
    pub settlement_status: String,
    pub retry_count: i32,
    pub error_detail: Option<String>,
    pub created_at: Timestamp,
    pub updated_at: Timestamp,
}

impl Clone for SettlementRecordInsert {
    fn clone(&self) -> (copy: SettlementRecordInsert)
        ensures
            copy == *self,
    {
        SettlementRecordInsert {
            settlement_record_id: self.settlement_record_id,
            settlement_plan_id: self.settlement_plan_id,
            room_id: self.room_id,
            hand_id: self.hand_id,
            tx_hash: copy_optional_text(&self.tx_hash),
            settlement_status: self.settlement_status.clone(),
            retry_count: self.retry_count,
            error_detail: copy_optional_text(&self.error_detail),
            created_at: self.created_at,
            updated_at: self.updated_at,
        }
    }
}

/// What became of the payments of one transaction.
#[derive(Debug, PartialEq, Eq)]
pub struct SettlementRecordStatusUpdate {
    pub tx_hash: String,
    pub settlement_status: String,
    pub retry_count: i32,
    pub error_detail: Option<String>,
    pub updated_at: Timestamp,
}

#[derive(Debug, PartialEq, Eq)]
pub struct SettlementShowdownSeatCardsRecord {
    pub seat_id: SeatId,
    pub cards: String,
}

/// The cards that a hand is settled by.
#[derive(Debug, PartialEq, Eq)]
pub struct SettlementShowdownInputRecord {
    pub room_id: RoomId,
    pub hand_id: HandId,
    pub board_cards: String,
    pub revealed_hole_cards: Vec<SettlementShowdownSeatCardsRecord>,
    pub source: String,
    pub updated_at: Timestamp,
    pub trace_id: TraceId,
}

/// An amount as the database is given it.
pub fn chips_to_decimal_string(amount: Chips) -> (text: String)
    ensures
        text@ == decimal(amount.0 as nat),
{
    decimal_text(amount.0)
}

/// The amount that a text of the database stands for.
pub open spec fn chips_in(text: Seq<char>) -> Option<Chips> {
    match read_number(text, 10, u128::MAX as int) {
        Ok(n) => Some(Chips(n as u128)),
        Err(_) => None,
    }
}

/// The amount that a text of the database stands for, none where it is no whole number.
pub fn parse_numeric_to_chips(text: &str) -> (amount: Option<Chips>)
    ensures
        amount == chips_in(text@),
{
    match parse_number(&chars_of(text), 10, u128::MAX) {
        Ok(n) => Some(Chips(n)),
        Err(_) => None,
    }
}

/// An amount that the database was given is the amount that it gives back.
pub proof fn amounts_read_back(amount: Chips)
    ensures
        chips_in(decimal(amount.0 as nat)) == Some(amount),
{
    numbers_read_back(amount.0 as nat, 10, u128::MAX as int);
}

/// An amount in a text, or none at all.
pub open spec fn chips_or_zero(text: Seq<char>) -> Chips {
    match chips_in(text) {
        Some(amount) => amount,
        None => Chips(0),
    }
}

fn parse_chips_or_zero(text: &str) -> (amount: Chips)
    ensures
        amount == chips_or_zero(text@),
{
    match parse_numeric_to_chips(text) {
        Some(amount) => amount,
        None => Chips(0),
    }
}

/// A ledger entry in the database.
#[derive(Debug, PartialEq, Eq)]
pub struct LedgerEntryRow {
    pub entry_type: String,
    pub room_id: Option<u128>,
    pub hand_id: Option<u128>,
    pub seat_id: Option<i16>,
    pub agent_id: Option<u128>,
    pub asset_type: String,
    pub amount_text: String,
    pub direction: String,
    pub account_scope: String,
    pub related_tx_hash: Option<String>,
    pub related_event_id: Option<u128>,
    pub related_attempt_id: Option<u128>,
    pub remark: Option<String>,
    pub trace_id: u128,
}

impl LedgerEntryInsert {
    /// Whether a row holds this entry.
    pub open spec fn is_in_row(self, row: LedgerEntryRow) -> bool {
        &&& row.entry_type == self.entry_type
        &&& row.room_id == (match self.room_id {
            Some(id) => Some(id.0),
            None => None,
        })
        &&& row.hand_id == (match self.hand_id {
            Some(id) => Some(id.0),
            None => None,
        })
        &&& row.seat_id == seat_column(self.seat_id)
        &&& row.agent_id == (match self.agent_id {
            Some(id) => Some(id.0),
            None => None,
        })
        &&& row.asset_type == self.asset_type
        &&& row.amount_text@ == decimal(self.amount.0 as nat)
        &&& row.direction@ == self.direction.spec_name()
        &&& row.account_scope == self.account_scope
        &&& row.related_tx_hash == self.related_tx_hash
        &&& row.related_event_id == optional_id_in(self.related_event_id)
        &&& row.related_attempt_id == optional_id_in(self.related_attempt_id)
        &&& row.remark == self.remark
        &&& row.trace_id == self.trace_id.0
    }

    /// The row that holds this entry.
    pub fn to_row(&self) -> (row: LedgerEntryRow)
        ensures
            self.is_in_row(row),
    {
        LedgerEntryRow {
            entry_type: self.entry_type.clone(),
            room_id: match self.room_id {
                Some(id) => Some(id.0),
                None => None,
            },
            hand_id: match self.hand_id {
                Some(id) => Some(id.0),
                None => None,
            },
            seat_id: optional_seat_column(self.seat_id),
            agent_id: match self.agent_id {
                Some(id) => Some(id.0),
                None => None,
            },
            asset_type: self.asset_type.clone(),
            amount_text: chips_to_decimal_string(self.amount),
            direction: owned(self.direction.name()),
            account_scope: self.account_scope.clone(),
            related_tx_hash: copy_optional_text(&self.related_tx_hash),
            related_event_id: optional_id(&self.related_event_id),
            related_attempt_id: optional_id(&self.related_attempt_id),
            remark: copy_optional_text(&self.remark),
            trace_id: self.trace_id.0,
        }
    }

    /// Whether this entry is read from a row: anything but a debit is a credit, and an amount
    /// that is no whole number counts as nothing.
    pub open spec fn is_from_row(self, row: LedgerEntryRow) -> bool {
        &&& self.entry_type == row.entry_type
        &&& self.room_id == (match row.room_id {
            Some(id) => Some(RoomId(id)),
            None => None,
        })
        &&& self.hand_id == (match row.hand_id {
            Some(id) => Some(HandId(id)),
            None => None,
        })
        &&& self.seat_id == seat_in(row.seat_id)
        &&& self.agent_id == (match row.agent_id {
            Some(id) => Some(AgentId(id)),
            None => None,
        })
        &&& self.asset_type == row.asset_type
        &&& self.amount == chips_or_zero(row.amount_text@)
        &&& self.direction == (if row.direction@ == "debit"@ {
            LedgerDirection::Debit
        } else {
            LedgerDirection::Credit
        })
        &&& self.account_scope == row.account_scope
        &&& self.related_tx_hash == row.related_tx_hash
        &&& is_optional_id_text(self.related_event_id, row.related_event_id)
        &&& is_optional_id_text(self.related_attempt_id, row.related_attempt_id)
        &&& self.remark == row.remark
        &&& self.trace_id == TraceId(row.trace_id)
    }

    /// The entry that a row holds.
    pub fn from_row(row: LedgerEntryRow) -> (entry: LedgerEntryInsert)
        ensures
            entry.is_from_row(row),
    {
        LedgerEntryInsert {
            entry_type: row.entry_type,
            room_id: match row.room_id {
                Some(id) => Some(RoomId(id)),
                None => None,
            },
            hand_id: match row.hand_id {
                Some(id) => Some(HandId(id)),
                None => None,
            },
            seat_id: optional_seat(row.seat_id),
            agent_id: match row.agent_id {
                Some(id) => Some(AgentId(id)),
                None => None,
            },
            asset_type: row.asset_type,
            amount: parse_chips_or_zero(row.amount_text.as_str()),
            direction: if same_text(row.direction.as_str(), "debit") {
                LedgerDirection::Debit
            } else {
                LedgerDirection::Credit
            },
            account_scope: row.account_scope,
            related_tx_hash: row.related_tx_hash,
            related_event_id: optional_id_text(row.related_event_id),
            related_attempt_id: optional_id_text(row.related_attempt_id),
            remark: row.remark,
            trace_id: TraceId(row.trace_id),
        }
    }
}

/// An entry that was written is read again with the same chips, direction, places and texts;
/// what it says of related events and attempts comes back where it names an identifier.
pub proof fn entries_read_back(entry: LedgerEntryInsert, row: LedgerEntryRow, read: LedgerEntryInsert)
    requires
        entry.is_in_row(row),
        read.is_from_row(row),
    ensures
        read.entry_type == entry.entry_type,
        read.room_id == entry.room_id,
        read.hand_id == entry.hand_id,
        read.seat_id == entry.seat_id,
        read.agent_id == entry.agent_id,
        read.asset_type == entry.asset_type,
        read.amount == entry.amount,
        read.direction == entry.direction,
        read.account_scope == entry.account_scope,
        read.related_tx_hash == entry.related_tx_hash,
        is_optional_id_text(read.related_event_id, optional_id_in(entry.related_event_id)),
        is_optional_id_text(read.related_attempt_id, optional_id_in(entry.related_attempt_id)),
        read.remark == entry.remark,
        read.trace_id == entry.trace_id,
{
    amounts_read_back(entry.amount);
    reveal_strlit("debit");
    reveal_strlit("credit");
    assert("credit"@.len() != "debit"@.len());
}

/// What was found out about a payment, in the database.
#[derive(Debug, PartialEq, Eq)]
pub struct TxVerificationRow {
    pub tx_hash: String,
    pub chain_id: String,
    pub from_address: Option<String>,
    pub to_address: Option<String>,
    pub value_text: Option<String>,
    pub tx_status: String,
    pub confirmations: i64,
    pub verification_status: String,
    pub failure_reason: Option<String>,
    pub verified_at: Option<Timestamp>,
}

impl TxVerificationUpsert {
    /// The row that holds this; an amount that was not seen is kept as nothing.
    pub fn to_row(&self, chain_id: &str) -> (row: TxVerificationRow)
        ensures
            row.tx_hash == self.tx_hash,
            row.chain_id@ == chain_id@,
            row.from_address == self.observed_from,
            row.to_address == self.observed_to,
            row.value_text is Some,
            row.value_text->0@ == decimal(
                match self.observed_amount {
                    Some(amount) => amount.0 as nat,
                    None => 0,
                },
            ),
            row.tx_status == self.status,
            row.confirmations == wide(self.confirmations as int),
            row.verification_status == self.status,
            row.failure_reason == self.failure_reason,
            row.verified_at == Some(self.verified_at),
    {
        TxVerificationRow {
            tx_hash: self.tx_hash.clone(),
            chain_id: owned(chain_id),
            from_address: copy_optional_text(&self.observed_from),
            to_address: copy_optional_text(&self.observed_to),
            value_text: Some(
                match self.observed_amount {
                    Some(amount) => chips_to_decimal_string(amount),
                    None => decimal_text(0),
                },
            ),
            tx_status: self.status.clone(),
            confirmations: to_wide(self.confirmations),
            verification_status: self.status.clone(),
            failure_reason: copy_optional_text(&self.failure_reason),
            verified_at: Some(self.verified_at),
        }
    }
}

impl TxVerificationRecord {
    /// What a row holds; an amount that is no whole number is left out.
    pub fn from_row(row: TxVerificationRow) -> (record: TxVerificationRecord)
        ensures
            record.tx_hash == row.tx_hash,
            record.chain_id == row.chain_id,
            record.from_address == row.from_address,
            record.to_address == row.to_address,
            record.value == (match row.value_text {
                Some(text) => chips_in(text@),
                None => None,
            }),
            record.tx_status == row.tx_status,
            record.confirmations == unsigned_or_zero(row.confirmations as int, u64::MAX as int),
            record.verification_status == row.verification_status,
            record.failure_reason == row.failure_reason,
            record.verified_at == row.verified_at,
    {
        TxVerificationRecord {
            tx_hash: row.tx_hash,
            chain_id: row.chain_id,
            from_address: row.from_address,
            to_address: row.to_address,
            value: match &row.value_text {
                Some(text) => parse_numeric_to_chips(text.as_str()),
                None => None,
            },
            tx_status: row.tx_status,
            confirmations: from_wide(row.confirmations),
            verification_status: row.verification_status,
            failure_reason: row.failure_reason,
            verified_at: row.verified_at,
        }
    }
}

/// The action that a payment is for, in the database.
#[derive(Debug, PartialEq, Eq)]
pub struct TxBindingRow {
    pub room_id: u128,
    pub hand_id: u128,
    pub action_seq: i32,
    pub seat_id: i16,
    pub expected_amount_text: String,
    pub tx_hash: String,
    pub binding_status: String,
    pub bound_at: Timestamp,
}

impl TxBindingInsert {
    /// The row that holds this, which needs an amount.
    pub fn to_row(&self) -> (row: Result<TxBindingRow, LedgerStoreError>)
        ensures
            match self.expected_amount {
                None => row == Err::<TxBindingRow, LedgerStoreError>(
                    LedgerStoreError::MissingExpectedAmount,
                ),
                Some(amount) => {
                    &&& row is Ok
                    &&& row->Ok_0.room_id == self.room_id.0
                    &&& row->Ok_0.hand_id == self.hand_id.0
                    &&& row->Ok_0.action_seq == middle(self.action_seq as int)
                    &&& row->Ok_0.seat_id == self.seat_id
                    &&& row->Ok_0.expected_amount_text@ == decimal(amount.0 as nat)
                    &&& row->Ok_0.tx_hash == self.tx_hash
                    &&& row->Ok_0.binding_status == self.binding_status
                    &&& row->Ok_0.bound_at == self.created_at
                },
            },
    {
        match self.expected_amount {
            None => Err(LedgerStoreError::MissingExpectedAmount),
            Some(amount) => Ok(
                TxBindingRow {
                    room_id: self.room_id.0,
                    hand_id: self.hand_id.0,
                    action_seq: to_middle(self.action_seq),
                    seat_id: self.seat_id as i16,
                    expected_amount_text: chips_to_decimal_string(amount),
                    tx_hash: self.tx_hash.clone(),
                    binding_status: self.binding_status.clone(),
                    bound_at: self.created_at,
                },
            ),
        }
    }
}

impl TxBindingRecord {
    /// Whether this is read from a row.
    pub open spec fn is_from_row(self, row: TxBindingRow) -> bool {
        &&& self.room_id == RoomId(row.room_id)
        &&& self.hand_id == HandId(row.hand_id)
        &&& self.action_seq == unsigned_or_zero(row.action_seq as int, u32::MAX as int)
        &&& self.seat_id == unsigned_or_zero(row.seat_id as int, u8::MAX as int)
        &&& self.expected_amount == chips_or_zero(row.expected_amount_text@)
        &&& self.tx_hash == row.tx_hash
        &&& self.binding_status == row.binding_status
        &&& self.bound_at == row.bound_at
    }

    /// What a row holds.
    pub fn from_row(row: TxBindingRow) -> (record: TxBindingRecord)
        ensures
            record.is_from_row(row),
    {
        TxBindingRecord {
            room_id: RoomId(row.room_id),
            hand_id: HandId(row.hand_id),
            action_seq: from_middle(row.action_seq),
            seat_id: seat_or_zero(row.seat_id),
            expected_amount: parse_chips_or_zero(row.expected_amount_text.as_str()),
            tx_hash: row.tx_hash,
            binding_status: row.binding_status,
            bound_at: row.bound_at,
        }
    }
}

/// What the database's complaint about a new binding means.
pub fn binding_error(complaint: String) -> (error: LedgerStoreError)
    ensures
        error == (if holds(complaint@, "uq_tx_bindings_hand_action_seq"@) {
            LedgerStoreError::DuplicateTxBinding
        } else if holds(complaint@, "uq_tx_bindings_tx_hash"@) {
            LedgerStoreError::DuplicateTxHashBinding
        } else {
            LedgerStoreError::Database(complaint)
        }),
{
    let chars = chars_of(complaint.as_str());
    if contains(&chars, &chars_of("uq_tx_bindings_hand_action_seq")) {
        LedgerStoreError::DuplicateTxBinding
    } else if contains(&chars, &chars_of("uq_tx_bindings_tx_hash")) {
        LedgerStoreError::DuplicateTxHashBinding
    } else {
        LedgerStoreError::Database(complaint)
    }
}

/// A payment that is owed back, in the database.
#[derive(Debug, PartialEq, Eq)]
pub struct ExceptionCreditRow {
    pub room_id: u128,
    pub seat_id: i16,
    pub hand_id: Option<u128>,
    pub tx_hash: Option<String>,
    pub credit_kind: String,
    pub amount_text: String,
    pub status: String,
    pub reason: Option<String>,
    pub created_at: Timestamp,
    pub updated_at: Timestamp,
}

impl ExceptionCreditUpsert {
    /// The row that holds this; a seat that is not known is kept as seat zero.
    pub fn to_row(&self) -> (row: ExceptionCreditRow)
        ensures
            row.room_id == self.room_id.0,
            row.seat_id == (match self.seat_id {
                Some(seat) => seat as int,
                None => 0,
            }),
            row.hand_id is None,
            row.tx_hash == Some(self.tx_hash),
            row.credit_kind == self.credit_type,
            row.amount_text@ == decimal(self.amount.0 as nat),
            row.status == self.status,
            row.reason == Some(self.reason),
            row.created_at == self.updated_at,
            row.updated_at == self.updated_at,
    {
        ExceptionCreditRow {
            room_id: self.room_id.0,
            seat_id: match self.seat_id {
                Some(seat) => seat as i16,
                None => 0,
            },
            hand_id: None,
            tx_hash: Some(self.tx_hash.clone()),
            credit_kind: self.credit_type.clone(),
            amount_text: chips_to_decimal_string(self.amount),
            status: self.status.clone(),
            reason: Some(self.reason.clone()),
            created_at: self.updated_at,
            updated_at: self.updated_at,
        }
    }

    /// Whether a record tells of this.
    pub open spec fn is_told_by(self, record: ExceptionCreditRecord) -> bool {
        &&& record.room_id == self.room_id
        &&& record.seat_id == (match self.seat_id {
            Some(seat) => seat,
            None => 0,
        })
        &&& record.hand_id is None
        &&& record.tx_hash == Some(self.tx_hash)
        &&& record.credit_kind == self.credit_type
        &&& record.amount == self.amount
        &&& record.status == self.status
        &&& record.reason == Some(self.reason)
        &&& record.created_at == self.updated_at
        &&& record.updated_at == self.updated_at
    }

    fn to_record(&self) -> (record: ExceptionCreditRecord)
        ensures
            self.is_told_by(record),
    {
        ExceptionCreditRecord {
            room_id: self.room_id,
            seat_id: match self.seat_id {
                Some(seat) => seat,
                None => 0,
            },
            hand_id: None,
            tx_hash: Some(self.tx_hash.clone()),
            credit_kind: self.credit_type.clone(),
            amount: self.amount,
            status: self.status.clone(),
            reason: Some(self.reason.clone()),
            created_at: self.updated_at,
            updated_at: self.updated_at,
        }
    }
}

impl ExceptionCreditRecord {
    /// Whether this is read from a row.
    pub open spec fn is_from_row(self, row: ExceptionCreditRow) -> bool {
        &&& self.room_id == RoomId(row.room_id)
        &&& self.seat_id == unsigned_or_zero(row.seat_id as int, u8::MAX as int)
        &&& self.hand_id == (match row.hand_id {
            Some(id) => Some(HandId(id)),
            None => None,
        })
        &&& self.tx_hash == row.tx_hash
        &&& self.credit_kind == row.credit_kind
        &&& self.amount == chips_or_zero(row.amount_text@)
        &&& self.status == row.status
        &&& self.reason == row.reason
        &&& self.created_at == row.created_at
        &&& self.updated_at == row.updated_at
    }

    /// What a row holds.
    pub fn from_row(row: ExceptionCreditRow) -> (record: ExceptionCreditRecord)
        ensures
            record.is_from_row(row),
    {
        ExceptionCreditRecord {
            room_id: RoomId(row.room_id),
            seat_id: seat_or_zero(row.seat_id),
            hand_id: match row.hand_id {
                Some(id) => Some(HandId(id)),
                None => None,
            },
            tx_hash: row.tx_hash,
            credit_kind: row.credit_kind,
            amount: parse_chips_or_zero(row.amount_text.as_str()),
            status: row.status,
            reason: row.reason,
            created_at: row.created_at,
            updated_at: row.updated_at,
        }
    }
}

/// A payment that is owed back reads the same from the database as from the store in memory.
pub proof fn credits_read_back(
    credit: ExceptionCreditUpsert,
    row: ExceptionCreditRow,
    record: ExceptionCreditRecord,
)
    requires
        row.room_id == credit.room_id.0,
        row.seat_id == (match credit.seat_id {
            Some(seat) => seat as int,
            None => 0,
        }),
        row.hand_id is None,
        row.tx_hash == Some(credit.tx_hash),
        row.credit_kind == credit.credit_type,
        row.amount_text@ == decimal(credit.amount.0 as nat),
        row.status == credit.status,
        row.reason == Some(credit.reason),
        row.created_at == credit.updated_at,
        row.updated_at == credit.updated_at,
        record.is_from_row(row),
    ensures
        credit.is_told_by(record),
{
    amounts_read_back(credit.amount);
}

/// A plan of payments, in the database.
#[derive(Debug, PartialEq, Eq)]
pub struct SettlementPlanRow {
    pub settlement_plan_id: u128,
    pub room_id: u128,
    pub hand_id: u128,
    pub status: String,
    pub rake_amount_text: String,
    pub payout_total_text: String,
    pub payload_json: Json,
    pub created_at: Timestamp,
    pub finalized_at: Option<Timestamp>,
}

impl SettlementPlanRecordInsert {
    /// What a row holds.
    pub fn from_row(row: SettlementPlanRow) -> (record: SettlementPlanRecordInsert)
        ensures
            record.settlement_plan_id == row.settlement_plan_id,
            record.room_id == RoomId(row.room_id),
            record.hand_id == HandId(row.hand_id),
            record.status == row.status,
            record.rake_amount == chips_or_zero(row.rake_amount_text@),
            record.payout_total == chips_or_zero(row.payout_total_text@),
            record.payload_json == row.payload_json,
            record.created_at == row.created_at,
            record.finalized_at == row.finalized_at,
    {
        SettlementPlanRecordInsert {
            settlement_plan_id: row.settlement_plan_id,
            room_id: RoomId(row.room_id),
            hand_id: HandId(row.hand_id),
            status: row.status,
            rake_amount: parse_chips_or_zero(row.rake_amount_text.as_str()),
            payout_total: parse_chips_or_zero(row.payout_total_text.as_str()),
            payload_json: row.payload_json,
            created_at: row.created_at,
            finalized_at: row.finalized_at,
        }
    }
}

/// Takes entries into the ledger.
pub trait LedgerRepository {
    fn insert_entries(&mut self, entries: &Vec<LedgerEntryInsert>) -> Result<(), LedgerStoreError>;
}

/// Keeps what is known of payments.
pub trait ChainTxRepository {
    fn upsert_tx_verification(&mut self, record: TxVerificationUpsert) -> Result<
        (),
        LedgerStoreError,
    >;

    fn insert_tx_binding(&mut self, record: TxBindingInsert) -> Result<(), LedgerStoreError>;

    fn upsert_exception_credit(&mut self, record: ExceptionCreditUpsert) -> Result<
        (),
        LedgerStoreError,
    >;
}

/// Tells what is known of payments.
pub trait ChainTxReadRepository {
    fn get_tx_verification(&self, tx_hash: &str) -> Result<
        Option<TxVerificationRecord>,
        LedgerStoreError,
    >;

    fn get_tx_binding_by_tx_hash(&self, tx_hash: &str) -> Result<
        Option<TxBindingRecord>,
        LedgerStoreError,
    >;

    fn get_tx_binding_by_hand_action(&self, hand_id: HandId, action_seq: u32) -> Result<
        Option<TxBindingRecord>,
        LedgerStoreError,
    >;

    fn list_exception_credits(&self, room_id: Option<RoomId>, page: PageRequest) -> Result<
        Vec<ExceptionCreditRecord>,
        LedgerStoreError,
    >;
}

/// Tells the keys that rooms sign with.
pub trait RoomSigningKeyReadRepository {
    fn get_active_room_signing_key(&self, room_id: RoomId) -> Result<
        Option<&RoomSigningKeyRecord>,
        LedgerStoreError,
    >;
}

/// Keeps what is known of settlements.
pub trait SettlementPersistenceRepository {
    fn insert_settlement_plan(&mut self, record: SettlementPlanRecordInsert) -> Result<
        (),
        LedgerStoreError,
    >;

    fn insert_settlement_record(&mut self, record: SettlementRecordInsert) -> Result<
        (),
        LedgerStoreError,
    >;

    fn update_settlement_record_status_by_tx_hash(
        &mut self,
        update: &SettlementRecordStatusUpdate,
    ) -> Result<(), LedgerStoreError>;

    fn upsert_settlement_showdown_input(&mut self, record: SettlementShowdownInputRecord) -> Result<
        (),
        LedgerStoreError,
    >;
}

/// Tells what is known of settlements.
pub trait SettlementPersistenceReadRepository {
    fn get_settlement_plan(&self, settlement_plan_id: u128) -> Result<
        Option<&SettlementPlanRecordInsert>,
        LedgerStoreError,
    >;

    fn list_settlement_records_by_hand(&self, hand_id: HandId) -> Result<
        Vec<SettlementRecordInsert>,
        LedgerStoreError,
    >;

    fn get_settlement_showdown_input(&self, hand_id: HandId) -> Result<
        Option<&SettlementShowdownInputRecord>,
        LedgerStoreError,
    >;
}

/// A ledger that forgets everything.
#[derive(Debug)]
pub struct NoopLedgerRepository;

impl LedgerRepository for NoopLedgerRepository {
    fn insert_entries(&mut self, entries: &Vec<LedgerEntryInsert>) -> (result: Result<
        (),
        LedgerStoreError,
    >)
        ensures
            result is Ok,
    {
        Ok(())
    }
}

/// A store of payments that forgets everything.
#[derive(Debug)]
pub struct NoopChainTxRepository;

impl ChainTxRepository for NoopChainTxRepository {
    fn upsert_tx_verification(&mut self, record: TxVerificationUpsert) -> (result: Result<
        (),
        LedgerStoreError,
    >)
        ensures
            result is Ok,
    {
        Ok(())
    }

    fn insert_tx_binding(&mut self, record: TxBindingInsert) -> (result: Result<
        (),
        LedgerStoreError,
    >)
        ensures
            result is Ok,
    {
        Ok(())
    }

    fn upsert_exception_credit(&mut self, record: ExceptionCreditUpsert) -> (result: Result<
        (),
        LedgerStoreError,
    >)
        ensures
            result is Ok,
    {
        Ok(())
    }
}

/// A store of settlements that forgets everything.
#[derive(Debug)]
pub struct NoopSettlementPersistenceRepository;

impl SettlementPersistenceRepository for NoopSettlementPersistenceRepository {
    fn insert_settlement_plan(&mut self, record: SettlementPlanRecordInsert) -> (result: Result<
        (),
        LedgerStoreError,
    >)
        ensures
            result is Ok,
    {
        Ok(())
    }

    fn insert_settlement_record(&mut self, record: SettlementRecordInsert) -> (result: Result<
        (),
        LedgerStoreError,
    >)
        ensures
            result is Ok,
    {
        Ok(())
    }

    fn update_settlement_record_status_by_tx_hash(
        &mut self,
        update: &SettlementRecordStatusUpdate,
    ) -> (result: Result<(), LedgerStoreError>)
        ensures
            result is Ok,
    {
        Ok(())
    }

    fn upsert_settlement_showdown_input(&mut self, record: SettlementShowdownInputRecord) -> (result:
        Result<(), LedgerStoreError>)
        ensures
            result is Ok,
    {
        Ok(())
    }
}

impl SettlementPersistenceReadRepository for NoopSettlementPersistenceRepository {
    fn get_settlement_plan(&self, settlement_plan_id: u128) -> (plan: Result<
        Option<&SettlementPlanRecordInsert>,
        LedgerStoreError,
    >)
        ensures
            plan is Ok,
            plan->Ok_0 is None,
    {
        Ok(None)
    }

    fn list_settlement_records_by_hand(&self, hand_id: HandId) -> (records: Result<
        Vec<SettlementRecordInsert>,
        LedgerStoreError,
    >)
        ensures
            records is Ok,
            records->Ok_0@.len() == 0,
    {
        Ok(Vec::new())
    }

    fn get_settlement_showdown_input(&self, hand_id: HandId) -> (input: Result<
        Option<&SettlementShowdownInputRecord>,
        LedgerStoreError,
    >)
        ensures
            input is Ok,
            input->Ok_0 is None,
    {
        Ok(None)
    }
}

/// A ledger in memory.
#[derive(Debug)]
pub struct InMemoryLedgerRepository {
    entries: Vec<LedgerEntryInsert>,
}

fn push_copies(entries: &mut Vec<LedgerEntryInsert>, more: &Vec<LedgerEntryInsert>)
    ensures
        final(entries)@ == old(entries)@ + more@,
{
    let mut i: usize = 0;
    assert(entries@ =~= old(entries)@ + more@.take(0));
    while i < more.len()
        invariant
            i <= more.len(),
            entries@ == old(entries)@ + more@.take(i as int),
        decreases more.len() - i,
    {
        entries.push(more[i].clone());
        i = i + 1;
        assert(old(entries)@ + more@.take(i as int) =~= (old(entries)@ + more@.take(i - 1)).push(
            more@[i - 1],
        ));
    }
    assert(more@.take(i as int) =~= more@);
}

impl InMemoryLedgerRepository {
    pub closed spec fn spec_entries(self) -> Seq<LedgerEntryInsert> {
        self.entries@
    }

    pub fn new() -> (repo: InMemoryLedgerRepository)
        ensures
            repo.spec_entries() == Seq::<LedgerEntryInsert>::empty(),
    {
        InMemoryLedgerRepository { entries: Vec::new() }
    }

    /// A copy of all entries.
    pub fn entries_snapshot(&self) -> (entries: Vec<LedgerEntryInsert>)
        ensures
            entries@ == self.spec_entries(),
    {
        let mut entries: Vec<LedgerEntryInsert> = Vec::new();
        push_copies(&mut entries, &self.entries);
        entries
    }
}

impl LedgerRepository for InMemoryLedgerRepository {
    /// Takes in the entries after those that are there.
    fn insert_entries(&mut self, entries: &Vec<LedgerEntryInsert>) -> (result: Result<
        (),
        LedgerStoreError,
    >)
        ensures
            result is Ok,
            final(self).spec_entries() == old(self).spec_entries() + entries@,
    {
        push_copies(&mut self.entries, entries);
        Ok(())
    }
}

/// A store of payments in memory.
#[derive(Debug)]
pub struct InMemoryChainTxRepository {
    tx_verifications: Table<String, TxVerificationUpsert>,
    tx_bindings: Table<String, TxBindingInsert>,
    exception_credits: Table<String, ExceptionCreditUpsert>,
    room_signing_keys: Table<u128, RoomSigningKeyRecord>,
}

/// The last binding for an action of a hand.
pub open spec fn binding_for(
    rows: Seq<(Seq<char>, TxBindingInsert)>,
    hand_id: HandId,
    action_seq: u32,
) -> Option<TxBindingInsert>
    decreases rows.len(),
{
    if rows.len() == 0 {
        None
    } else if rows.last().1.hand_id == hand_id && rows.last().1.action_seq == action_seq {
        Some(rows.last().1)
    } else {
        binding_for(rows.drop_last(), hand_id, action_seq)
    }
}

/// Whether a record tells of a binding; one without an amount is not told of.
pub open spec fn tells_binding(binding: Option<TxBindingInsert>, record: Option<TxBindingRecord>) -> bool {
    match binding {
        Some(b) => match b.expected_amount {
            Some(amount) => {
                &&& record is Some
                &&& record->0.room_id == b.room_id
                &&& record->0.hand_id == b.hand_id
                &&& record->0.action_seq == b.action_seq
                &&& record->0.seat_id == b.seat_id
                &&& record->0.expected_amount == amount
                &&& record->0.tx_hash == b.tx_hash
                &&& record->0.binding_status == b.binding_status
                &&& record->0.bound_at == b.created_at
            },
            None => record is None,
        },
        None => record is None,
    }
}

fn binding_record(b: &TxBindingInsert) -> (record: Option<TxBindingRecord>)
    ensures
        tells_binding(Some(*b), record),
{
    match b.expected_amount {
        Some(amount) => Some(
            TxBindingRecord {
                room_id: b.room_id,
                hand_id: b.hand_id,
                action_seq: b.action_seq,
                seat_id: b.seat_id,
                expected_amount: amount,
                tx_hash: b.tx_hash.clone(),
                binding_status: b.binding_status.clone(),
                bound_at: b.created_at,
            },
        ),
        None => None,
    }
}

/// The payments that are owed back by one room, or by all, in the order in which they came.
pub open spec fn credits_of(rows: Seq<(Seq<char>, ExceptionCreditUpsert)>, room_id: Option<RoomId>) -> Seq<
    ExceptionCreditUpsert,
>
    decreases rows.len(),
{
    if rows.len() == 0 {
        Seq::empty()
    } else {
        let front = credits_of(rows.drop_last(), room_id);
        if room_id is None || rows.last().1.room_id == room_id->0 {
            front.push(rows.last().1)
        } else {
            front
        }
    }
}

impl InMemoryChainTxRepository {
    pub closed spec fn verifications(self) -> Seq<(Seq<char>, TxVerificationUpsert)> {
        self.tx_verifications.rows()
    }

    pub closed spec fn bindings(self) -> Seq<(Seq<char>, TxBindingInsert)> {
        self.tx_bindings.rows()
    }

    pub closed spec fn credits(self) -> Seq<(Seq<char>, ExceptionCreditUpsert)> {
        self.exception_credits.rows()
    }

    pub closed spec fn signing_keys(self) -> Seq<(u128, RoomSigningKeyRecord)> {
        self.room_signing_keys.rows()
    }

    pub fn new() -> (repo: InMemoryChainTxRepository)
        ensures
            repo.verifications().len() == 0,
            repo.bindings().len() == 0,
            repo.credits().len() == 0,
            repo.signing_keys().len() == 0,
    {
        InMemoryChainTxRepository {
            tx_verifications: Table::new(),
            tx_bindings: Table::new(),
            exception_credits: Table::new(),
            room_signing_keys: Table::new(),
        }
    }

    pub fn tx_verifications_len(&self) -> (count: usize)
        ensures
            count == self.verifications().len(),
    {
        self.tx_verifications.len()
    }

    pub fn tx_bindings_len(&self) -> (count: usize)
        ensures
            count == self.bindings().len(),
    {
        self.tx_bindings.len()
    }

    pub fn exception_credits_len(&self) -> (count: usize)
        ensures
            count == self.credits().len(),
    {
        self.exception_credits.len()
    }

    /// Keeps the key that a room signs with.
    pub fn upsert_room_signing_key_record(&mut self, record: RoomSigningKeyRecord) -> (result: Result<
        (),
        LedgerStoreError,
    >)
        ensures
            result is Ok,
            final(self).signing_keys() == upserted(
                old(self).signing_keys(),
                record.room_id.0,
                record,
            ),
            final(self).verifications() == old(self).verifications(),
            final(self).bindings() == old(self).bindings(),
            final(self).credits() == old(self).credits(),
    {
        self.room_signing_keys.upsert(record.room_id.0, record);
        Ok(())
    }

    fn find_binding(&self, hand_id: HandId, action_seq: u32) -> (found: Option<&TxBindingInsert>)
        ensures
            match found {
                Some(b) => binding_for(self.bindings(), hand_id, action_seq) == Some(*b),
                None => binding_for(self.bindings(), hand_id, action_seq) is None,
            },
    {
        let mut i: usize = self.tx_bindings.len();
        assert(self.bindings().take(i as int) =~= self.bindings());
        while i > 0
            invariant
                i <= self.bindings().len(),
                binding_for(self.bindings(), hand_id, action_seq) == binding_for(
                    self.bindings().take(i as int),
                    hand_id,
                    action_seq,
                ),
            decreases i,
        {
            i = i - 1;
            let b = self.tx_bindings.value_at(i);
            assert(self.bindings().take(i + 1).drop_last() =~= self.bindings().take(i as int));
            if b.hand_id == hand_id && b.action_seq == action_seq {
                return Some(b);
            }
        }
        None
    }
}

impl ChainTxRepository for InMemoryChainTxRepository {
    /// Keeps what was found out about a payment, in place of what was known before.
    fn upsert_tx_verification(&mut self, record: TxVerificationUpsert) -> (result: Result<
        (),
        LedgerStoreError,
    >)
        ensures
            result is Ok,
            final(self).verifications() == upserted(
                old(self).verifications(),
                record.tx_hash@,
                record,
            ),
            final(self).bindings() == old(self).bindings(),
            final(self).credits() == old(self).credits(),
            final(self).signing_keys() == old(self).signing_keys(),
    {
        self.tx_verifications.upsert(record.tx_hash.clone(), record);
        Ok(())
    }

    /// Ties a payment to an action; an action has one payment, and a payment one action.
    fn insert_tx_binding(&mut self, record: TxBindingInsert) -> (result: Result<
        (),
        LedgerStoreError,
    >)
        ensures
            result == (if binding_for(
                old(self).bindings(),
                record.hand_id,
                record.action_seq,
            ) is Some {
                Err::<(), LedgerStoreError>(LedgerStoreError::DuplicateTxBinding)
            } else if lookup(old(self).bindings(), record.tx_hash@) is Some {
                Err::<(), LedgerStoreError>(LedgerStoreError::DuplicateTxHashBinding)
            } else {
                Ok::<(), LedgerStoreError>(())
            }),
            final(self).bindings() == (if result is Ok {
                upserted(old(self).bindings(), record.tx_hash@, record)
            } else {
                old(self).bindings()
            }),
            final(self).verifications() == old(self).verifications(),
            final(self).credits() == old(self).credits(),
            final(self).signing_keys() == old(self).signing_keys(),
    {
        if self.find_binding(record.hand_id, record.action_seq).is_some() {
            return Err(LedgerStoreError::DuplicateTxBinding);
        }
        if self.tx_bindings.get(&record.tx_hash).is_some() {
            return Err(LedgerStoreError::DuplicateTxHashBinding);
        }
        self.tx_bindings.upsert(record.tx_hash.clone(), record);
        Ok(())
    }

    /// Keeps a payment that is owed back, in place of what was known of it before.
    fn upsert_exception_credit(&mut self, record: ExceptionCreditUpsert) -> (result: Result<
        (),
        LedgerStoreError,
    >)
        ensures
            result is Ok,
            final(self).credits() == upserted(old(self).credits(), record.tx_hash@, record),
            final(self).verifications() == old(self).verifications(),
            final(self).bindings() == old(self).bindings(),
            final(self).signing_keys() == old(self).signing_keys(),
    {
        self.exception_credits.upsert(record.tx_hash.clone(), record);
        Ok(())
    }
}

impl ChainTxReadRepository for InMemoryChainTxRepository {
    fn get_tx_verification(&self, tx_hash: &str) -> (record: Result<
        Option<TxVerificationRecord>,
        LedgerStoreError,
    >)
        ensures
            record is Ok,
            match lookup(self.verifications(), tx_hash@) {
                Some(known) => {
                    &&& record->Ok_0 is Some
                    &&& record->Ok_0->0.tx_hash == known.tx_hash
                    &&& record->Ok_0->0.chain_id@ == default_chain_id()
                    &&& record->Ok_0->0.from_address == known.observed_from
                    &&& record->Ok_0->0.to_address == known.observed_to
                    &&& record->Ok_0->0.value == known.observed_amount
                    &&& record->Ok_0->0.tx_status == known.status
                    &&& record->Ok_0->0.confirmations == known.confirmations
                    &&& record->Ok_0->0.verification_status == known.status
                    &&& record->Ok_0->0.failure_reason == known.failure_reason
                    &&& record->Ok_0->0.verified_at == Some(known.verified_at)
                },
                None => record->Ok_0 is None,
            },
    {
        Ok(
            match self.tx_verifications.get(&owned(tx_hash)) {
                Some(known) => Some(
                    TxVerificationRecord {
                        tx_hash: known.tx_hash.clone(),
                        chain_id: owned("cfx-espace"),
                        from_address: copy_optional_text(&known.observed_from),
                        to_address: copy_optional_text(&known.observed_to),
                        value: known.observed_amount,
                        tx_status: known.status.clone(),
                        confirmations: known.confirmations,
                        verification_status: known.status.clone(),
                        failure_reason: copy_optional_text(&known.failure_reason),
                        verified_at: Some(known.verified_at),
                    },
                ),
                None => None,
            },
        )
    }

    fn get_tx_binding_by_tx_hash(&self, tx_hash: &str) -> (record: Result<
        Option<TxBindingRecord>,
        LedgerStoreError,
    >)
        ensures
            record is Ok,
            tells_binding(lookup(self.bindings(), tx_hash@), record->Ok_0),
    {
        Ok(
            match self.tx_bindings.get(&owned(tx_hash)) {
                Some(b) => binding_record(b),
                None => None,
            },
        )
    }

    fn get_tx_binding_by_hand_action(&self, hand_id: HandId, action_seq: u32) -> (record: Result<
        Option<TxBindingRecord>,
        LedgerStoreError,
    >)
        ensures
            record is Ok,
            tells_binding(binding_for(self.bindings(), hand_id, action_seq), record->Ok_0),
    {
        Ok(
            match self.find_binding(hand_id, action_seq) {
                Some(b) => binding_record(b),
                None => None,
            },
        )
    }

    /// The payments that are owed back, in the order in which they came.
    fn list_exception_credits(&self, room_id: Option<RoomId>, page: PageRequest) -> (records: Result<
        Vec<ExceptionCreditRecord>,
        LedgerStoreError,
    >)
        ensures
            records is Ok,
            records->Ok_0@.len() == page_of(credits_of(self.credits(), room_id), page).len(),
            forall|i: int|
                0 <= i < records->Ok_0@.len() ==> page_of(
                    credits_of(self.credits(), room_id),
                    page,
                )[i].is_told_by(#[trigger] records->Ok_0@[i]),
    {
        let mut records: Vec<ExceptionCreditRecord> = Vec::new();
        let mut seen: usize = 0;
        let mut i: usize = 0;
        let ghost rows = self.credits();
        while i < self.exception_credits.len()
            invariant
                i <= rows.len(),
                rows == self.credits(),
                seen == credits_of(rows.take(i as int), room_id).len(),
                seen <= i,
                records@.len() == page_of(credits_of(rows.take(i as int), room_id), page).len(),
                forall|k: int|
                    0 <= k < records@.len() ==> page_of(
                        credits_of(rows.take(i as int), room_id),
                        page,
                    )[k].is_told_by(#[trigger] records@[k]),
            decreases rows.len() - i,
        {
            let credit = self.exception_credits.value_at(i);
            let ghost before = credits_of(rows.take(i as int), room_id);
            assert(rows.take(i + 1).drop_last() =~= rows.take(i as int));
            let wanted: bool = match room_id {
                Some(id) => credit.room_id == id,
                None => true,
            };
            if wanted {
                let ghost after = before.push(*credit);
                if seen >= page.offset && seen - page.offset < page.limit {
                    records.push(credit.to_record());
                    assert(page_of(after, page) =~= page_of(before, page).push(*credit));
                } else {
                    assert(page_of(after, page) =~= page_of(before, page));
                }
                seen = seen + 1;
            }
            i = i + 1;
        }
        assert(rows.take(i as int) =~= rows);
        Ok(records)
    }
}

impl RoomSigningKeyReadRepository for InMemoryChainTxRepository {
    fn get_active_room_signing_key(&self, room_id: RoomId) -> (record: Result<
        Option<&RoomSigningKeyRecord>,
        LedgerStoreError,
    >)
        ensures
            record is Ok,
            match record->Ok_0 {
                Some(key) => lookup(self.signing_keys(), room_id.0) == Some(*key),
                None => lookup(self.signing_keys(), room_id.0) is None,
            },
    {
        Ok(self.room_signing_keys.get(&room_id.0))
    }
}

/// An action that is tied to a payment can be tied to no other, whatever payment that is.
pub proof fn an_action_has_one_payment(
    rows: Seq<(Seq<char>, TxBindingInsert)>,
    record: TxBindingInsert,
)
    requires
        binding_for(rows, record.hand_id, record.action_seq) is None,
        lookup(rows, record.tx_hash@) is None,
    ensures
        binding_for(
            upserted(rows, record.tx_hash@, record),
            record.hand_id,
            record.action_seq,
        ) == Some(record),
{
    lemma_upsert_of_a_new_key(rows, record.tx_hash@, record);
}

proof fn lemma_upsert_of_a_new_key<K, V>(rows: Seq<(K, V)>, key: K, value: V)
    requires
        lookup(rows, key) is None,
    ensures
        upserted(rows, key, value) == rows.push((key, value)),
{
    if rows.len() == 0 {
        assert(rows.push((key, value)) =~= seq![(key, value)]);
    }
}

/// A store of settlements in memory.
#[derive(Debug)]
pub struct InMemorySettlementPersistenceRepository {
    settlement_plans: Table<u128, SettlementPlanRecordInsert>,
    settlement_records: Table<u128, SettlementRecordInsert>,
    showdown_inputs: Table<u128, SettlementShowdownInputRecord>,
}

/// A record with what became of its transaction, if it is the one that is told of.
pub open spec fn told_of(
    record: SettlementRecordInsert,
    update: SettlementRecordStatusUpdate,
) -> SettlementRecordInsert {
    if record.tx_hash is Some && record.tx_hash->0@ == update.tx_hash@ {
        SettlementRecordInsert {
            settlement_status: update.settlement_status,
            retry_count: update.retry_count,
            error_detail: update.error_detail,
            updated_at: update.updated_at,
            ..record
        }
    } else {
        record
    }
}

/// All rows with what became of a transaction.
pub open spec fn told_rows(
    rows: Seq<(u128, SettlementRecordInsert)>,
    update: SettlementRecordStatusUpdate,
) -> Seq<(u128, SettlementRecordInsert)> {
    rows.map_values(
        |row: (u128, SettlementRecordInsert)| (row.0, told_of(row.1, update)),
    )
}

/// Puts a record behind all those that are not younger.
pub open spec fn insert_by_age(records: Seq<SettlementRecordInsert>, record: SettlementRecordInsert) -> Seq<
    SettlementRecordInsert,
>
    decreases records.len(),
{
    if records.len() == 0 {
        seq![record]
    } else if records.last().created_at.instant() <= record.created_at.instant() {
        records.push(record)
    } else {
        insert_by_age(records.drop_last(), record).push(records.last())
    }
}

/// The records of one hand, the oldest first; of equal age, the one that came first.
pub open spec fn records_of(rows: Seq<(u128, SettlementRecordInsert)>, hand_id: HandId) -> Seq<
    SettlementRecordInsert,
>
    decreases rows.len(),
{
    if rows.len() == 0 {
        Seq::empty()
    } else {
        let front = records_of(rows.drop_last(), hand_id);
        if rows.last().1.hand_id == hand_id {
            insert_by_age(front, rows.last().1)
        } else {
            front
        }
    }
}

/// Puts a record behind all those that are not younger.
fn push_by_age(records: &mut Vec<SettlementRecordInsert>, record: SettlementRecordInsert)
    ensures
        final(records)@ == insert_by_age(old(records)@, record),
{
    let ghost before = records@;
    let mut i: usize = records.len();
    assert(before.take(i as int) =~= before);
    assert(before.skip(i as int) =~= Seq::empty());
    assert(insert_by_age(before, record) =~= insert_by_age(before, record) + before.skip(i as int));
    while i > 0 && !records[i - 1].created_at.is_at_or_before(record.created_at)
        invariant
            i <= records.len(),
            records@ == before,
            insert_by_age(before, record) == insert_by_age(before.take(i as int), record)
                + before.skip(i as int),
        decreases i,
    {
        i = i - 1;
        assert(before.take(i + 1).drop_last() =~= before.take(i as int));
        assert(before.take(i + 1).last() == before[i as int]);
        assert(insert_by_age(before.take(i as int), record).push(before[i as int]) + before.skip(
            i + 1,
        ) =~= insert_by_age(before.take(i as int), record) + before.skip(i as int));
    }
    proof {
        if i > 0 {
            assert(before.take(i as int).last() == before[i - 1]);
        }
        assert(before.insert(i as int, record) =~= insert_by_age(before.take(i as int), record)
            + before.skip(i as int)) by {
            if i == 0 {
                assert(before.take(0).len() == 0);
            }
        }
    }
    records.insert(i, record);
}

impl InMemorySettlementPersistenceRepository {
    pub closed spec fn plans(self) -> Seq<(u128, SettlementPlanRecordInsert)> {
        self.settlement_plans.rows()
    }

    pub closed spec fn records(self) -> Seq<(u128, SettlementRecordInsert)> {
        self.settlement_records.rows()
    }

    pub closed spec fn inputs(self) -> Seq<(u128, SettlementShowdownInputRecord)> {
        self.showdown_inputs.rows()
    }

    pub fn new() -> (repo: InMemorySettlementPersistenceRepository)
        ensures
            repo.plans().len() == 0,
            repo.records().len() == 0,
            repo.inputs().len() == 0,
    {
        InMemorySettlementPersistenceRepository {
            settlement_plans: Table::new(),
            settlement_records: Table::new(),
            showdown_inputs: Table::new(),
        }
    }

    pub fn settlement_plans_len(&self) -> (count: usize)
        ensures
            count == self.plans().len(),
    {
        self.settlement_plans.len()
    }

    pub fn settlement_records_len(&self) -> (count: usize)
        ensures
            count == self.records().len(),
    {
        self.settlement_records.len()
    }

    /// A copy of all records, in the order in which they came.
    pub fn settlement_records_snapshot(&self) -> (copies: Vec<SettlementRecordInsert>)
        ensures
            copies@ == self.records().map_values(
                |row: (u128, SettlementRecordInsert)| row.1,
            ),
    {
        let mut copies: Vec<SettlementRecordInsert> = Vec::new();
        let mut i: usize = 0;
        while i < self.settlement_records.len()
            invariant
                i <= self.records().len(),
                copies@.len() == i,
                forall|k: int| 0 <= k < i ==> #[trigger] copies@[k] == self.records()[k].1,
            decreases self.records().len() - i,
        {
            copies.push(self.settlement_records.value_at(i).clone());
            i = i + 1;
        }
        assert(copies@ =~= self.records().map_values(
            |row: (u128, SettlementRecordInsert)| row.1,
        ));
        copies
    }
}

impl SettlementPersistenceRepository for InMemorySettlementPersistenceRepository {
    fn insert_settlement_plan(&mut self, record: SettlementPlanRecordInsert) -> (result: Result<
        (),
        LedgerStoreError,
    >)
        ensures
            result is Ok,
            final(self).plans() == upserted(
                old(self).plans(),
                record.settlement_plan_id,
                record,
            ),
            final(self).records() == old(self).records(),
            final(self).inputs() == old(self).inputs(),
    {
        self.settlement_plans.upsert(record.settlement_plan_id, record);
        Ok(())
    }

    fn insert_settlement_record(&mut self, record: SettlementRecordInsert) -> (result: Result<
        (),
        LedgerStoreError,
    >)
        ensures
            result is Ok,
            final(self).records() == upserted(
                old(self).records(),
                record.settlement_record_id,
                record,
            ),
            final(self).plans() == old(self).plans(),
            final(self).inputs() == old(self).inputs(),
    {
        self.settlement_records.upsert(record.settlement_record_id, record);
        Ok(())
    }

    /// Notes in every record of a transaction what became of it.
    fn update_settlement_record_status_by_tx_hash(
        &mut self,
        update: &SettlementRecordStatusUpdate,
    ) -> (result: Result<(), LedgerStoreError>)
        ensures
            result is Ok,
            final(self).records() == told_rows(old(self).records(), *update),
            final(self).plans() == old(self).plans(),
            final(self).inputs() == old(self).inputs(),
    {
        let ghost before = self.records();
        let mut i: usize = 0;
        while i < self.settlement_records.len()
            invariant
                i <= before.len(),
                self.records().len() == before.len(),
                self.plans() == old(self).plans(),
                self.inputs() == old(self).inputs(),
                before == old(self).records(),
                forall|k: int|
                    0 <= k < i ==> #[trigger] self.records()[k] == told_rows(before, *update)[k],
                forall|k: int| i <= k < before.len() ==> #[trigger] self.records()[k] == before[k],
            decreases before.len() - i,
        {
            let record = self.settlement_records.value_at(i);
            let same: bool = match &record.tx_hash {
                Some(hash) => same_text(hash.as_str(), update.tx_hash.as_str()),
                None => false,
            };
            if same {
                let mut told = record.clone();
                told.settlement_status = update.settlement_status.clone();
                told.retry_count = update.retry_count;
                told.error_detail = copy_optional_text(&update.error_detail);
                told.updated_at = update.updated_at;
                self.settlement_records.replace_value(i, told);
            }
            i = i + 1;
        }
        assert(self.records() =~= told_rows(before, *update));
        Ok(())
    }

    fn upsert_settlement_showdown_input(&mut self, record: SettlementShowdownInputRecord) -> (result:
        Result<(), LedgerStoreError>)
        ensures
            result is Ok,
            final(self).inputs() == upserted(old(self).inputs(), record.hand_id.0, record),
            final(self).plans() == old(self).plans(),
            final(self).records() == old(self).records(),
    {
        self.showdown_inputs.upsert(record.hand_id.0, record);
        Ok(())
    }
}

impl SettlementPersistenceReadRepository for InMemorySettlementPersistenceRepository {
    fn get_settlement_plan(&self, settlement_plan_id: u128) -> (plan: Result<
        Option<&SettlementPlanRecordInsert>,
        LedgerStoreError,
    >)
        ensures
            plan is Ok,
            match plan->Ok_0 {
                Some(plan) => lookup(self.plans(), settlement_plan_id) == Some(*plan),
                None => lookup(self.plans(), settlement_plan_id) is None,
            },
    {
        Ok(self.settlement_plans.get(&settlement_plan_id))
    }

    /// The records of a hand, the oldest first.
    fn list_settlement_records_by_hand(&self, hand_id: HandId) -> (records: Result<
        Vec<SettlementRecordInsert>,
        LedgerStoreError,
    >)
        ensures
            records is Ok,
            records->Ok_0@ == records_of(self.records(), hand_id),
    {
        let mut records: Vec<SettlementRecordInsert> = Vec::new();
        let mut i: usize = 0;
        assert(self.records().take(0).len() == 0);
        while i < self.settlement_records.len()
            invariant
                i <= self.records().len(),
                records@ == records_of(self.records().take(i as int), hand_id),
            decreases self.records().len() - i,
        {
            let record = self.settlement_records.value_at(i);
            assert(self.records().take(i + 1).drop_last() =~= self.records().take(i as int));
            if record.hand_id == hand_id {
                push_by_age(&mut records, record.clone());
            }
            i = i + 1;
        }
        assert(self.records().take(i as int) =~= self.records());
        Ok(records)
    }

    fn get_settlement_showdown_input(&self, hand_id: HandId) -> (input: Result<
        Option<&SettlementShowdownInputRecord>,
        LedgerStoreError,
    >)
        ensures
            input is Ok,
            match input->Ok_0 {
                Some(input) => lookup(self.inputs(), hand_id.0) == Some(*input),
                None => lookup(self.inputs(), hand_id.0) is None,
            },
    {
        Ok(self.showdown_inputs.get(&hand_id.0))
    }
}

/// Whether no record stands before an older one.
pub open spec fn by_age(records: Seq<SettlementRecordInsert>) -> bool {
    forall|i: int, j: int|
        #![trigger records[i], records[j]]
        0 <= i < j < records.len() ==> records[i].created_at.instant()
            <= records[j].created_at.instant()
}

proof fn lemma_insert_by_age(records: Seq<SettlementRecordInsert>, record: SettlementRecordInsert)
    requires
        by_age(records),
    ensures
        by_age(insert_by_age(records, record)),
        insert_by_age(records, record).to_multiset() == records.to_multiset().insert(record),
        forall|i: int|
            0 <= i < insert_by_age(records, record).len() ==> records.contains(
                #[trigger] insert_by_age(records, record)[i],
            ) || insert_by_age(records, record)[i] == record,
    decreases records.len(),
{
    broadcast use vstd::seq_lib::group_to_multiset_ensures;

    if records.len() == 0 {
        assert(seq![record] =~= records.push(record));
        assert(records.to_multiset() =~= vstd::multiset::Multiset::empty());
    } else if records.last().created_at.instant() <= record.created_at.instant() {
        let after = records.push(record);
        assert forall|i: int, j: int|
            #![trigger after[i], after[j]]
            0 <= i < j < after.len() implies after[i].created_at.instant()
            <= after[j].created_at.instant() by {
            if j == records.len() {
                assert(records[i].created_at.instant() <= records[records.len()
                    - 1].created_at.instant());
            } else {
                assert(records[i].created_at.instant() <= records[j].created_at.instant());
            }
        }
        assert forall|i: int| 0 <= i < after.len() implies records.contains(#[trigger] after[i])
            || after[i] == record by {
            if i < records.len() {
                assert(records[i] == after[i]);
            }
        }
    } else {
        let front = records.drop_last();
        let last = records.last();
        assert forall|i: int, j: int|
            #![trigger front[i], front[j]]
            0 <= i < j < front.len() implies front[i].created_at.instant()
            <= front[j].created_at.instant() by {
            assert(records[i].created_at.instant() <= records[j].created_at.instant());
        }
        lemma_insert_by_age(front, record);
        let inner = insert_by_age(front, record);
        let after = inner.push(last);
        assert forall|i: int, j: int|
            #![trigger after[i], after[j]]
            0 <= i < j < after.len() implies after[i].created_at.instant()
            <= after[j].created_at.instant() by {
            if j == inner.len() {
                assert(after[i] == inner[i]);
                if inner[i] != record {
                    let k = choose|k: int| 0 <= k < front.len() && front[k] == inner[i];
                    assert(records[k].created_at.instant() <= records[records.len()
                        - 1].created_at.instant());
                }
            } else {
                assert(inner[i].created_at.instant() <= inner[j].created_at.instant());
            }
        }
        assert forall|i: int| 0 <= i < after.len() implies records.contains(#[trigger] after[i])
            || after[i] == record by {
            if i < inner.len() {
                assert(after[i] == inner[i]);
                if inner[i] != record {
                    let k = choose|k: int| 0 <= k < front.len() && front[k] == inner[i];
                    assert(records[k] == after[i]);
                }
            } else {
                assert(records[records.len() - 1] == after[i]);
            }
        }
        assert(records =~= front.push(last));
        assert(after.to_multiset() =~= inner.to_multiset().insert(last));
        assert(records.to_multiset() =~= front.to_multiset().insert(last));
        assert(after.to_multiset() =~= records.to_multiset().insert(record));
    }
}

/// The records of a hand come in the order of their age, and each of them belongs to the
/// hand.
pub proof fn hand_records_come_by_age(rows: Seq<(u128, SettlementRecordInsert)>, hand_id: HandId)
    ensures
        by_age(records_of(rows, hand_id)),
        forall|i: int|
            0 <= i < records_of(rows, hand_id).len() ==> (#[trigger] records_of(
                rows,
                hand_id,
            )[i]).hand_id == hand_id,
    decreases rows.len(),
{
    if rows.len() > 0 {
        hand_records_come_by_age(rows.drop_last(), hand_id);
        let front = records_of(rows.drop_last(), hand_id);
        if rows.last().1.hand_id == hand_id {
            lemma_insert_by_age(front, rows.last().1);
            let all = insert_by_age(front, rows.last().1);
            assert forall|i: int| 0 <= i < all.len() implies (#[trigger] all[i]).hand_id
                == hand_id by {
                if all[i] != rows.last().1 {
                    let k = choose|k: int| 0 <= k < front.len() && front[k] == all[i];
                    assert(front[k].hand_id == hand_id);
                }
            }
        }
    }
}

/// Every record of a hand is listed, as often as it is kept.
pub proof fn no_record_of_a_hand_is_left_out(
    rows: Seq<(u128, SettlementRecordInsert)>,
    hand_id: HandId,
)
    ensures
        records_of(rows, hand_id).to_multiset() == rows.map_values(
            |row: (u128, SettlementRecordInsert)| row.1,
        ).filter(|record: SettlementRecordInsert| record.hand_id == hand_id).to_multiset(),
    decreases rows.len(),
{
    broadcast use vstd::seq_lib::group_to_multiset_ensures;

    let value = |row: (u128, SettlementRecordInsert)| row.1;
    let wanted = |record: SettlementRecordInsert| record.hand_id == hand_id;
    reveal(Seq::filter);
    if rows.len() == 0 {
        assert(rows.map_values(value) =~= Seq::empty());
        assert(rows.map_values(value).filter(wanted) =~= Seq::empty());
    } else {
        no_record_of_a_hand_is_left_out(rows.drop_last(), hand_id);
        hand_records_come_by_age(rows.drop_last(), hand_id);
        let front = records_of(rows.drop_last(), hand_id);
        let kept = rows.drop_last().map_values(value).filter(wanted);
        assert(rows.map_values(value).drop_last() =~= rows.drop_last().map_values(value));
        if rows.last().1.hand_id == hand_id {
            lemma_insert_by_age(front, rows.last().1);
            assert(rows.map_values(value).filter(wanted) == kept.push(rows.last().1));
            assert(kept.push(rows.last().1).to_multiset() =~= kept.to_multiset().insert(
                rows.last().1,
            ));
        }
    }
}

/// What is noted of one transaction changes no record of another, and neither the number of
/// the records nor what they are for.
pub proof fn notes_concern_their_transaction(
    rows: Seq<(u128, SettlementRecordInsert)>,
    update: SettlementRecordStatusUpdate,
    i: int,
)
    requires
        0 <= i < rows.len(),
    ensures
        told_rows(rows, update).len() == rows.len(),
        told_rows(rows, update)[i].0 == rows[i].0,
        told_rows(rows, update)[i].1.tx_hash == rows[i].1.tx_hash,
        told_rows(rows, update)[i].1.hand_id == rows[i].1.hand_id,
        !(rows[i].1.tx_hash is Some && rows[i].1.tx_hash->0@ == update.tx_hash@) ==> told_rows(
            rows,
            update,
        )[i] == rows[i],
{
}

} // verus!
