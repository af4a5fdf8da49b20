//! What follows when a payment was looked at.
use vstd::prelude::*;

use crate::audit::BehaviorEventRecord;
use crate::chain_watcher::{ChainWatcherError, TxVerificationCallback, VerificationStatus};
use crate::domain::events::{
    member, number_json, number_tree, object, optional_text_json, optional_text_tree, text_json,
};
use crate::domain::game::SeatId;
use crate::domain::ids::{
    fresh_id_text, is_fresh_text, is_time_ordered, HandId, RoomId, TraceId,
};
use crate::domain::money::Chips;
use crate::domain::time::Timestamp;
use crate::json::{Json, JsonView};
use crate::ledger::{ExceptionCreditUpsert, TxVerificationUpsert};
use crate::text::{copy_optional_text, owned};

verus! {

/// Something about a payment that somebody should know.
#[derive(Debug, PartialEq, Eq)]
pub struct ChainVerificationAlert {
    pub room_id: RoomId,
    pub tx_hash: String,
    pub status: String,
    pub reason: Option<String>,
}

/// What a room is told of a payment.
#[derive(Debug, PartialEq, Eq)]
pub struct ChainTxVerifiedCallback {
    pub tx_hash: String,
    pub status: String,
    pub confirmations: u64,
    pub hand_id: Option<HandId>,
    pub seat_id: Option<SeatId>,
    pub action_seq: Option<u32>,
    pub failure_reason: Option<String>,
}

/// One step of what follows when a payment was looked at.
#[derive(Debug, PartialEq, Eq)]
pub enum ChainCallbackAction {
    UpsertVerification(TxVerificationUpsert),
    InsertAudit(BehaviorEventRecord),
    EmitAlert(ChainVerificationAlert),
    UpsertCredit(ExceptionCreditUpsert),
    NotifyRoom(RoomId, ChainTxVerifiedCallback),
}

/// Takes alerts about payments.
pub trait ChainAlertSink {
    fn emit(&mut self, alert: ChainVerificationAlert) -> Result<(), String>;
}

/// Takes alerts and forgets them.
#[derive(Debug)]
pub struct NoopChainAlertSink;

impl ChainAlertSink for NoopChainAlertSink {
    fn emit(&mut self, alert: ChainVerificationAlert) -> (result: Result<(), String>)
        ensures
            result is Ok,
    {
        Ok(())
    }
}

impl VerificationStatus {
    /// Whether somebody should know.
    pub open spec fn is_alarming(self) -> bool {
        self == VerificationStatus::Late || self == VerificationStatus::Unmatched || self
            == VerificationStatus::Failed
    }

    /// Whether the payment is owed back.
    pub open spec fn is_owed_back(self) -> bool {
        self == VerificationStatus::Late || self == VerificationStatus::Unmatched
    }

    pub open spec fn spec_severity(self) -> Seq<char> {
        match self {
            VerificationStatus::Matched => "info"@,
            VerificationStatus::Pending => "warn"@,
            _ => "error"@,
        }
    }

    /// How bad it is.
    pub fn severity(self) -> (name: &'static str)
        ensures
            name@ == self.spec_severity(),
    {
        match self {
            VerificationStatus::Matched => "info",
            VerificationStatus::Pending => "warn",
            VerificationStatus::Late | VerificationStatus::Unmatched | VerificationStatus::Failed =>
            "error",
        }
    }
}

/// Whether a record keeps what was found out.
pub open spec fn keeps_verification(callback: TxVerificationCallback, record: TxVerificationUpsert) -> bool {
    &&& record.tx_hash == callback.tx_hash
    &&& record.room_id == callback.room_id
    &&& record.hand_id == callback.hand_id
    &&& record.seat_id == callback.seat_id
    &&& record.action_seq == callback.action_seq
    &&& record.status@ == callback.status.spec_name()
    &&& record.confirmations == callback.confirmations
    &&& record.failure_reason == callback.failure_reason
    &&& record.observed_from is None
    &&& record.observed_to is None
    &&& record.observed_amount is None
    &&& is_time_ordered(record.trace_id.0)
}

/// What the audit keeps of a payment that was looked at.
pub open spec fn callback_payload(callback: TxVerificationCallback) -> JsonView {
    JsonView::Object(
        seq![
            member("tx_hash"@, JsonView::Text(callback.tx_hash@)),
            member("status"@, JsonView::Text(callback.status.spec_name())),
            member("confirmations"@, number_tree(callback.confirmations)),
            member("failure_reason"@, optional_text_tree(callback.failure_reason)),
        ],
    )
}

/// Whether a record of the audit tells of a payment that was looked at.
pub open spec fn audits_callback(callback: TxVerificationCallback, record: BehaviorEventRecord) -> bool {
    &&& is_fresh_text(record.behavior_event_id@)
    &&& record.event_kind@ == "chain_tx_verification_callback"@
    &&& record.event_source@ == "chain_watcher"@
    &&& record.room_id == Some(callback.room_id)
    &&& record.hand_id == callback.hand_id
    &&& record.seat_id == callback.seat_id
    &&& record.action_seq == callback.action_seq
    &&& record.related_attempt_id is None
    &&& record.related_tx_hash == Some(callback.tx_hash)
    &&& record.severity@ == callback.status.spec_severity()
    &&& record.payload_json@ == callback_payload(callback)
    &&& is_time_ordered(record.trace_id.0)
}

/// Whether an alert tells of a payment.
pub open spec fn alerts_of(callback: TxVerificationCallback, alert: ChainVerificationAlert) -> bool {
    &&& alert.room_id == callback.room_id
    &&& alert.tx_hash == callback.tx_hash
    &&& alert.status@ == callback.status.spec_name()
    &&& alert.reason == callback.failure_reason
}

/// Whether a credit owes a payment back; how much it was is not known yet.
pub open spec fn owes_back(callback: TxVerificationCallback, credit: ExceptionCreditUpsert) -> bool {
    &&& credit.room_id == callback.room_id
    &&& credit.seat_id == callback.seat_id
    &&& credit.tx_hash == callback.tx_hash
    &&& credit.credit_type@ == callback.status.spec_name()
    &&& credit.amount == Chips(0)
    &&& credit.status@ == "open"@
    &&& credit.reason@ == (match callback.failure_reason {
        Some(reason) => reason@,
        None => "chain_callback"@,
    })
    &&& is_time_ordered(credit.trace_id.0)
}

/// Whether a room is told of a payment.
pub open spec fn tells_room(callback: TxVerificationCallback, told: ChainTxVerifiedCallback) -> bool {
    &&& told.tx_hash == callback.tx_hash
    &&& told.status@ == callback.status.spec_name()
    &&& told.confirmations == callback.confirmations
    &&& told.hand_id == callback.hand_id
    &&& told.seat_id == callback.seat_id
    &&& told.action_seq == callback.action_seq
    &&& told.failure_reason == callback.failure_reason
}

/// Whether these are the steps that follow: what was found out is kept; it goes into the audit
/// where there is one; a bad outcome raises an alert; a payment that came too late or is
/// another than expected is owed back; and the room is told last.
pub open spec fn follows_callback(
    callback: TxVerificationCallback,
    audited: bool,
    actions: Seq<ChainCallbackAction>,
) -> bool {
    let alert: int = if audited {
        2
    } else {
        1
    };
    let credit: int = alert + (if callback.status.is_alarming() {
        1int
    } else {
        0int
    });
    let last: int = credit + (if callback.status.is_owed_back() {
        1int
    } else {
        0int
    });
    &&& actions.len() == last + 1
    &&& actions[0] is UpsertVerification
    &&& keeps_verification(callback, actions[0]->UpsertVerification_0)
    &&& audited ==> actions[1] is InsertAudit && audits_callback(
        callback,
        actions[1]->InsertAudit_0,
    )
    &&& callback.status.is_alarming() ==> actions[alert] is EmitAlert && alerts_of(
        callback,
        actions[alert]->EmitAlert_0,
    )
    &&& callback.status.is_owed_back() ==> actions[credit] is UpsertCredit && owes_back(
        callback,
        actions[credit]->UpsertCredit_0,
    )
    &&& actions[last] is NotifyRoom
    &&& actions[last]->NotifyRoom_0 == callback.room_id
    &&& tells_room(callback, actions[last]->NotifyRoom_1)
}

/// The steps that follow when a payment was looked at, to be taken in this order. A step that
/// fails ends them, unless it is an alert.
pub fn on_verification_result(callback: TxVerificationCallback, audited: bool) -> (actions: Vec<
    ChainCallbackAction,
>)
    ensures
        follows_callback(callback, audited, actions@),
{
    let mut actions: Vec<ChainCallbackAction> = Vec::new();
    actions.push(
        ChainCallbackAction::UpsertVerification(
            TxVerificationUpsert {
                tx_hash: callback.tx_hash.clone(),
                room_id: callback.room_id,
                hand_id: callback.hand_id,
                seat_id: callback.seat_id,
                action_seq: callback.action_seq,
                status: owned(callback.status.name()),
                confirmations: callback.confirmations,
                failure_reason: copy_optional_text(&callback.failure_reason),
                observed_from: None,
                observed_to: None,
                observed_amount: None,
                verified_at: Timestamp::now(),
                trace_id: TraceId::new(),
            },
        ),
    );
    if audited {
        actions.push(ChainCallbackAction::InsertAudit(callback_audit(&callback)));
    }
    let status = callback.status;
    if status == VerificationStatus::Late || status == VerificationStatus::Unmatched || status
        == VerificationStatus::Failed {
        actions.push(
            ChainCallbackAction::EmitAlert(
                ChainVerificationAlert {
                    room_id: callback.room_id,
                    tx_hash: callback.tx_hash.clone(),
                    status: owned(status.name()),
                    reason: copy_optional_text(&callback.failure_reason),
                },
            ),
        );
    }
    if status == VerificationStatus::Late || status == VerificationStatus::Unmatched {
        actions.push(
            ChainCallbackAction::UpsertCredit(
                ExceptionCreditUpsert {
                    room_id: callback.room_id,
                    seat_id: callback.seat_id,
                    tx_hash: callback.tx_hash.clone(),
                    credit_type: owned(status.name()),
                    amount: Chips::zero(),
                    status: owned("open"),
                    reason: match &callback.failure_reason {
                        Some(reason) => reason.clone(),
                        None => owned("chain_callback"),
                    },
                    updated_at: Timestamp::now(),
                    trace_id: TraceId::new(),
                },
            ),
        );
    }
    actions.push(
        ChainCallbackAction::NotifyRoom(
            callback.room_id,
            ChainTxVerifiedCallback {
                tx_hash: callback.tx_hash,
                status: owned(status.name()),
                confirmations: callback.confirmations,
                hand_id: callback.hand_id,
                seat_id: callback.seat_id,
                action_seq: callback.action_seq,
                failure_reason: callback.failure_reason,
            },
        ),
    );
    actions
}

/// The record of the audit of a payment that was looked at.
fn callback_audit(callback: &TxVerificationCallback) -> (record: BehaviorEventRecord)
    ensures
        audits_callback(*callback, record),
{
    let mut members: Vec<(String, Json)> = Vec::new();
    members.push((owned("tx_hash"), text_json(callback.tx_hash.as_str())));
    members.push((owned("status"), text_json(callback.status.name())));
    members.push((owned("confirmations"), number_json(callback.confirmations)));
    members.push((owned("failure_reason"), optional_text_json(&callback.failure_reason)));
    let payload = object(members);
    assert(payload@->Object_0 =~= callback_payload(*callback)->Object_0);
    BehaviorEventRecord {
        behavior_event_id: fresh_id_text(),
        event_kind: owned("chain_tx_verification_callback"),
        event_source: owned("chain_watcher"),
        room_id: Some(callback.room_id),
        hand_id: callback.hand_id,
        seat_id: callback.seat_id,
        action_seq: callback.action_seq,
        related_attempt_id: None,
        related_tx_hash: Some(callback.tx_hash.clone()),
        severity: owned(callback.status.severity()),
        payload_json: payload,
        occurred_at: Timestamp::now(),
        trace_id: TraceId::new(),
    }
}

impl ChainCallbackAction {
    /// What becomes of the whole when this step fails: an alert that cannot be raised is passed
    /// over, anything else ends the steps with an error.
    pub fn failure(&self, detail: String) -> (error: Option<ChainWatcherError>)
        ensures
            error == (if self is EmitAlert {
                None::<ChainWatcherError>
            } else {
                Some(ChainWatcherError::CallbackSink(detail))
            }),
    {
        match self {
            ChainCallbackAction::EmitAlert(_) => None,
            _ => Some(ChainWatcherError::CallbackSink(detail)),
        }
    }
}

/// A payment that matches raises no alert and is never owed back, and one that is owed back
/// always raises an alert too.
pub proof fn only_bad_payments_are_owed_back(
    callback: TxVerificationCallback,
    audited: bool,
    actions: Seq<ChainCallbackAction>,
)
    requires
        follows_callback(callback, audited, actions),
    ensures
        callback.status == VerificationStatus::Matched ==> forall|i: int|
            0 <= i < actions.len() ==> !((#[trigger] actions[i]) is EmitAlert)
                && !(actions[i] is UpsertCredit),
        (exists|i: int| 0 <= i < actions.len() && (#[trigger] actions[i]) is UpsertCredit) ==> (
        exists|i: int| 0 <= i < actions.len() && (#[trigger] actions[i]) is EmitAlert),
{
    let alert: int = if audited {
        2
    } else {
        1
    };
    assert(actions[0] is UpsertVerification);
    if callback.status.is_alarming() {
        assert(actions[alert] is EmitAlert);
    } else {
        assert(actions.len() == alert + 1);
        assert forall|i: int| 0 <= i < actions.len() implies !((#[trigger] actions[i]) is EmitAlert)
            && !(actions[i] is UpsertCredit) by {
            if i == 1 && audited {
                assert(actions[1] is InsertAudit);
            }
        }
    }
}

/// A payment opens a credit exactly where it came late or is another than expected; then there
/// is one credit, for its transaction and its seat, of no amount yet, open, and with the reason
/// that was given.
pub proof fn late_and_unmatched_payments_open_a_credit(
    callback: TxVerificationCallback,
    audited: bool,
    actions: Seq<ChainCallbackAction>,
)
    requires
        follows_callback(callback, audited, actions),
    ensures
        (callback.status == VerificationStatus::Late || callback.status
            == VerificationStatus::Unmatched) <==> exists|i: int|
            0 <= i < actions.len() && (#[trigger] actions[i]) is UpsertCredit,
        forall|i: int|
            0 <= i < actions.len() && (#[trigger] actions[i]) is UpsertCredit ==> ({
                let credit = actions[i]->UpsertCredit_0;
                &&& credit.tx_hash == callback.tx_hash
                &&& credit.room_id == callback.room_id
                &&& credit.seat_id == callback.seat_id
                &&& credit.amount.0 == 0
                &&& credit.status@ == "open"@
                &&& callback.status == VerificationStatus::Late ==> credit.credit_type@ == "late"@
                &&& callback.status == VerificationStatus::Unmatched ==> credit.credit_type@
                    == "unmatched"@
                &&& callback.failure_reason matches Some(reason) ==> credit.reason@ == reason@
                &&& callback.failure_reason is None ==> credit.reason@ == "chain_callback"@
            }),
        forall|i: int, j: int|
            0 <= i < actions.len() && 0 <= j < actions.len() && (
            #[trigger] actions[i]) is UpsertCredit && (#[trigger] actions[j]) is UpsertCredit ==> i
                == j,
{
    lemma_steps_by_place(callback, audited, actions);
}

/// Somebody is alerted exactly where a payment came late, is another than expected or failed,
/// and once.
pub proof fn bad_payments_raise_an_alert(
    callback: TxVerificationCallback,
    audited: bool,
    actions: Seq<ChainCallbackAction>,
)
    requires
        follows_callback(callback, audited, actions),
    ensures
        (callback.status == VerificationStatus::Late || callback.status
            == VerificationStatus::Unmatched || callback.status == VerificationStatus::Failed)
            <==> exists|i: int| 0 <= i < actions.len() && (#[trigger] actions[i]) is EmitAlert,
        forall|i: int|
            0 <= i < actions.len() && (#[trigger] actions[i]) is EmitAlert ==> ({
                let alert = actions[i]->EmitAlert_0;
                &&& alert.room_id == callback.room_id
                &&& alert.tx_hash == callback.tx_hash
                &&& alert.reason == callback.failure_reason
                &&& callback.status == VerificationStatus::Late ==> alert.status@ == "late"@
                &&& callback.status == VerificationStatus::Unmatched ==> alert.status@
                    == "unmatched"@
                &&& callback.status == VerificationStatus::Failed ==> alert.status@ == "failed"@
            }),
        forall|i: int, j: int|
            0 <= i < actions.len() && 0 <= j < actions.len() && (
            #[trigger] actions[i]) is EmitAlert && (#[trigger] actions[j]) is EmitAlert ==> i == j,
{
    lemma_steps_by_place(callback, audited, actions);
}

/// What was found out of a payment is kept first, goes into the audit exactly where there is
/// one, and the room is told of it last.
pub proof fn payments_are_kept_and_the_room_is_told(
    callback: TxVerificationCallback,
    audited: bool,
    actions: Seq<ChainCallbackAction>,
)
    requires
        follows_callback(callback, audited, actions),
    ensures
        actions.len() >= 2,
        actions[0] is UpsertVerification,
        ({
            let record = actions[0]->UpsertVerification_0;
            &&& record.tx_hash == callback.tx_hash
            &&& record.room_id == callback.room_id
            &&& record.hand_id == callback.hand_id
            &&& record.seat_id == callback.seat_id
            &&& record.action_seq == callback.action_seq
            &&& record.confirmations == callback.confirmations
            &&& record.failure_reason == callback.failure_reason
            &&& record.status@ == status_word(callback.status)
        }),
        audited <==> exists|i: int| 0 <= i < actions.len() && (#[trigger] actions[i]) is InsertAudit,
        forall|i: int|
            0 <= i < actions.len() && (#[trigger] actions[i]) is InsertAudit ==> ({
                let record = actions[i]->InsertAudit_0;
                &&& record.event_kind@ == "chain_tx_verification_callback"@
                &&& record.event_source@ == "chain_watcher"@
                &&& record.room_id == Some(callback.room_id)
                &&& record.hand_id == callback.hand_id
                &&& record.seat_id == callback.seat_id
                &&& record.action_seq == callback.action_seq
                &&& record.related_tx_hash == Some(callback.tx_hash)
                &&& callback.status == VerificationStatus::Matched ==> record.severity@ == "info"@
                &&& callback.status == VerificationStatus::Pending ==> record.severity@ == "warn"@
                &&& callback.status != VerificationStatus::Matched && callback.status
                    != VerificationStatus::Pending ==> record.severity@ == "error"@
            }),
        actions.last() is NotifyRoom,
        ({
            let told = actions.last()->NotifyRoom_1;
            &&& actions.last()->NotifyRoom_0 == callback.room_id
            &&& told.tx_hash == callback.tx_hash
            &&& told.confirmations == callback.confirmations
            &&& told.hand_id == callback.hand_id
            &&& told.seat_id == callback.seat_id
            &&& told.action_seq == callback.action_seq
            &&& told.failure_reason == callback.failure_reason
            &&& told.status@ == status_word(callback.status)
        }),
        forall|i: int|
            0 < i < actions.len() - 1 ==> !((#[trigger] actions[i]) is UpsertVerification) && !(
            actions[i] is NotifyRoom),
{
    lemma_steps_by_place(callback, audited, actions);
}

/// The word for what became of a payment.
pub open spec fn status_word(status: VerificationStatus) -> Seq<char> {
    match status {
        VerificationStatus::Pending => "pending"@,
        VerificationStatus::Matched => "matched"@,
        VerificationStatus::Late => "late"@,
        VerificationStatus::Unmatched => "unmatched"@,
        VerificationStatus::Failed => "failed"@,
    }
}

proof fn lemma_steps_by_place(
    callback: TxVerificationCallback,
    audited: bool,
    actions: Seq<ChainCallbackAction>,
)
    requires
        follows_callback(callback, audited, actions),
    ensures
        ({
            let alert: int = if audited {
                2
            } else {
                1
            };
            let alarming = callback.status == VerificationStatus::Late || callback.status
                == VerificationStatus::Unmatched || callback.status == VerificationStatus::Failed;
            let owed = callback.status == VerificationStatus::Late || callback.status
                == VerificationStatus::Unmatched;
            &&& actions.len() >= 2
            &&& forall|i: int|
                0 <= i < actions.len() ==> ((#[trigger] actions[i]) is UpsertVerification <==> i == 0)
            &&& forall|i: int|
                0 <= i < actions.len() ==> ((#[trigger] actions[i]) is InsertAudit <==> audited && i
                    == 1)
            &&& forall|i: int|
                0 <= i < actions.len() ==> ((#[trigger] actions[i]) is EmitAlert <==> alarming && i
                    == alert)
            &&& forall|i: int|
                0 <= i < actions.len() ==> ((#[trigger] actions[i]) is UpsertCredit <==> owed && i
                    == alert + 1)
            &&& forall|i: int|
                0 <= i < actions.len() ==> ((#[trigger] actions[i]) is NotifyRoom <==> i
                    == actions.len() - 1)
            &&& audited ==> actions.len() > 1 && actions[1] is InsertAudit
            &&& alarming ==> actions.len() > alert && actions[alert] is EmitAlert
            &&& owed ==> actions.len() > alert + 1 && actions[alert + 1] is UpsertCredit
        }),
{
    let alert: int = if audited {
        2
    } else {
        1
    };
    assert(actions[0] is UpsertVerification);
    assert(actions[actions.len() - 1] is NotifyRoom);
    if audited {
        assert(actions[1] is InsertAudit);
    }
    if callback.status.is_alarming() {
        assert(actions[alert] is EmitAlert);
    }
    if callback.status.is_owed_back() {
        assert(actions[alert + 1] is UpsertCredit);
    }
}

} // verus!
