//! How a hand is paid out, step by step.
use vstd::prelude::*;
use vstd::string::StringExecFns;

use crate::audit::BehaviorEventRecord;
use crate::domain::events::{member, number_json, number_tree, object, text_json};
use crate::domain::game::{HandSnapshot, HandStatus, SeatId};
use crate::domain::ids::{
    fresh_id_text, fresh_uuid, is_fresh_text, is_time_ordered, HandId, RoomId, TraceId,
};
use crate::domain::money::{Chips, MoneyError};
use crate::domain::time::Timestamp;
use crate::json::{Json, JsonView};
use crate::ledger::{
    SettlementPlanRecordInsert, SettlementRecordInsert, SettlementRecordStatusUpdate,
};
use crate::text::owned;

verus! {

/// What a seat is paid.
#[derive(Debug, Clone, Copy, PartialEq, Eq, Structural)]
pub struct SettlementPayout {
    pub seat_id: SeatId,
    pub amount: Chips,
}

/// Who is paid what after a hand, and what the house keeps.
#[derive(Debug, PartialEq, Eq)]
pub struct SettlementPlan {
    pub rake_amount: Chips,
    pub payouts: Vec<SettlementPayout>,
}

/// The sum of the first `count` payouts.
pub open spec fn paid(payouts: Seq<SettlementPayout>, count: nat) -> int
    decreases count,
{
    if count == 0 {
        0
    } else {
        paid(payouts, (count - 1) as nat) + payouts[count - 1].amount.0
    }
}

proof fn lemma_paid_grows(payouts: Seq<SettlementPayout>, count: nat, all: nat)
    requires
        count <= all <= payouts.len(),
    ensures
        0 <= paid(payouts, count) <= paid(payouts, all),
    decreases all,
{
    if count < all {
        lemma_paid_grows(payouts, count, (all - 1) as nat);
    } else if count > 0 {
        lemma_paid_grows(payouts, (count - 1) as nat, (count - 1) as nat);
    }
}

impl SettlementPlan {
    /// What is paid in all, where it fits.
    pub open spec fn total(self) -> Result<Chips, MoneyError> {
        let sum = paid(self.payouts@, self.payouts@.len());
        if sum <= u128::MAX {
            Ok(Chips(sum as u128))
        } else {
            Err(MoneyError::Overflow)
        }
    }

    /// What is paid in all, where it fits.
    pub fn payout_total(&self) -> (total: Result<Chips, MoneyError>)
        ensures
            total == self.total(),
    {
        let mut sum = Chips::zero();
        let mut i: usize = 0;
        while i < self.payouts.len()
            invariant
                i <= self.payouts.len(),
                sum.0 == paid(self.payouts@, i as nat),
            decreases self.payouts.len() - i,
        {
            proof {
                lemma_paid_grows(self.payouts@, (i + 1) as nat, self.payouts@.len());
            }
            match sum.checked_add(self.payouts[i].amount) {
                Ok(more) => {
                    sum = more;
                },
                Err(error) => {
                    return Err(error);
                },
            }
            i = i + 1;
        }
        Ok(sum)
    }
}

/// A payment that was handed to the chain.
#[derive(Debug, PartialEq, Eq)]
pub struct SettlementTransferSubmission {
    pub seat_id: SeatId,
    pub tx_hash: String,
}

/// What became of a payment.
#[derive(Debug, Clone, Copy, PartialEq, Eq, Structural)]
pub enum SettlementTxStatus {
    Confirmed,
    Pending,
    Failed,
}

impl SettlementTxStatus {
    pub open spec fn spec_name(self) -> Seq<char> {
        match self {
            SettlementTxStatus::Confirmed => "confirmed"@,
            SettlementTxStatus::Pending => "pending"@,
            SettlementTxStatus::Failed => "failed"@,
        }
    }

    /// The name in records.
    pub fn name(self) -> (name: &'static str)
        ensures
            name@ == self.spec_name(),
    {
        match self {
            SettlementTxStatus::Confirmed => "confirmed",
            SettlementTxStatus::Pending => "pending",
            SettlementTxStatus::Failed => "failed",
        }
    }

    pub open spec fn spec_severity(self) -> Seq<char> {
        match self {
            SettlementTxStatus::Failed => "error"@,
            SettlementTxStatus::Pending => "warn"@,
            SettlementTxStatus::Confirmed => "info"@,
        }
    }

    /// How bad it is.
    pub fn severity(self) -> (name: &'static str)
        ensures
            name@ == self.spec_severity(),
    {
        match self {
            SettlementTxStatus::Failed => "error",
            SettlementTxStatus::Pending => "warn",
            SettlementTxStatus::Confirmed => "info",
        }
    }
}

/// What the chain says of a payment.
#[derive(Debug, PartialEq, Eq)]
pub struct SettlementTransferReceipt {
    pub tx_hash: String,
    pub status: SettlementTxStatus,
    pub confirmations: u64,
}

/// Something about a payout that somebody should know.
#[derive(Debug, PartialEq, Eq)]
pub struct SettlementAlert {
    pub room_id: RoomId,
    pub hand_id: HandId,
    pub tx_hash: String,
    pub kind: &'static str,
    pub message: String,
}

/// Closes a hand that was paid out.
pub trait SettlementLifecyclePort {
    fn complete_settlement(&mut self, hand_id: HandId) -> Result<(), String>;
}

/// Takes alerts about payouts.
pub trait SettlementAlertSink {
    fn emit(&mut self, alert: SettlementAlert) -> Result<(), String>;
}

/// Takes records of payouts for the audit.
pub trait SettlementAuditSink {
    fn emit(&mut self, event: BehaviorEventRecord) -> Result<(), String>;
}

/// One step of paying out.
#[derive(Debug, PartialEq, Eq)]
pub enum SettlementAction {
    /// Keep the plan.
    InsertPlan(SettlementPlanRecordInsert),
    /// Enter the plan into the ledger.
    RecordPlan,
    /// Hand the payments to the chain, which gives the submissions.
    SubmitPayouts,
    /// Keep a step.
    InsertRecord(SettlementRecordInsert),
    /// Ask the chain for the receipts.
    CheckReceipts { min_confirmations: u64 },
    /// Note what became of a payment.
    UpdateStatus(SettlementRecordStatusUpdate),
    /// Enter something into the audit.
    EmitAudit(BehaviorEventRecord),
    /// Let somebody know.
    EmitAlert(SettlementAlert),
    /// Close the hand.
    CompleteSettlement(HandId),
}

impl SettlementAction {
    /// What becomes of the whole when this step fails: the audit and alerts are passed over,
    /// anything else ends the steps with an error.
    pub fn failure(&self, detail: String) -> (error: Option<String>)
        ensures
            match *self {
                SettlementAction::EmitAudit(_) => error is None,
                SettlementAction::EmitAlert(_) => error is None,
                SettlementAction::CompleteSettlement(_) => error is Some && error->0@
                    == "complete settlement failed: "@ + detail@,
                _ => error == Some(detail),
            },
    {
        match self {
            SettlementAction::EmitAudit(_) => None,
            SettlementAction::EmitAlert(_) => None,
            SettlementAction::CompleteSettlement(_) => Some(
                owned("complete settlement failed: ").concat(detail.as_str()),
            ),
            _ => Some(detail),
        }
    }
}

/// The hand that is paid out.
#[derive(Debug, Clone, Copy, PartialEq, Eq, Structural)]
pub struct SettledHand {
    pub room_id: RoomId,
    pub hand_id: HandId,
    pub settlement_plan_id: u128,
    pub trace_id: TraceId,
}

/// Whether a record keeps a new plan.
pub open spec fn keeps_plan(
    hand: SettledHand,
    plan: SettlementPlan,
    payload: JsonView,
    record: SettlementPlanRecordInsert,
) -> bool {
    &&& record.settlement_plan_id == hand.settlement_plan_id
    &&& record.room_id == hand.room_id
    &&& record.hand_id == hand.hand_id
    &&& record.status@ == "created"@
    &&& record.rake_amount == plan.rake_amount
    &&& plan.total() == Ok::<Chips, MoneyError>(record.payout_total)
    &&& record.payload_json@ == payload
    &&& record.finalized_at is None
}

/// Whether a record keeps a step of paying out that nothing has gone wrong with.
pub open spec fn keeps_step(
    hand: SettledHand,
    tx_hash: Option<Seq<char>>,
    status: Seq<char>,
    record: SettlementRecordInsert,
) -> bool {
    &&& is_time_ordered(record.settlement_record_id)
    &&& record.settlement_plan_id == hand.settlement_plan_id
    &&& record.room_id == hand.room_id
    &&& record.hand_id == hand.hand_id
    &&& match tx_hash {
        Some(hash) => record.tx_hash is Some && record.tx_hash->0@ == hash,
        None => record.tx_hash is None,
    }
    &&& record.settlement_status@ == status
    &&& record.retry_count == 0
    &&& record.error_detail is None
}

fn plan_record(hand: &SettledHand, plan: &SettlementPlan, payload: Json) -> (record: Result<
    SettlementPlanRecordInsert,
    String,
>)
    ensures
        match plan.total() {
            Ok(_) => record is Ok && keeps_plan(*hand, *plan, payload@, record->Ok_0),
            Err(_) => record is Err && record->Err_0@
                == "settlement payout_total failed: amount overflow"@,
        },
{
    match plan.payout_total() {
        Ok(total) => Ok(
            SettlementPlanRecordInsert {
                settlement_plan_id: hand.settlement_plan_id,
                room_id: hand.room_id,
                hand_id: hand.hand_id,
                status: owned("created"),
                rake_amount: plan.rake_amount,
                payout_total: total,
                payload_json: payload,
                created_at: Timestamp::now(),
                finalized_at: None,
            },
        ),
        Err(_) => Err(owned("settlement payout_total failed: amount overflow")),
    }
}

fn step_record(hand: &SettledHand, tx_hash: Option<String>, status: &str) -> (record:
    SettlementRecordInsert)
    ensures
        keeps_step(
            *hand,
            match tx_hash {
                Some(hash) => Some(hash@),
                None => None,
            },
            status@,
            record,
        ),
{
    SettlementRecordInsert {
        settlement_record_id: fresh_uuid(),
        settlement_plan_id: hand.settlement_plan_id,
        room_id: hand.room_id,
        hand_id: hand.hand_id,
        tx_hash: tx_hash,
        settlement_status: owned(status),
        retry_count: 0,
        error_detail: None,
        created_at: Timestamp::now(),
        updated_at: Timestamp::now(),
    }
}

/// The steps of a hand that is settled in the ledger alone: enter the plan, close the hand.
pub fn run_showdown_settlement(hand: &SettledHand) -> (actions: Vec<SettlementAction>)
    ensures
        actions@ == seq![
            SettlementAction::RecordPlan,
            SettlementAction::CompleteSettlement(hand.hand_id),
        ],
{
    let mut actions: Vec<SettlementAction> = Vec::new();
    actions.push(SettlementAction::RecordPlan);
    actions.push(SettlementAction::CompleteSettlement(hand.hand_id));
    actions
}

/// The steps of a hand that is settled in the ledger and in the records: keep the plan, enter
/// it, keep that it was entered, close the hand. A plan that pays more than an amount can be
/// is an error.
pub fn run_showdown_settlement_with_persistence(
    hand: &SettledHand,
    plan: &SettlementPlan,
    payload: Json,
) -> (actions: Result<Vec<SettlementAction>, String>)
    ensures
        match plan.total() {
            Err(_) => actions is Err && actions->Err_0@
                == "settlement payout_total failed: amount overflow"@,
            Ok(_) => {
                &&& actions is Ok
                &&& actions->Ok_0@.len() == 4
                &&& actions->Ok_0@[0] is InsertPlan
                &&& keeps_plan(*hand, *plan, payload@, actions->Ok_0@[0]->InsertPlan_0)
                &&& actions->Ok_0@[1] is RecordPlan
                &&& actions->Ok_0@[2] is InsertRecord
                &&& keeps_step(
                    *hand,
                    None,
                    "planned_offchain_recorded"@,
                    actions->Ok_0@[2]->InsertRecord_0,
                )
                &&& actions->Ok_0@[3] == SettlementAction::CompleteSettlement(hand.hand_id)
            },
        },
{
    let record = match plan_record(hand, plan, payload) {
        Ok(record) => record,
        Err(error) => {
            return Err(error);
        },
    };
    let mut actions: Vec<SettlementAction> = Vec::new();
    actions.push(SettlementAction::InsertPlan(record));
    actions.push(SettlementAction::RecordPlan);
    actions.push(
        SettlementAction::InsertRecord(step_record(hand, None, "planned_offchain_recorded")),
    );
    actions.push(SettlementAction::CompleteSettlement(hand.hand_id));
    Ok(actions)
}

/// The first steps of a hand that is paid out on the chain: keep the plan, enter it, hand the
/// payments to the chain. A plan that pays more than an amount can be is an error.
pub open spec fn follows_plan(
    hand: SettledHand,
    plan: SettlementPlan,
    payload: JsonView,
    actions: Result<Vec<SettlementAction>, String>,
) -> bool {
    match plan.total() {
        Err(_) => actions is Err && actions->Err_0@
            == "settlement payout_total failed: amount overflow"@,
        Ok(_) => {
            &&& actions is Ok
            &&& actions->Ok_0@.len() == 3
            &&& actions->Ok_0@[0] is InsertPlan
            &&& keeps_plan(hand, plan, payload, actions->Ok_0@[0]->InsertPlan_0)
            &&& actions->Ok_0@[1] is RecordPlan
            &&& actions->Ok_0@[2] is SubmitPayouts
        },
    }
}

/// The first steps of a hand that is paid out on the chain: keep the plan, enter it, hand the
/// payments to the chain. A plan that pays more than an amount can be is an error.
pub fn run_showdown_settlement_with_direct_payouts(
    hand: &SettledHand,
    plan: &SettlementPlan,
    payload: Json,
) -> (actions: Result<Vec<SettlementAction>, String>)
    ensures
        follows_plan(*hand, *plan, payload@, actions),
{
    let record = match plan_record(hand, plan, payload) {
        Ok(record) => record,
        Err(error) => {
            return Err(error);
        },
    };
    let mut actions: Vec<SettlementAction> = Vec::new();
    actions.push(SettlementAction::InsertPlan(record));
    actions.push(SettlementAction::RecordPlan);
    actions.push(SettlementAction::SubmitPayouts);
    Ok(actions)
}

/// What the audit keeps of a payment that was handed to the chain.
pub open spec fn submission_payload(submission: SettlementTransferSubmission) -> JsonView {
    JsonView::Object(
        seq![
            member("seat_id"@, number_tree(submission.seat_id as u64)),
            member("tx_hash"@, JsonView::Text(submission.tx_hash@)),
        ],
    )
}

/// What the audit keeps of a receipt.
pub open spec fn receipt_payload(receipt: SettlementTransferReceipt) -> JsonView {
    JsonView::Object(
        seq![
            member("tx_hash"@, JsonView::Text(receipt.tx_hash@)),
            member("status"@, JsonView::Text(receipt.status.spec_name())),
            member("confirmations"@, number_tree(receipt.confirmations)),
        ],
    )
}

/// What the audit keeps of a payment that somebody has to look at.
pub open spec fn review_payload(receipt: SettlementTransferReceipt) -> JsonView {
    JsonView::Object(
        seq![
            member("tx_hash"@, JsonView::Text(receipt.tx_hash@)),
            member("reason"@, JsonView::Text("direct payout receipt failed"@)),
        ],
    )
}

/// Whether a record of the audit tells of a step of paying out.
pub open spec fn audits_step(
    hand: SettledHand,
    kind: Seq<char>,
    seat_id: Option<SeatId>,
    tx_hash: Seq<char>,
    severity: Seq<char>,
    payload: JsonView,
    record: BehaviorEventRecord,
) -> bool {
    &&& is_fresh_text(record.behavior_event_id@)
    &&& record.event_kind@ == kind
    &&& record.event_source@ == "settlement_orchestrator"@
    &&& record.room_id == Some(hand.room_id)
    &&& record.hand_id == Some(hand.hand_id)
    &&& record.seat_id == seat_id
    &&& record.action_seq is None
    &&& record.related_attempt_id is None
    &&& record.related_tx_hash is Some
    &&& record.related_tx_hash->0@ == tx_hash
    &&& record.severity@ == severity
    &&& record.payload_json@ == payload
    &&& record.trace_id == hand.trace_id
}

fn step_audit(
    hand: &SettledHand,
    kind: &str,
    seat_id: Option<SeatId>,
    tx_hash: &String,
    severity: &str,
    payload: Json,
) -> (record: BehaviorEventRecord)
    ensures
        audits_step(*hand, kind@, seat_id, tx_hash@, severity@, payload@, record),
{
    BehaviorEventRecord {
        behavior_event_id: fresh_id_text(),
        event_kind: owned(kind),
        event_source: owned("settlement_orchestrator"),
        room_id: Some(hand.room_id),
        hand_id: Some(hand.hand_id),
        seat_id: seat_id,
        action_seq: None,
        related_attempt_id: None,
        related_tx_hash: Some(tx_hash.clone()),
        severity: owned(severity),
        payload_json: payload,
        occurred_at: Timestamp::now(),
        trace_id: hand.trace_id,
    }
}

/// Whether a step keeps a payment that was handed to the chain.
pub open spec fn keeps_submission(
    hand: SettledHand,
    submission: SettlementTransferSubmission,
    action: SettlementAction,
) -> bool {
    action is InsertRecord && keeps_step(
        hand,
        Some(submission.tx_hash@),
        "submitted"@,
        action->InsertRecord_0,
    )
}

/// Whether a step enters a payment that was handed to the chain into the audit.
pub open spec fn audits_submission(
    hand: SettledHand,
    submission: SettlementTransferSubmission,
    action: SettlementAction,
) -> bool {
    action is EmitAudit && audits_step(
        hand,
        "settlement_payout_submitted"@,
        Some(submission.seat_id),
        submission.tx_hash@,
        "info"@,
        submission_payload(submission),
        action->EmitAudit_0,
    )
}

/// Whether `after` begins with all steps of `before` and has `count` more.
pub open spec fn extends(before: Seq<SettlementAction>, after: Seq<SettlementAction>, count: int) -> bool {
    &&& after.len() == before.len() + count
    &&& forall|i: int| 0 <= i < before.len() ==> #[trigger] after[i] == before[i]
}

/// Adds the steps that keep the payments that were handed to the chain.
fn persist_submission_records(
    actions: &mut Vec<SettlementAction>,
    hand: &SettledHand,
    submissions: &Vec<SettlementTransferSubmission>,
)
    ensures
        extends(old(actions)@, final(actions)@, submissions@.len() as int),
        forall|i: int|
            0 <= i < submissions@.len() ==> keeps_submission(
                *hand,
                #[trigger] submissions@[i],
                final(actions)@[old(actions)@.len() + i],
            ),
{
    let ghost before = actions@;
    let mut i: usize = 0;
    while i < submissions.len()
        invariant
            i <= submissions.len(),
            extends(before, actions@, i as int),
            forall|k: int|
                0 <= k < i ==> keeps_submission(
                    *hand,
                    #[trigger] submissions@[k],
                    actions@[before.len() + k],
                ),
        decreases submissions.len() - i,
    {
        actions.push(
            SettlementAction::InsertRecord(
                step_record(hand, Some(submissions[i].tx_hash.clone()), "submitted"),
            ),
        );
        i = i + 1;
    }
}

/// Adds the steps that enter the payments that were handed to the chain into the audit.
fn emit_settlement_submission_audits(
    actions: &mut Vec<SettlementAction>,
    hand: &SettledHand,
    submissions: &Vec<SettlementTransferSubmission>,
)
    ensures
        extends(old(actions)@, final(actions)@, submissions@.len() as int),
        forall|i: int|
            0 <= i < submissions@.len() ==> audits_submission(
                *hand,
                #[trigger] submissions@[i],
                final(actions)@[old(actions)@.len() + i],
            ),
{
    let ghost before = actions@;
    let mut i: usize = 0;
    while i < submissions.len()
        invariant
            i <= submissions.len(),
            extends(before, actions@, i as int),
            forall|k: int|
                0 <= k < i ==> audits_submission(
                    *hand,
                    #[trigger] submissions@[k],
                    actions@[before.len() + k],
                ),
        decreases submissions.len() - i,
    {
        let submission = &submissions[i];
        let mut members: Vec<(String, Json)> = Vec::new();
        members.push((owned("seat_id"), number_json(submission.seat_id as u64)));
        members.push((owned("tx_hash"), text_json(submission.tx_hash.as_str())));
        let payload = object(members);
        assert(payload@->Object_0 =~= submission_payload(*submission)->Object_0);
        actions.push(
            SettlementAction::EmitAudit(
                step_audit(
                    hand,
                    "settlement_payout_submitted",
                    Some(submission.seat_id),
                    &submission.tx_hash,
                    "info",
                    payload,
                ),
            ),
        );
        i = i + 1;
    }
}

/// Whether these are the steps that follow when the payments were handed to the chain: keep
/// each, enter each into the audit, then ask for the receipts.
pub open spec fn follows_submissions(
    hand: SettledHand,
    submissions: Seq<SettlementTransferSubmission>,
    min_confirmations: u64,
    actions: Seq<SettlementAction>,
) -> bool {
    let n = submissions.len() as int;
    &&& actions.len() == 2 * n + 1
    &&& forall|i: int|
        0 <= i < n ==> keeps_submission(hand, #[trigger] submissions[i], actions[i])
    &&& forall|i: int|
        0 <= i < n ==> audits_submission(hand, #[trigger] submissions[i], actions[n + i])
    &&& actions[2 * n] == SettlementAction::CheckReceipts { min_confirmations: min_confirmations }
}

/// The steps that follow when the payments were handed to the chain.
pub fn after_payouts_submitted(
    hand: &SettledHand,
    submissions: &Vec<SettlementTransferSubmission>,
    min_confirmations: u64,
) -> (actions: Vec<SettlementAction>)
    ensures
        follows_submissions(*hand, submissions@, min_confirmations, actions@),
{
    let mut actions: Vec<SettlementAction> = Vec::new();
    persist_submission_records(&mut actions, hand, submissions);
    let ghost kept = actions@;
    emit_settlement_submission_audits(&mut actions, hand, submissions);
    let ghost audited = actions@;
    actions.push(SettlementAction::CheckReceipts { min_confirmations: min_confirmations });
    proof {
        let n = submissions@.len() as int;
        assert forall|i: int| 0 <= i < n implies keeps_submission(
            *hand,
            #[trigger] submissions@[i],
            actions@[i],
        ) by {
            assert(kept[i] == kept[0 + i]);
            assert(audited[i] == kept[i]);
        }
    }
    actions
}

/// The payments that failed.
pub open spec fn failed_receipts(receipts: Seq<SettlementTransferReceipt>) -> Seq<
    SettlementTransferReceipt,
> {
    receipts.filter(|receipt: SettlementTransferReceipt| receipt.status is Failed)
}

/// Whether a step notes what became of a payment.
pub open spec fn notes_receipt(receipt: SettlementTransferReceipt, action: SettlementAction) -> bool {
    &&& action is UpdateStatus
    &&& action->UpdateStatus_0.tx_hash@ == receipt.tx_hash@
    &&& action->UpdateStatus_0.settlement_status@ == receipt.status.spec_name()
    &&& action->UpdateStatus_0.retry_count == (if receipt.status is Failed {
        1int
    } else {
        0int
    })
    &&& if receipt.status is Failed {
        action->UpdateStatus_0.error_detail is Some && action->UpdateStatus_0.error_detail->0@
            == "wallet receipt returned failed status"@
    } else {
        action->UpdateStatus_0.error_detail is None
    }
}

/// Whether a step enters a receipt into the audit.
pub open spec fn audits_receipt(
    hand: SettledHand,
    receipt: SettlementTransferReceipt,
    action: SettlementAction,
) -> bool {
    action is EmitAudit && audits_step(
        hand,
        "settlement_payout_receipt"@,
        None,
        receipt.tx_hash@,
        receipt.status.spec_severity(),
        receipt_payload(receipt),
        action->EmitAudit_0,
    )
}

/// Whether a step notes that somebody has to look at a payment.
pub open spec fn marks_for_review(receipt: SettlementTransferReceipt, action: SettlementAction) -> bool {
    &&& action is UpdateStatus
    &&& action->UpdateStatus_0.tx_hash@ == receipt.tx_hash@
    &&& action->UpdateStatus_0.settlement_status@ == "manual_review_required"@
    &&& action->UpdateStatus_0.retry_count == 1
    &&& action->UpdateStatus_0.error_detail is Some
    &&& action->UpdateStatus_0.error_detail->0@
        == "manual review required after failed direct payout receipt"@
}

/// Whether a step enters a payment that somebody has to look at into the audit.
pub open spec fn audits_review(
    hand: SettledHand,
    receipt: SettlementTransferReceipt,
    action: SettlementAction,
) -> bool {
    action is EmitAudit && audits_step(
        hand,
        "settlement_manual_review_required"@,
        None,
        receipt.tx_hash@,
        "error"@,
        review_payload(receipt),
        action->EmitAudit_0,
    )
}

/// Whether a step lets somebody know of a payment that failed.
pub open spec fn alerts_failure(
    hand: SettledHand,
    receipt: SettlementTransferReceipt,
    action: SettlementAction,
) -> bool {
    &&& action is EmitAlert
    &&& action->EmitAlert_0.room_id == hand.room_id
    &&& action->EmitAlert_0.hand_id == hand.hand_id
    &&& action->EmitAlert_0.tx_hash@ == receipt.tx_hash@
    &&& action->EmitAlert_0.kind@ == "settlement_manual_review_required"@
    &&& action->EmitAlert_0.message@ == "direct payout receipt failed; manual review required"@
}

/// Adds the steps that note what became of the payments.
fn persist_receipt_status_updates(
    actions: &mut Vec<SettlementAction>,
    receipts: &Vec<SettlementTransferReceipt>,
)
    ensures
        extends(old(actions)@, final(actions)@, receipts@.len() as int),
        forall|i: int|
            0 <= i < receipts@.len() ==> notes_receipt(
                #[trigger] receipts@[i],
                final(actions)@[old(actions)@.len() + i],
            ),
{
    let ghost before = actions@;
    let mut i: usize = 0;
    while i < receipts.len()
        invariant
            i <= receipts.len(),
            extends(before, actions@, i as int),
            forall|k: int|
                0 <= k < i ==> notes_receipt(
                    #[trigger] receipts@[k],
                    actions@[before.len() + k],
                ),
        decreases receipts.len() - i,
    {
        let receipt = &receipts[i];
        let failed: bool = receipt.status == SettlementTxStatus::Failed;
        actions.push(
            SettlementAction::UpdateStatus(
                SettlementRecordStatusUpdate {
                    tx_hash: receipt.tx_hash.clone(),
                    settlement_status: owned(receipt.status.name()),
                    retry_count: if failed {
                        1
                    } else {
                        0
                    },
                    error_detail: if failed {
                        Some(owned("wallet receipt returned failed status"))
                    } else {
                        None
                    },
                    updated_at: Timestamp::now(),
                },
            ),
        );
        i = i + 1;
    }
}

/// Adds the steps that enter the receipts into the audit.
fn emit_settlement_receipt_audits(
    actions: &mut Vec<SettlementAction>,
    hand: &SettledHand,
    receipts: &Vec<SettlementTransferReceipt>,
)
    ensures
        extends(old(actions)@, final(actions)@, receipts@.len() as int),
        forall|i: int|
            0 <= i < receipts@.len() ==> audits_receipt(
                *hand,
                #[trigger] receipts@[i],
                final(actions)@[old(actions)@.len() + i],
            ),
{
    let ghost before = actions@;
    let mut i: usize = 0;
    while i < receipts.len()
        invariant
            i <= receipts.len(),
            extends(before, actions@, i as int),
            forall|k: int|
                0 <= k < i ==> audits_receipt(
                    *hand,
                    #[trigger] receipts@[k],
                    actions@[before.len() + k],
                ),
        decreases receipts.len() - i,
    {
        let receipt = &receipts[i];
        let mut members: Vec<(String, Json)> = Vec::new();
        members.push((owned("tx_hash"), text_json(receipt.tx_hash.as_str())));
        members.push((owned("status"), text_json(receipt.status.name())));
        members.push((owned("confirmations"), number_json(receipt.confirmations)));
        let payload = object(members);
        assert(payload@->Object_0 =~= receipt_payload(*receipt)->Object_0);
        actions.push(
            SettlementAction::EmitAudit(
                step_audit(
                    hand,
                    "settlement_payout_receipt",
                    None,
                    &receipt.tx_hash,
                    receipt.status.severity(),
                    payload,
                ),
            ),
        );
        i = i + 1;
    }
}

/// Adds the steps that note which payments somebody has to look at.
fn mark_failed_receipts_for_manual_review(
    actions: &mut Vec<SettlementAction>,
    receipts: &Vec<SettlementTransferReceipt>,
)
    ensures
        extends(old(actions)@, final(actions)@, failed_receipts(receipts@).len() as int),
        forall|i: int|
            0 <= i < failed_receipts(receipts@).len() ==> marks_for_review(
                #[trigger] failed_receipts(receipts@)[i],
                final(actions)@[old(actions)@.len() + i],
            ),
{
    let ghost before = actions@;
    let mut i: usize = 0;
    proof {
        reveal(Seq::filter);
        assert(failed_receipts(receipts@.take(0)).len() == 0);
    }
    while i < receipts.len()
        invariant
            i <= receipts.len(),
            extends(before, actions@, failed_receipts(receipts@.take(i as int)).len() as int),
            forall|k: int|
                0 <= k < failed_receipts(receipts@.take(i as int)).len() ==> marks_for_review(
                    #[trigger] failed_receipts(receipts@.take(i as int))[k],
                    actions@[before.len() + k],
                ),
        decreases receipts.len() - i,
    {
        let receipt = &receipts[i];
        proof {
            reveal(Seq::filter);
            assert(receipts@.take(i + 1).drop_last() =~= receipts@.take(i as int));
        }
        if receipt.status == SettlementTxStatus::Failed {
            actions.push(
                SettlementAction::UpdateStatus(
                    SettlementRecordStatusUpdate {
                        tx_hash: receipt.tx_hash.clone(),
                        settlement_status: owned("manual_review_required"),
                        retry_count: 1,
                        error_detail: Some(
                            owned("manual review required after failed direct payout receipt"),
                        ),
                        updated_at: Timestamp::now(),
                    },
                ),
            );
        }
        i = i + 1;
    }
    assert(receipts@.take(i as int) =~= receipts@);
}

/// Adds the steps that enter the payments that somebody has to look at into the audit.
fn emit_manual_review_audits(
    actions: &mut Vec<SettlementAction>,
    hand: &SettledHand,
    receipts: &Vec<SettlementTransferReceipt>,
)
    ensures
        extends(old(actions)@, final(actions)@, failed_receipts(receipts@).len() as int),
        forall|i: int|
            0 <= i < failed_receipts(receipts@).len() ==> audits_review(
                *hand,
                #[trigger] failed_receipts(receipts@)[i],
                final(actions)@[old(actions)@.len() + i],
            ),
{
    let ghost before = actions@;
    let mut i: usize = 0;
    proof {
        reveal(Seq::filter);
        assert(failed_receipts(receipts@.take(0)).len() == 0);
    }
    while i < receipts.len()
        invariant
            i <= receipts.len(),
            extends(before, actions@, failed_receipts(receipts@.take(i as int)).len() as int),
            forall|k: int|
                0 <= k < failed_receipts(receipts@.take(i as int)).len() ==> audits_review(
                    *hand,
                    #[trigger] failed_receipts(receipts@.take(i as int))[k],
                    actions@[before.len() + k],
                ),
        decreases receipts.len() - i,
    {
        let receipt = &receipts[i];
        proof {
            reveal(Seq::filter);
            assert(receipts@.take(i + 1).drop_last() =~= receipts@.take(i as int));
        }
        if receipt.status == SettlementTxStatus::Failed {
            let mut members: Vec<(String, Json)> = Vec::new();
            members.push((owned("tx_hash"), text_json(receipt.tx_hash.as_str())));
            members.push((owned("reason"), text_json("direct payout receipt failed")));
            let payload = object(members);
            assert(payload@->Object_0 =~= review_payload(*receipt)->Object_0);
            actions.push(
                SettlementAction::EmitAudit(
                    step_audit(
                        hand,
                        "settlement_manual_review_required",
                        None,
                        &receipt.tx_hash,
                        "error",
                        payload,
                    ),
                ),
            );
        }
        i = i + 1;
    }
    assert(receipts@.take(i as int) =~= receipts@);
}

/// Adds the steps that let somebody know of the payments that failed.
fn emit_failed_payout_alerts(
    actions: &mut Vec<SettlementAction>,
    hand: &SettledHand,
    receipts: &Vec<SettlementTransferReceipt>,
)
    ensures
        extends(old(actions)@, final(actions)@, failed_receipts(receipts@).len() as int),
        forall|i: int|
            0 <= i < failed_receipts(receipts@).len() ==> alerts_failure(
                *hand,
                #[trigger] failed_receipts(receipts@)[i],
                final(actions)@[old(actions)@.len() + i],
            ),
{
    let ghost before = actions@;
    let mut i: usize = 0;
    proof {
        reveal(Seq::filter);
        assert(failed_receipts(receipts@.take(0)).len() == 0);
    }
    while i < receipts.len()
        invariant
            i <= receipts.len(),
            extends(before, actions@, failed_receipts(receipts@.take(i as int)).len() as int),
            forall|k: int|
                0 <= k < failed_receipts(receipts@.take(i as int)).len() ==> alerts_failure(
                    *hand,
                    #[trigger] failed_receipts(receipts@.take(i as int))[k],
                    actions@[before.len() + k],
                ),
        decreases receipts.len() - i,
    {
        let receipt = &receipts[i];
        proof {
            reveal(Seq::filter);
            assert(receipts@.take(i + 1).drop_last() =~= receipts@.take(i as int));
        }
        if receipt.status == SettlementTxStatus::Failed {
            actions.push(
                SettlementAction::EmitAlert(
                    SettlementAlert {
                        room_id: hand.room_id,
                        hand_id: hand.hand_id,
                        tx_hash: receipt.tx_hash.clone(),
                        kind: "settlement_manual_review_required",
                        message: owned("direct payout receipt failed; manual review required"),
                    },
                ),
            );
        }
        i = i + 1;
    }
    assert(receipts@.take(i as int) =~= receipts@);
}

/// Whether all payments are confirmed.
pub open spec fn all_confirmed(receipts: Seq<SettlementTransferReceipt>) -> bool {
    forall|i: int| 0 <= i < receipts.len() ==> (#[trigger] receipts[i]).status is Confirmed
}

/// Whether these are the steps that follow when the receipts are there: note each and enter
/// each into the audit; mark the payments that failed, enter them into the audit and let
/// somebody know; close the hand where all payments are confirmed.
pub open spec fn follows_receipts(
    hand: SettledHand,
    receipts: Seq<SettlementTransferReceipt>,
    actions: Seq<SettlementAction>,
) -> bool {
    let n = receipts.len() as int;
    let failed = failed_receipts(receipts);
    let m = failed.len() as int;
    &&& actions.len() == 2 * n + 3 * m + (if all_confirmed(receipts) {
        1int
    } else {
        0int
    })
    &&& forall|i: int| 0 <= i < n ==> notes_receipt(#[trigger] receipts[i], actions[i])
    &&& forall|i: int| 0 <= i < n ==> audits_receipt(hand, #[trigger] receipts[i], actions[n + i])
    &&& forall|i: int|
        0 <= i < m ==> marks_for_review(#[trigger] failed[i], actions[2 * n + i])
    &&& forall|i: int|
        0 <= i < m ==> audits_review(hand, #[trigger] failed[i], actions[2 * n + m + i])
    &&& forall|i: int|
        0 <= i < m ==> alerts_failure(hand, #[trigger] failed[i], actions[2 * n + 2 * m + i])
    &&& all_confirmed(receipts) ==> actions[2 * n + 3 * m] == SettlementAction::CompleteSettlement(
        hand.hand_id,
    )
}

/// The steps that follow when the receipts are there.
pub fn after_receipts_checked(hand: &SettledHand, receipts: &Vec<SettlementTransferReceipt>) -> (actions:
    Vec<SettlementAction>)
    ensures
        follows_receipts(*hand, receipts@, actions@),
{
    let mut actions: Vec<SettlementAction> = Vec::new();
    persist_receipt_status_updates(&mut actions, receipts);
    let ghost noted = actions@;
    emit_settlement_receipt_audits(&mut actions, hand, receipts);
    let ghost audited = actions@;
    mark_failed_receipts_for_manual_review(&mut actions, receipts);
    let ghost marked = actions@;
    emit_manual_review_audits(&mut actions, hand, receipts);
    let ghost reviewed = actions@;
    emit_failed_payout_alerts(&mut actions, hand, receipts);
    let ghost alerted = actions@;
    let mut confirmed: bool = true;
    let mut i: usize = 0;
    while i < receipts.len()
        invariant
            i <= receipts.len(),
            confirmed == (forall|k: int|
                0 <= k < i ==> (#[trigger] receipts@[k]).status is Confirmed),
        decreases receipts.len() - i,
    {
        if receipts[i].status != SettlementTxStatus::Confirmed {
            confirmed = false;
        }
        i = i + 1;
    }
    if confirmed {
        actions.push(SettlementAction::CompleteSettlement(hand.hand_id));
    }
    proof {
        let n = receipts@.len() as int;
        let failed = failed_receipts(receipts@);
        let m = failed.len() as int;
        assert(confirmed == all_confirmed(receipts@));
        assert forall|k: int| 0 <= k < alerted.len() implies #[trigger] actions@[k]
            == alerted[k] by {}
        assert forall|i: int| 0 <= i < n implies notes_receipt(
            #[trigger] receipts@[i],
            actions@[i],
        ) by {
            assert(noted[i] == noted[0 + i]);
            assert(audited[i] == noted[i]);
            assert(marked[i] == audited[i]);
            assert(reviewed[i] == marked[i]);
            assert(alerted[i] == reviewed[i]);
        }
        assert forall|i: int| 0 <= i < n implies audits_receipt(
            *hand,
            #[trigger] receipts@[i],
            actions@[n + i],
        ) by {
            assert(marked[n + i] == audited[n + i]);
            assert(reviewed[n + i] == marked[n + i]);
            assert(alerted[n + i] == reviewed[n + i]);
        }
        assert forall|i: int| 0 <= i < m implies marks_for_review(
            #[trigger] failed[i],
            actions@[2 * n + i],
        ) by {
            assert(reviewed[2 * n + i] == marked[2 * n + i]);
            assert(alerted[2 * n + i] == reviewed[2 * n + i]);
        }
        assert forall|i: int| 0 <= i < m implies audits_review(
            *hand,
            #[trigger] failed[i],
            actions@[2 * n + m + i],
        ) by {
            assert(alerted[2 * n + m + i] == reviewed[2 * n + m + i]);
        }
    }
    actions
}

/// What was learned on the way through a hand that is paid out on the chain.
pub enum PayoutEvent {
    /// The plan is made.
    Planned { plan: SettlementPlan, payload: Json },
    /// The payments were handed to the chain.
    Submitted { submissions: Vec<SettlementTransferSubmission>, min_confirmations: u64 },
    /// The receipts are there.
    ReceiptsChecked(Vec<SettlementTransferReceipt>),
}

/// The steps that follow from what was learned, in their order. The hand is closed only after
/// the receipts, and where every payment is confirmed.
pub fn run_showdown_settlement_with_direct_payouts_and_alerts(hand: &SettledHand, event: PayoutEvent) -> (actions:
    Result<Vec<SettlementAction>, String>)
    ensures
        match event {
            PayoutEvent::Planned { plan, payload } => follows_plan(*hand, plan, payload@, actions),
            PayoutEvent::Submitted { submissions, min_confirmations } => actions is Ok
                && follows_submissions(*hand, submissions@, min_confirmations, actions->Ok_0@),
            PayoutEvent::ReceiptsChecked(receipts) => actions is Ok && follows_receipts(
                *hand,
                receipts@,
                actions->Ok_0@,
            ),
        },
{
    match event {
        PayoutEvent::Planned { plan, payload } => run_showdown_settlement_with_direct_payouts(
            hand,
            &plan,
            payload,
        ),
        PayoutEvent::Submitted { submissions, min_confirmations } => Ok(
            after_payouts_submitted(hand, &submissions, min_confirmations),
        ),
        PayoutEvent::ReceiptsChecked(receipts) => Ok(after_receipts_checked(hand, &receipts)),
    }
}

/// A hand with a payment that failed is never closed.
pub proof fn failed_payment_keeps_the_hand_open(
    hand: SettledHand,
    receipts: Seq<SettlementTransferReceipt>,
    actions: Seq<SettlementAction>,
    i: int,
)
    requires
        follows_receipts(hand, receipts, actions),
        0 <= i < receipts.len(),
        !(receipts[i].status is Confirmed),
    ensures
        forall|k: int|
            0 <= k < actions.len() ==> !((#[trigger] actions[k]) is CompleteSettlement),
{
    let n = receipts.len() as int;
    let failed = failed_receipts(receipts);
    let m = failed.len() as int;
    assert(!all_confirmed(receipts));
    assert forall|k: int| 0 <= k < actions.len() implies !((
    #[trigger] actions[k]) is CompleteSettlement) by {
        if k < n {
            assert(notes_receipt(receipts[k], actions[k]));
        } else if k < 2 * n {
            assert(audits_receipt(hand, receipts[k - n], actions[n + (k - n)]));
        } else if k < 2 * n + m {
            assert(marks_for_review(failed[k - 2 * n], actions[2 * n + (k - 2 * n)]));
        } else if k < 2 * n + 2 * m {
            assert(audits_review(hand, failed[k - 2 * n - m], actions[2 * n + m + (k - 2 * n - m)]));
        } else {
            assert(alerts_failure(
                hand,
                failed[k - 2 * n - 2 * m],
                actions[2 * n + 2 * m + (k - 2 * n - 2 * m)],
            ));
        }
    }
}

/// Without payments that failed there is nothing to look at: every step notes, enters into the
/// audit or closes the hand.
pub proof fn confirmed_payments_close_the_hand(
    hand: SettledHand,
    receipts: Seq<SettlementTransferReceipt>,
    actions: Seq<SettlementAction>,
)
    requires
        follows_receipts(hand, receipts, actions),
        all_confirmed(receipts),
    ensures
        actions.len() == 2 * receipts.len() + 1,
        actions.last() == SettlementAction::CompleteSettlement(hand.hand_id),
{
    lemma_none_failed(receipts);
}

proof fn lemma_none_failed(receipts: Seq<SettlementTransferReceipt>)
    requires
        all_confirmed(receipts),
    ensures
        failed_receipts(receipts).len() == 0,
    decreases receipts.len(),
{
    reveal(Seq::filter);
    if receipts.len() > 0 {
        assert(receipts[receipts.len() - 1].status is Confirmed);
        assert forall|i: int| 0 <= i < receipts.drop_last().len() implies (
        #[trigger] receipts.drop_last()[i]).status is Confirmed by {
            assert(receipts[i].status is Confirmed);
        }
        lemma_none_failed(receipts.drop_last());
    }
}

/// What came of trying to settle a room's hand.
#[derive(Debug, Clone, Copy, PartialEq, Eq, Structural)]
pub enum AutoSettlementOutcome {
    NoActiveHand,
    NotShowdown,
    WaitingForShowdownInput,
    WaitingForSeatAddresses,
    Settled,
}

/// What is to be done next to settle a room's hand.
#[derive(Debug, Clone, Copy, PartialEq, Eq, Structural)]
pub enum AutoSettlementStep {
    /// Ask for the cards of the hand.
    AskShowdownInput(HandId),
    /// Ask for the addresses that the seats are paid at.
    AskSeatAddresses(HandId),
    /// Settle the hand.
    Settle(HandId),
    /// There is nothing to be done now.
    Stop(AutoSettlementOutcome),
}

/// What was found out while a room's hand is to be settled.
#[derive(Debug, Clone, Copy, PartialEq, Eq, Structural)]
pub enum AutoSettlementEvent {
    /// The room's hand, if it plays one.
    StateRead(Option<HandSnapshot>),
    /// Whether the cards of the hand are there.
    ShowdownInputRead { hand_id: HandId, found: bool },
    /// How many addresses are there.
    SeatAddressesRead { hand_id: HandId, count: usize },
    /// The hand is settled.
    HandSettled,
}

/// What is to be done next: settle a hand that has come to the showdown, once its cards and an
/// address are there.
pub open spec fn next_settlement_step(event: AutoSettlementEvent) -> AutoSettlementStep {
    match event {
        AutoSettlementEvent::StateRead(None) => AutoSettlementStep::Stop(
            AutoSettlementOutcome::NoActiveHand,
        ),
        AutoSettlementEvent::StateRead(Some(snapshot)) => if snapshot.status
            == HandStatus::Showdown {
            AutoSettlementStep::AskShowdownInput(snapshot.hand_id)
        } else {
            AutoSettlementStep::Stop(AutoSettlementOutcome::NotShowdown)
        },
        AutoSettlementEvent::ShowdownInputRead { hand_id, found } => if found {
            AutoSettlementStep::AskSeatAddresses(hand_id)
        } else {
            AutoSettlementStep::Stop(AutoSettlementOutcome::WaitingForShowdownInput)
        },
        AutoSettlementEvent::SeatAddressesRead { hand_id, count } => if count > 0 {
            AutoSettlementStep::Settle(hand_id)
        } else {
            AutoSettlementStep::Stop(AutoSettlementOutcome::WaitingForSeatAddresses)
        },
        AutoSettlementEvent::HandSettled => AutoSettlementStep::Stop(
            AutoSettlementOutcome::Settled,
        ),
    }
}

/// What is to be done next to settle a room's hand.
pub fn try_auto_settle_showdown_room(event: AutoSettlementEvent) -> (step: AutoSettlementStep)
    ensures
        step == next_settlement_step(event),
{
    match event {
        AutoSettlementEvent::StateRead(None) => AutoSettlementStep::Stop(
            AutoSettlementOutcome::NoActiveHand,
        ),
        AutoSettlementEvent::StateRead(Some(snapshot)) => if snapshot.status
            == HandStatus::Showdown {
            AutoSettlementStep::AskShowdownInput(snapshot.hand_id)
        } else {
            AutoSettlementStep::Stop(AutoSettlementOutcome::NotShowdown)
        },
        AutoSettlementEvent::ShowdownInputRead { hand_id, found } => if found {
            AutoSettlementStep::AskSeatAddresses(hand_id)
        } else {
            AutoSettlementStep::Stop(AutoSettlementOutcome::WaitingForShowdownInput)
        },
        AutoSettlementEvent::SeatAddressesRead { hand_id, count } => if count > 0 {
            AutoSettlementStep::Settle(hand_id)
        } else {
            AutoSettlementStep::Stop(AutoSettlementOutcome::WaitingForSeatAddresses)
        },
        AutoSettlementEvent::HandSettled => AutoSettlementStep::Stop(
            AutoSettlementOutcome::Settled,
        ),
    }
}

} // verus!
