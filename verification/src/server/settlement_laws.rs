//! What paying out a hand promises to those who are paid and to those who watch over it.
use vstd::prelude::*;

use crate::domain::game::HandStatus;
use crate::domain::money::MoneyError;
use crate::json::JsonView;
use crate::server::settlement::{
    alerts_failure, audits_receipt, audits_review, audits_submission, failed_receipts,
    follows_plan, follows_receipts, follows_submissions, keeps_submission, marks_for_review,
    next_settlement_step, notes_receipt, paid, AutoSettlementEvent, AutoSettlementOutcome,
    AutoSettlementStep, SettledHand, SettlementAction, SettlementPayout, SettlementPlan,
    SettlementTransferReceipt, SettlementTransferSubmission, SettlementTxStatus,
};

verus! {

/// What is paid in all grows with every payout by its amount.
pub proof fn payouts_add_up(payouts: Seq<SettlementPayout>, more: SettlementPayout)
    ensures
        paid(Seq::empty(), 0) == 0,
        paid(payouts.push(more), payouts.len() + 1) == paid(payouts, payouts.len()) + more.amount.0,
{
    lemma_paid_in_front(payouts, payouts.push(more), payouts.len());
}

proof fn lemma_paid_in_front(a: Seq<SettlementPayout>, b: Seq<SettlementPayout>, count: nat)
    requires
        count <= a.len() <= b.len(),
        forall|i: int| 0 <= i < a.len() ==> a[i] == b[i],
    ensures
        paid(a, count) == paid(b, count),
    decreases count,
{
    if count > 0 {
        lemma_paid_in_front(a, b, (count - 1) as nat);
    }
}

proof fn lemma_paid_nonnegative(payouts: Seq<SettlementPayout>, count: nat)
    ensures
        paid(payouts, count) >= 0,
    decreases count,
{
    if count > 0 {
        lemma_paid_nonnegative(payouts, (count - 1) as nat);
    }
}

/// The total of a plan is the sum of its payouts, and an error exactly where no amount is so
/// large.
pub proof fn the_total_is_the_sum(plan: SettlementPlan)
    ensures
        ({
            let sum = paid(plan.payouts@, plan.payouts@.len());
            &&& sum <= u128::MAX ==> plan.total() is Ok && plan.total()->Ok_0.0 == sum
            &&& sum > u128::MAX ==> plan.total() is Err && plan.total()->Err_0
                == MoneyError::Overflow
        }),
{
    lemma_paid_nonnegative(plan.payouts@, plan.payouts@.len());
}

/// Before anything is paid the plan is kept and entered into the ledger, with what it pays in
/// all and what the house keeps; then the payments go to the chain. Nothing happens where the
/// plan pays more than an amount can be.
pub proof fn plans_are_kept_before_they_are_paid(
    hand: SettledHand,
    plan: SettlementPlan,
    payload: JsonView,
    actions: Result<Vec<SettlementAction>, String>,
)
    requires
        follows_plan(hand, plan, payload, actions),
    ensures
        actions is Ok <==> paid(plan.payouts@, plan.payouts@.len()) <= u128::MAX,
        actions is Ok ==> ({
            let steps = actions->Ok_0@;
            let record = steps[0]->InsertPlan_0;
            &&& steps.len() == 3
            &&& steps[0] is InsertPlan
            &&& steps[1] is RecordPlan
            &&& steps[2] is SubmitPayouts
            &&& record.settlement_plan_id == hand.settlement_plan_id
            &&& record.room_id == hand.room_id
            &&& record.hand_id == hand.hand_id
            &&& record.status@ == "created"@
            &&& record.rake_amount == plan.rake_amount
            &&& record.payout_total.0 == paid(plan.payouts@, plan.payouts@.len())
            &&& record.payload_json@ == payload
            &&& record.finalized_at is None
        }),
        actions is Err ==> actions->Err_0@ == "settlement payout_total failed: amount overflow"@,
{
    the_total_is_the_sum(plan);
}

/// Every payment that was handed to the chain is kept as submitted under its transaction and
/// told to the audit for its seat; then the receipts are asked for, and nothing is closed yet.
pub proof fn every_submission_is_kept(
    hand: SettledHand,
    submissions: Seq<SettlementTransferSubmission>,
    min_confirmations: u64,
    actions: Seq<SettlementAction>,
    i: int,
)
    requires
        follows_submissions(hand, submissions, min_confirmations, actions),
        0 <= i < submissions.len(),
    ensures
        exists|k: int|
            0 <= k < actions.len() && (#[trigger] actions[k]) is InsertRecord
                && actions[k]->InsertRecord_0.tx_hash is Some
                && actions[k]->InsertRecord_0.tx_hash->0@ == submissions[i].tx_hash@
                && actions[k]->InsertRecord_0.settlement_status@ == "submitted"@
                && actions[k]->InsertRecord_0.hand_id == hand.hand_id
                && actions[k]->InsertRecord_0.room_id == hand.room_id
                && actions[k]->InsertRecord_0.settlement_plan_id == hand.settlement_plan_id
                && actions[k]->InsertRecord_0.retry_count == 0,
        exists|k: int|
            0 <= k < actions.len() && (#[trigger] actions[k]) is EmitAudit
                && actions[k]->EmitAudit_0.event_kind@ == "settlement_payout_submitted"@
                && actions[k]->EmitAudit_0.seat_id == Some(submissions[i].seat_id)
                && actions[k]->EmitAudit_0.related_tx_hash is Some
                && actions[k]->EmitAudit_0.related_tx_hash->0@ == submissions[i].tx_hash@
                && actions[k]->EmitAudit_0.severity@ == "info"@
                && actions[k]->EmitAudit_0.hand_id == Some(hand.hand_id),
        actions.last() == (SettlementAction::CheckReceipts {
            min_confirmations: min_confirmations,
        }),
        forall|k: int|
            0 <= k < actions.len() ==> !((#[trigger] actions[k]) is CompleteSettlement),
{
    let n = submissions.len() as int;
    assert(keeps_submission(hand, submissions[i], actions[i]));
    assert(audits_submission(hand, submissions[i], actions[n + i]));
    assert forall|k: int| 0 <= k < actions.len() implies !(
    (#[trigger] actions[k]) is CompleteSettlement) by {
        if k < n {
            assert(keeps_submission(hand, submissions[k], actions[k]));
        } else if k < 2 * n {
            assert(audits_submission(hand, submissions[k - n], actions[n + (k - n)]));
        }
    }
}

/// The word for what became of a payment.
pub open spec fn receipt_word(status: SettlementTxStatus) -> Seq<char> {
    match status {
        SettlementTxStatus::Confirmed => "confirmed"@,
        SettlementTxStatus::Pending => "pending"@,
        SettlementTxStatus::Failed => "failed"@,
    }
}

/// What became of every payment is noted under its transaction, a failed one as tried once and
/// with its error, and told to the audit as the worse the worse it is.
pub proof fn every_receipt_is_noted(
    hand: SettledHand,
    receipts: Seq<SettlementTransferReceipt>,
    actions: Seq<SettlementAction>,
    i: int,
)
    requires
        follows_receipts(hand, receipts, actions),
        0 <= i < receipts.len(),
    ensures
        ({
            let note = actions[i]->UpdateStatus_0;
            &&& actions[i] is UpdateStatus
            &&& note.tx_hash@ == receipts[i].tx_hash@
            &&& note.settlement_status@ == receipt_word(receipts[i].status)
            &&& receipts[i].status == SettlementTxStatus::Failed ==> note.retry_count == 1
                && note.error_detail is Some && note.error_detail->0@
                == "wallet receipt returned failed status"@
            &&& receipts[i].status != SettlementTxStatus::Failed ==> note.retry_count == 0
                && note.error_detail is None
        }),
        ({
            let told = actions[receipts.len() + i]->EmitAudit_0;
            &&& actions[receipts.len() + i] is EmitAudit
            &&& told.event_kind@ == "settlement_payout_receipt"@
            &&& told.related_tx_hash is Some
            &&& told.related_tx_hash->0@ == receipts[i].tx_hash@
            &&& told.hand_id == Some(hand.hand_id)
            &&& told.room_id == Some(hand.room_id)
            &&& receipts[i].status == SettlementTxStatus::Confirmed ==> told.severity@ == "info"@
            &&& receipts[i].status == SettlementTxStatus::Pending ==> told.severity@ == "warn"@
            &&& receipts[i].status == SettlementTxStatus::Failed ==> told.severity@ == "error"@
        }),
{
    let n = receipts.len() as int;
    assert(notes_receipt(receipts[i], actions[i]));
    assert(audits_receipt(hand, receipts[i], actions[n + i]));
}

/// Whether a step marks a transaction for somebody to look at.
pub open spec fn asks_for_review(action: SettlementAction, tx_hash: Seq<char>) -> bool {
    &&& action is UpdateStatus
    &&& action->UpdateStatus_0.tx_hash@ == tx_hash
    &&& action->UpdateStatus_0.settlement_status@ == "manual_review_required"@
    &&& action->UpdateStatus_0.retry_count == 1
    &&& action->UpdateStatus_0.error_detail is Some
}

/// Whether a step alerts somebody about a transaction of the hand.
pub open spec fn alerts_about(
    action: SettlementAction,
    hand: SettledHand,
    tx_hash: Seq<char>,
) -> bool {
    &&& action is EmitAlert
    &&& action->EmitAlert_0.tx_hash@ == tx_hash
    &&& action->EmitAlert_0.room_id == hand.room_id
    &&& action->EmitAlert_0.hand_id == hand.hand_id
    &&& action->EmitAlert_0.kind@ == "settlement_manual_review_required"@
}

/// Every payment that failed is marked for review after it was noted, and somebody is alerted;
/// an alert is raised about nothing but a payment that failed.
pub proof fn failed_payments_are_reviewed(
    hand: SettledHand,
    receipts: Seq<SettlementTransferReceipt>,
    actions: Seq<SettlementAction>,
)
    requires
        follows_receipts(hand, receipts, actions),
    ensures
        forall|i: int|
            0 <= i < receipts.len() && (#[trigger] receipts[i]).status
                == SettlementTxStatus::Failed ==> (exists|k: int|
                receipts.len() <= k < actions.len() && asks_for_review(
                    #[trigger] actions[k],
                    receipts[i].tx_hash@,
                )) && (exists|k: int|
                0 <= k < actions.len() && alerts_about(
                    #[trigger] actions[k],
                    hand,
                    receipts[i].tx_hash@,
                )),
        forall|k: int|
            0 <= k < actions.len() && (#[trigger] actions[k]) is EmitAlert ==> exists|i: int|
                0 <= i < receipts.len() && (#[trigger] receipts[i]).status
                    == SettlementTxStatus::Failed && receipts[i].tx_hash@
                    == actions[k]->EmitAlert_0.tx_hash@,
{
    broadcast use vstd::seq_lib::group_filter_ensures;

    let n = receipts.len() as int;
    let failed = failed_receipts(receipts);
    let m = failed.len() as int;
    let is_failed = |receipt: SettlementTransferReceipt| receipt.status is Failed;
    assert forall|i: int|
        0 <= i < receipts.len() && (#[trigger] receipts[i]).status
            == SettlementTxStatus::Failed implies (exists|k: int|
        receipts.len() <= k < actions.len() && asks_for_review(
            #[trigger] actions[k],
            receipts[i].tx_hash@,
        )) && (exists|k: int|
        0 <= k < actions.len() && alerts_about(
            #[trigger] actions[k],
            hand,
            receipts[i].tx_hash@,
        )) by {
        receipts.lemma_filter_contains(is_failed, i);
        assert(failed.contains(receipts[i]));
        let at = choose|j: int| 0 <= j < failed.len() && failed[j] == receipts[i];
        assert(asks_for_review(actions[2 * n + at], receipts[i].tx_hash@));
        assert(alerts_about(actions[2 * n + 2 * m + at], hand, receipts[i].tx_hash@));
    }
    assert forall|k: int|
        0 <= k < actions.len() && (#[trigger] actions[k]) is EmitAlert implies exists|i: int|
        0 <= i < receipts.len() && (#[trigger] receipts[i]).status == SettlementTxStatus::Failed
            && receipts[i].tx_hash@ == actions[k]->EmitAlert_0.tx_hash@ by {
        if k < n {
            assert(notes_receipt(receipts[k], actions[k]));
        } else if k < 2 * n {
            assert(audits_receipt(hand, receipts[k - n], actions[n + (k - n)]));
        } else if k < 2 * n + m {
            let at = k - 2 * n;
            assert(marks_for_review(failed[at], actions[2 * n + at]));
        } else if k < 2 * n + 2 * m {
            let at = k - 2 * n - m;
            assert(audits_review(hand, failed[at], actions[2 * n + m + at]));
        } else if k < 2 * n + 3 * m {
            let at = k - 2 * n - 2 * m;
            assert(alerts_failure(hand, failed[at], actions[2 * n + 2 * m + at]));
            lemma_failed_is_among(receipts, at);
            let i = choose|i: int| 0 <= i < receipts.len() && receipts[i] == failed[at];
            assert(receipts[i].status == SettlementTxStatus::Failed);
        }
    }
}

proof fn lemma_failed_is_among(receipts: Seq<SettlementTransferReceipt>, at: int)
    requires
        0 <= at < failed_receipts(receipts).len(),
    ensures
        failed_receipts(receipts)[at].status is Failed,
        receipts.contains(failed_receipts(receipts)[at]),
    decreases receipts.len(),
{
    reveal(Seq::filter);
    let failed = failed_receipts(receipts);
    if receipts.len() > 0 {
        let front = receipts.drop_last();
        if at < failed_receipts(front).len() {
            lemma_failed_is_among(front, at);
            let i = choose|i: int| 0 <= i < front.len() && front[i] == failed_receipts(front)[at];
            assert(receipts[i] == failed[at]);
        } else {
            assert(receipts[receipts.len() - 1] == failed[at]);
        }
    }
}

/// The hand is closed exactly where every payment is confirmed, and then last of all.
pub proof fn the_hand_closes_when_all_is_confirmed(
    hand: SettledHand,
    receipts: Seq<SettlementTransferReceipt>,
    actions: Seq<SettlementAction>,
)
    requires
        follows_receipts(hand, receipts, actions),
    ensures
        (exists|k: int|
            0 <= k < actions.len() && (#[trigger] actions[k]) is CompleteSettlement)
            <==> forall|i: int|
            0 <= i < receipts.len() ==> (#[trigger] receipts[i]).status
                == SettlementTxStatus::Confirmed,
        forall|k: int|
            0 <= k < actions.len() && (#[trigger] actions[k]) is CompleteSettlement ==> k
                == actions.len() - 1 && actions[k]->CompleteSettlement_0 == hand.hand_id,
{
    let n = receipts.len() as int;
    let failed = failed_receipts(receipts);
    let m = failed.len() as int;
    assert forall|k: int| 0 <= k < 2 * n + 3 * m implies !(
    (#[trigger] actions[k]) is CompleteSettlement) by {
        if k < n {
            assert(notes_receipt(receipts[k], actions[k]));
        } else if k < 2 * n {
            assert(audits_receipt(hand, receipts[k - n], actions[n + (k - n)]));
        } else if k < 2 * n + m {
            let at = k - 2 * n;
            assert(marks_for_review(failed[at], actions[2 * n + at]));
        } else if k < 2 * n + 2 * m {
            let at = k - 2 * n - m;
            assert(audits_review(hand, failed[at], actions[2 * n + m + at]));
        } else {
            let at = k - 2 * n - 2 * m;
            assert(alerts_failure(hand, failed[at], actions[2 * n + 2 * m + at]));
        }
    }
    if forall|i: int|
        0 <= i < receipts.len() ==> (#[trigger] receipts[i]).status
            == SettlementTxStatus::Confirmed {
        assert(actions[2 * n + 3 * m] is CompleteSettlement);
    }
}

/// A room's hand is settled only from the showdown on, once its cards and an address are there;
/// until then the reason to wait is told.
pub proof fn settling_waits_for_what_it_needs(event: AutoSettlementEvent)
    ensures
        event matches AutoSettlementEvent::StateRead(None) ==> next_settlement_step(event)
            == AutoSettlementStep::Stop(AutoSettlementOutcome::NoActiveHand),
        event matches AutoSettlementEvent::StateRead(Some(snapshot)) ==> {
            &&& snapshot.status == HandStatus::Showdown ==> next_settlement_step(event)
                == AutoSettlementStep::AskShowdownInput(snapshot.hand_id)
            &&& snapshot.status != HandStatus::Showdown ==> next_settlement_step(event)
                == AutoSettlementStep::Stop(AutoSettlementOutcome::NotShowdown)
        },
        event matches AutoSettlementEvent::ShowdownInputRead { hand_id, found } ==> {
            &&& found ==> next_settlement_step(event) == AutoSettlementStep::AskSeatAddresses(
                hand_id,
            )
            &&& !found ==> next_settlement_step(event) == AutoSettlementStep::Stop(
                AutoSettlementOutcome::WaitingForShowdownInput,
            )
        },
        event matches AutoSettlementEvent::SeatAddressesRead { hand_id, count } ==> {
            &&& count >= 1 ==> next_settlement_step(event) == AutoSettlementStep::Settle(hand_id)
            &&& count == 0 ==> next_settlement_step(event) == AutoSettlementStep::Stop(
                AutoSettlementOutcome::WaitingForSeatAddresses,
            )
        },
        event is HandSettled ==> next_settlement_step(event) == AutoSettlementStep::Stop(
            AutoSettlementOutcome::Settled,
        ),
{
}

} // verus!
