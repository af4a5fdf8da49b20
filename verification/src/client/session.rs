//! What the client knows of its turn and of its connection to the server.
use vstd::prelude::*;

use crate::agent_sdk::{contains_text, lists};
use crate::backoff::{capped_backoff_ms, capped_wait};
use crate::domain::action::ActionType;
use crate::domain::game::SeatId;
use crate::domain::ids::{HandId, RoomId};
use crate::table::{lookup, upserted, Table};

verus! {

/// A turn of the client.
#[derive(Debug, PartialEq, Eq)]
pub struct TurnContext {
    pub room_id: RoomId,
    pub hand_id: HandId,
    pub seat_id: SeatId,
    pub legal_actions: Vec<String>,
    pub action_deadline_unix_ms: Option<i64>,
}

/// What the client last saw.
#[derive(Debug, PartialEq, Eq)]
pub struct StateCache {
    pub current_turn: Option<TurnContext>,
    pub last_public_state_json: Option<String>,
}

impl Default for StateCache {
    fn default() -> (cache: StateCache)
        ensures
            cache.current_turn is None,
            cache.last_public_state_json is None,
    {
        StateCache { current_turn: None, last_public_state_json: None }
    }
}

impl StateCache {
    /// Notes whose turn it is.
    pub fn update_turn(&mut self, turn: TurnContext)
        ensures
            *final(self) == (StateCache { current_turn: Some(turn), ..*old(self) }),
    {
        self.current_turn = Some(turn);
    }

    /// Notes that no turn is going on.
    pub fn clear_turn(&mut self)
        ensures
            *final(self) == (StateCache { current_turn: None, ..*old(self) }),
    {
        self.current_turn = None;
    }
}

/// What a client asks to be told of.
#[derive(Debug, PartialEq, Eq)]
pub struct SubscriptionSpec {
    pub topic: String,
    pub room_id: RoomId,
    pub hand_id: Option<HandId>,
    pub seat_id: Option<SeatId>,
}

impl Clone for SubscriptionSpec {
    fn clone(&self) -> (copy: SubscriptionSpec)
        ensures
            copy == *self,
    {
        SubscriptionSpec {
            topic: self.topic.clone(),
            room_id: self.room_id,
            hand_id: self.hand_id,
            seat_id: self.seat_id,
        }
    }
}

/// How a subscription stands.
#[derive(Debug, PartialEq, Eq)]
pub struct SubscriptionState {
    pub spec: SubscriptionSpec,
    pub remote_subscription_id: Option<String>,
    pub active: bool,
}

/// How the client waits before it connects again.
#[derive(Debug, Clone, Copy, PartialEq, Eq, Structural)]
pub struct ReconnectPolicy {
    pub max_retries: u32,
    pub base_backoff_ms: u64,
    pub max_backoff_ms: u64,
}

impl Default for ReconnectPolicy {
    fn default() -> (policy: ReconnectPolicy)
        ensures
            policy == (ReconnectPolicy {
                max_retries: 10,
                base_backoff_ms: 500,
                max_backoff_ms: 10_000,
            }),
    {
        ReconnectPolicy { max_retries: 10, base_backoff_ms: 500, max_backoff_ms: 10_000 }
    }
}

impl ReconnectPolicy {
    /// How long to wait after so many attempts.
    pub fn backoff_ms(&self, attempt: u32) -> (wait: u64)
        ensures
            wait == capped_wait(self.base_backoff_ms, self.max_backoff_ms, attempt),
    {
        capped_backoff_ms(self.base_backoff_ms, self.max_backoff_ms, attempt)
    }
}

/// A subscription that the server does not know of.
pub open spec fn idle(state: SubscriptionState) -> SubscriptionState {
    SubscriptionState { spec: state.spec, remote_subscription_id: None, active: false }
}

/// The subscriptions when the server knows of none of them.
pub open spec fn all_idle(rows: Seq<(Seq<char>, SubscriptionState)>) -> Seq<
    (Seq<char>, SubscriptionState),
> {
    rows.map_values(|row: (Seq<char>, SubscriptionState)| (row.0, idle(row.1)))
}

/// The subscriptions that the server has to be asked for again, the oldest first.
pub open spec fn to_restore(rows: Seq<(Seq<char>, SubscriptionState)>) -> Seq<
    (Seq<char>, SubscriptionSpec),
>
    decreases rows.len(),
{
    if rows.len() == 0 {
        Seq::empty()
    } else {
        let front = to_restore(rows.drop_last());
        if rows.last().1.active {
            front
        } else {
            front.push((rows.last().0, rows.last().1.spec))
        }
    }
}

/// The connection over which events come.
#[derive(Debug)]
pub struct WsSessionState {
    pub connected: bool,
    pub reconnect_attempt: u32,
    pub subscriptions: Table<String, SubscriptionState>,
}

impl Default for WsSessionState {
    fn default() -> (session: WsSessionState)
        ensures
            !session.connected,
            session.reconnect_attempt == 0,
            session.subscriptions.rows().len() == 0,
    {
        WsSessionState { connected: false, reconnect_attempt: 0, subscriptions: Table::new() }
    }
}

impl WsSessionState {
    fn forget_remote_ids(&mut self)
        ensures
            final(self).connected == old(self).connected,
            final(self).reconnect_attempt == old(self).reconnect_attempt,
            final(self).subscriptions.rows() == all_idle(old(self).subscriptions.rows()),
    {
        let ghost before = self.subscriptions.rows();
        let count: usize = self.subscriptions.len();
        let mut i: usize = 0;
        while i < count
            invariant
                i <= count,
                count == before.len(),
                before == old(self).subscriptions.rows(),
                self.connected == old(self).connected,
                self.reconnect_attempt == old(self).reconnect_attempt,
                self.subscriptions.rows().len() == count,
                forall|k: int|
                    0 <= k < count ==> #[trigger] self.subscriptions.rows()[k] == (if k < i {
                        (before[k].0, idle(before[k].1))
                    } else {
                        before[k]
                    }),
            decreases count - i,
        {
            let spec = self.subscriptions.value_at(i).spec.clone();
            self.subscriptions.replace_value(
                i,
                SubscriptionState { spec: spec, remote_subscription_id: None, active: false },
            );
            i = i + 1;
        }
        assert(self.subscriptions.rows() =~= all_idle(before));
    }

    /// Notes that the connection stands; the server knows of no subscription yet.
    pub fn mark_connected(&mut self)
        ensures
            final(self).connected,
            final(self).reconnect_attempt == 0,
            final(self).subscriptions.rows() == all_idle(old(self).subscriptions.rows()),
    {
        self.connected = true;
        self.reconnect_attempt = 0;
        self.forget_remote_ids();
    }

    /// Notes that the connection broke; its subscriptions went with it.
    pub fn mark_disconnected(&mut self)
        ensures
            !final(self).connected,
            final(self).reconnect_attempt == (if old(self).reconnect_attempt < u32::MAX {
                old(self).reconnect_attempt + 1
            } else {
                u32::MAX as int
            }),
            final(self).subscriptions.rows() == all_idle(old(self).subscriptions.rows()),
    {
        self.connected = false;
        if self.reconnect_attempt < u32::MAX {
            self.reconnect_attempt = self.reconnect_attempt + 1;
        }
        self.forget_remote_ids();
    }

    /// Notes what the client wants to be told of.
    pub fn register_subscription(&mut self, local_id: String, spec: SubscriptionSpec)
        ensures
            final(self).connected == old(self).connected,
            final(self).reconnect_attempt == old(self).reconnect_attempt,
            final(self).subscriptions.rows() == upserted(
                old(self).subscriptions.rows(),
                local_id@,
                SubscriptionState { spec: spec, remote_subscription_id: None, active: false },
            ),
    {
        self.subscriptions.upsert(
            local_id,
            SubscriptionState { spec: spec, remote_subscription_id: None, active: false },
        );
    }

    /// Notes that the server agreed to a subscription; an unknown one is passed over.
    pub fn mark_subscription_active(&mut self, local_id: String, remote_id: String)
        ensures
            final(self).connected == old(self).connected,
            final(self).reconnect_attempt == old(self).reconnect_attempt,
            final(self).subscriptions.rows() == (match lookup(
                old(self).subscriptions.rows(),
                local_id@,
            ) {
                Some(state) => upserted(
                    old(self).subscriptions.rows(),
                    local_id@,
                    SubscriptionState {
                        spec: state.spec,
                        remote_subscription_id: Some(remote_id),
                        active: true,
                    },
                ),
                None => old(self).subscriptions.rows(),
            }),
    {
        let known = match self.subscriptions.get(&local_id) {
            Some(state) => Some(state.spec.clone()),
            None => None,
        };
        match known {
            Some(spec) => {
                self.subscriptions.upsert(
                    local_id,
                    SubscriptionState {
                        spec: spec,
                        remote_subscription_id: Some(remote_id),
                        active: true,
                    },
                );
            },
            None => {},
        }
    }

    /// The subscriptions that the server has to be asked for again.
    pub fn subscriptions_to_restore(&self) -> (found: Vec<(String, SubscriptionSpec)>)
        ensures
            found@.map_values(|row: (String, SubscriptionSpec)| (row.0@, row.1)) == to_restore(
                self.subscriptions.rows(),
            ),
    {
        let ghost told = |row: (String, SubscriptionSpec)| (row.0@, row.1);
        let ghost rows = self.subscriptions.rows();
        let mut found: Vec<(String, SubscriptionSpec)> = Vec::new();
        let count: usize = self.subscriptions.len();
        let mut i: usize = 0;
        assert(found@.map_values(told) =~= to_restore(rows.take(0)));
        while i < count
            invariant
                i <= count,
                count == rows.len(),
                rows == self.subscriptions.rows(),
                told == (|row: (String, SubscriptionSpec)| (row.0@, row.1)),
                found@.map_values(told) == to_restore(rows.take(i as int)),
            decreases count - i,
        {
            assert(rows.take(i + 1).drop_last() =~= rows.take(i as int));
            let ghost before = found@;
            let state = self.subscriptions.value_at(i);
            if !state.active {
                let id = self.subscriptions.key_at(i).clone();
                found.push((id, state.spec.clone()));
                assert(found@.map_values(told) =~= before.map_values(told).push(
                    (rows[i as int].0, rows[i as int].1.spec),
                ));
            }
            i = i + 1;
        }
        assert(rows.take(i as int) =~= rows);
        found
    }
}

/// A connection that broke, or that stands anew, has every subscription asked for again.
pub proof fn reconnecting_restores_everything(rows: Seq<(Seq<char>, SubscriptionState)>)
    ensures
        to_restore(all_idle(rows)) == rows.map_values(
            |row: (Seq<char>, SubscriptionState)| (row.0, row.1.spec),
        ),
    decreases rows.len(),
{
    let told = |row: (Seq<char>, SubscriptionState)| (row.0, row.1.spec);
    if rows.len() > 0 {
        reconnecting_restores_everything(rows.drop_last());
        assert(all_idle(rows).drop_last() =~= all_idle(rows.drop_last()));
        assert(rows.map_values(told) =~= rows.drop_last().map_values(told).push(told(rows.last())));
    } else {
        assert(to_restore(all_idle(rows)) =~= rows.map_values(told));
    }
}

/// What to do when nothing else decides.
#[derive(Debug, Clone, Copy, PartialEq, Eq, Structural)]
pub struct FallbackPolicy {
    pub default_action: ActionType,
}

impl Default for FallbackPolicy {
    fn default() -> (policy: FallbackPolicy)
        ensures
            policy.default_action == ActionType::Fold,
    {
        FallbackPolicy { default_action: ActionType::Fold }
    }
}

impl FallbackPolicy {
    /// The default where it is among the choices, then a check, then a fold.
    pub fn choose_action(&self, legal_actions: &Vec<String>) -> (action: ActionType)
        ensures
            action == (if lists(legal_actions@, self.default_action.spec_label()) {
                self.default_action
            } else if lists(legal_actions@, "check"@) {
                ActionType::Check
            } else {
                ActionType::Fold
            }),
    {
        if contains_text(legal_actions, self.default_action.label()) {
            self.default_action
        } else if contains_text(legal_actions, "check") {
            ActionType::Check
        } else {
            ActionType::Fold
        }
    }
}

} // verus!
