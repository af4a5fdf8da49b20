//! How the client chooses its actions.
use std::collections::VecDeque;

use vstd::prelude::*;

use crate::agent_sdk::{contains_text, lists};
use crate::domain::action::ActionType;
use crate::domain::events::{
    id_json, member, number_json, number_tree, object, optional_text_json, optional_text_tree,
    text_json,
};
use crate::domain::game::SeatId;
use crate::domain::ids::{uuid_text, HandId, RoomId};
use crate::domain::money::Chips;
use crate::json::{
    canonical, canonicalize_json, items_view, json_text, lemma_array_view, Json, JsonView,
};
use crate::text::{
    chars_of, lower, lowered, owned, parse_number, part, read_number, same_text, text_of, trim,
    trimmed,
};

verus! {

#[derive(Debug, Clone, Copy, PartialEq, Eq, Structural)]
pub enum PolicyAdapterError {
    BackendUnavailable,
    InvalidDecision,
}

impl PolicyAdapterError {
    pub open spec fn spec_message(self) -> Seq<char> {
        match self {
            PolicyAdapterError::BackendUnavailable => "policy backend unavailable"@,
            PolicyAdapterError::InvalidDecision => "invalid policy decision"@,
        }
    }

    pub fn message(self) -> (text: &'static str)
        ensures
            text@ == self.spec_message(),
    {
        match self {
            PolicyAdapterError::BackendUnavailable => "policy backend unavailable",
            PolicyAdapterError::InvalidDecision => "invalid policy decision",
        }
    }
}

/// What a decision may rest on.
#[derive(Debug, PartialEq, Eq)]
pub struct PolicyDecisionInput {
    pub room_id: RoomId,
    pub hand_id: HandId,
    pub seat_id: SeatId,
    pub legal_actions: Vec<String>,
    pub public_state_json: Json,
    pub private_state_json: Option<Json>,
    pub decision_context_json: Option<Json>,
}

/// What was decided, and by whom.
#[derive(Debug, PartialEq, Eq)]
pub struct PolicyDecision {
    pub action_type: ActionType,
    pub amount: Option<Chips>,
    pub rationale: Option<String>,
    pub source: PolicySource,
}

#[derive(Debug, Clone, Copy, PartialEq, Eq, Structural)]
pub enum PolicySource {
    Rule,
    Llm,
    Script,
}

impl PolicySource {
    pub open spec fn spec_label(self) -> Seq<char> {
        match self {
            PolicySource::Rule => "rule"@,
            PolicySource::Llm => "llm"@,
            PolicySource::Script => "script"@,
        }
    }

    /// The name in the journal.
    pub fn label(self) -> (label: &'static str)
        ensures
            label@ == self.spec_label(),
    {
        match self {
            PolicySource::Rule => "rule",
            PolicySource::Llm => "llm",
            PolicySource::Script => "script",
        }
    }
}

/// Chooses actions.
pub trait PolicyAdapter {
    fn decide_action(&self, input: &PolicyDecisionInput) -> Result<
        Option<PolicyDecision>,
        PolicyAdapterError,
    >;
}

/// Checks where it can, calls where it cannot, and folds otherwise.
#[derive(Debug, Clone, Copy, PartialEq, Eq, Structural)]
pub struct RulePolicyAdapter;

impl Default for RulePolicyAdapter {
    fn default() -> (policy: RulePolicyAdapter)
        ensures
            policy == RulePolicyAdapter,
    {
        RulePolicyAdapter
    }
}

/// The action that the rule chooses.
pub open spec fn rule_choice(legal_actions: Seq<String>) -> Option<ActionType> {
    if lists(legal_actions, "check"@) {
        Some(ActionType::Check)
    } else if lists(legal_actions, "call"@) {
        Some(ActionType::Call)
    } else if lists(legal_actions, "fold"@) {
        Some(ActionType::Fold)
    } else {
        None
    }
}

impl PolicyAdapter for RulePolicyAdapter {
    fn decide_action(&self, input: &PolicyDecisionInput) -> (decision: Result<
        Option<PolicyDecision>,
        PolicyAdapterError,
    >)
        ensures
            decision is Ok,
            match rule_choice(input.legal_actions@) {
                None => decision->Ok_0 is None,
                Some(action) => {
                    &&& decision->Ok_0 is Some
                    &&& decision->Ok_0->0.action_type == action
                    &&& decision->Ok_0->0.amount is None
                    &&& decision->Ok_0->0.rationale is Some
                    &&& decision->Ok_0->0.rationale->0@ == "rule_policy_simple_priority"@
                    &&& decision->Ok_0->0.source == PolicySource::Rule
                },
            },
    {
        let legal = &input.legal_actions;
        let action: ActionType = if contains_text(legal, "check") {
            ActionType::Check
        } else if contains_text(legal, "call") {
            ActionType::Call
        } else if contains_text(legal, "fold") {
            ActionType::Fold
        } else {
            return Ok(None);
        };
        Ok(
            Some(
                PolicyDecision {
                    action_type: action,
                    amount: None,
                    rationale: Some(owned("rule_policy_simple_priority")),
                    source: PolicySource::Rule,
                },
            ),
        )
    }
}

/// The rule chooses among the choices, and finds one wherever a check, a call or a fold is
/// offered.
pub proof fn rule_chooses_what_is_offered(legal_actions: Seq<String>)
    ensures
        match rule_choice(legal_actions) {
            Some(action) => lists(legal_actions, action.spec_label()),
            None => !lists(legal_actions, "check"@) && !lists(legal_actions, "call"@) && !lists(
                legal_actions,
                "fold"@,
            ),
        },
{
}

/// Leaves every decision to others.
#[derive(Debug, Clone, Copy, PartialEq, Eq, Structural)]
pub struct LlmCodexPolicyAdapter;

impl Default for LlmCodexPolicyAdapter {
    fn default() -> (policy: LlmCodexPolicyAdapter)
        ensures
            policy == LlmCodexPolicyAdapter,
    {
        LlmCodexPolicyAdapter
    }
}

impl PolicyAdapter for LlmCodexPolicyAdapter {
    fn decide_action(&self, input: &PolicyDecisionInput) -> (decision: Result<
        Option<PolicyDecision>,
        PolicyAdapterError,
    >)
        ensures
            decision is Ok,
            decision->Ok_0 is None,
    {
        Ok(None)
    }
}

/// The names as a value.
pub open spec fn texts_tree(texts: Seq<String>) -> JsonView {
    JsonView::Array(texts.map_values(|text: String| JsonView::Text(text@)))
}

fn texts_json(texts: &Vec<String>) -> (value: Json)
    ensures
        value@ == texts_tree(texts@),
{
    let ghost told = |text: String| JsonView::Text(text@);
    let mut items: Vec<Json> = Vec::new();
    let mut i: usize = 0;
    while i < texts.len()
        invariant
            i <= texts.len(),
            items@.len() == i,
            forall|k: int| 0 <= k < i ==> (#[trigger] items@[k])@ == JsonView::Text(texts@[k]@),
        decreases texts.len() - i,
    {
        items.push(text_json(texts[i].as_str()));
        i = i + 1;
    }
    proof {
        lemma_array_view(items);
        assert(items_view(items@) =~= texts@.map_values(told));
    }
    Json::Array(items)
}

/// A value that may be missing.
pub open spec fn optional_tree(value: Option<Json>) -> JsonView {
    match value {
        Some(value) => value@,
        None => JsonView::Null,
    }
}

fn optional_json(value: &Option<Json>) -> (copy: Json)
    ensures
        copy@ == optional_tree(*value),
{
    match value {
        Some(value) => value.clone(),
        None => Json::Null,
    }
}

impl PolicyDecisionInput {
    /// What the decision may rest on, as a document.
    pub open spec fn tree(self) -> JsonView {
        JsonView::Object(
            seq![
                member("room_id"@, JsonView::Text(uuid_text(self.room_id.0))),
                member("hand_id"@, JsonView::Text(uuid_text(self.hand_id.0))),
                member("seat_id"@, number_tree(self.seat_id as u64)),
                member("legal_actions"@, texts_tree(self.legal_actions@)),
                member("public_state_json"@, self.public_state_json@),
                member("private_state_json"@, optional_tree(self.private_state_json)),
                member("decision_context_json"@, optional_tree(self.decision_context_json)),
            ],
        )
    }

    /// What the decision may rest on, as a document.
    pub fn to_json(&self) -> (value: Json)
        ensures
            value@ == self.tree(),
    {
        let mut members: Vec<(String, Json)> = Vec::new();
        members.push((owned("room_id"), id_json(self.room_id.0)));
        members.push((owned("hand_id"), id_json(self.hand_id.0)));
        members.push((owned("seat_id"), number_json(self.seat_id as u64)));
        members.push((owned("legal_actions"), texts_json(&self.legal_actions)));
        members.push((owned("public_state_json"), self.public_state_json.clone()));
        members.push((owned("private_state_json"), optional_json(&self.private_state_json)));
        members.push((owned("decision_context_json"), optional_json(&self.decision_context_json)));
        let value = object(members);
        assert(value@->Object_0 =~= self.tree()->Object_0);
        value
    }
}

/// What the tool that decides is told to do.
pub const INSTRUCTION: &'static str =
    "Choose exactly one legal action. private_state_json.decrypted_hole_cards_pretty uses human-readable cards (e.g. As, Td); if unavailable, decode decrypted_hole_cards via private_state_json.card_index_encoding. Output ONLY JSON: {\"action_type\":\"fold|check|call|raise_to|all_in\",\"amount\":\"u128 string or null\",\"rationale\":\"short\"}";

/// What the tool that decides is asked, as a document.
pub open spec fn prompt_tree(input: PolicyDecisionInput) -> JsonView {
    JsonView::Object(
        seq![
            member("task"@, JsonView::Text("poker_action_decision"@)),
            member("instruction"@, JsonView::Text(INSTRUCTION@)),
            member("input"@, input.tree()),
        ],
    )
}

/// What the tool that decides is asked, with the members of every object in order.
pub fn decision_prompt(input: &PolicyDecisionInput) -> (prompt: String)
    ensures
        prompt@ == json_text(canonical(prompt_tree(*input))),
{
    let mut members: Vec<(String, Json)> = Vec::new();
    members.push((owned("task"), text_json("poker_action_decision")));
    members.push((owned("instruction"), text_json(INSTRUCTION)));
    members.push((owned("input"), input.to_json()));
    let value = object(members);
    assert(value@->Object_0 =~= prompt_tree(*input)->Object_0);
    canonicalize_json(&value).to_text()
}

/// The action with a name, whatever its case and the space around it.
pub open spec fn named_action(raw: Seq<char>) -> Option<ActionType> {
    let name = lowered(trimmed(raw));
    if name == "fold"@ {
        Some(ActionType::Fold)
    } else if name == "check"@ {
        Some(ActionType::Check)
    } else if name == "call"@ {
        Some(ActionType::Call)
    } else if name == "raise_to"@ {
        Some(ActionType::RaiseTo)
    } else if name == "all_in"@ {
        Some(ActionType::AllIn)
    } else {
        None
    }
}

/// The action with a name, whatever its case and the space around it.
pub fn parse_action_type(raw: &str) -> (action: Option<ActionType>)
    ensures
        action == named_action(raw@),
{
    let low = text_of(&lower(&trim(&chars_of(raw))));
    let name = low.as_str();
    if same_text(name, "fold") {
        Some(ActionType::Fold)
    } else if same_text(name, "check") {
        Some(ActionType::Check)
    } else if same_text(name, "call") {
        Some(ActionType::Call)
    } else if same_text(name, "raise_to") {
        Some(ActionType::RaiseTo)
    } else if same_text(name, "all_in") {
        Some(ActionType::AllIn)
    } else {
        None
    }
}

/// Every action is found by its name in documents.
pub proof fn action_names_are_found(action: ActionType)
    ensures
        named_action(action.spec_name()) == Some(action),
{
    reveal_strlit("fold");
    reveal_strlit("check");
    reveal_strlit("call");
    reveal_strlit("raise_to");
    reveal_strlit("all_in");
    let name = action.spec_name();
    assert(trimmed(name) == name) by {
        reveal_with_fuel(crate::text::trimmed_start, 2);
        reveal_with_fuel(crate::text::trimmed_end, 2);
    }
    assert(lowered(name) =~= name);
    assert("fold"@.len() == 4 && "check"@.len() == 5 && "call"@.len() == 4 && "raise_to"@.len() == 8
        && "all_in"@.len() == 6);
    assert("fold"@[0] == 'f' && "call"@[0] == 'c');
}

/// The amount that a text gives, where there is one.
pub open spec fn amount_in(raw: Option<String>) -> Result<Option<Chips>, PolicyAdapterError> {
    match raw {
        None => Ok(None),
        Some(text) => match read_number(text@, 10, u128::MAX as int) {
            Ok(n) => Ok(Some(Chips(n as u128))),
            Err(_) => Err(PolicyAdapterError::InvalidDecision),
        },
    }
}

/// The amount that a text gives, where there is one.
pub fn parse_amount(raw: &Option<String>) -> (amount: Result<Option<Chips>, PolicyAdapterError>)
    ensures
        amount == amount_in(*raw),
{
    match raw {
        None => Ok(None),
        Some(text) => match parse_number(&chars_of(text.as_str()), 10, u128::MAX) {
            Ok(n) => Ok(Some(Chips(n))),
            Err(_) => Err(PolicyAdapterError::InvalidDecision),
        },
    }
}

/// What stands from the first opening brace to the last closing one.
pub open spec fn braced(text: Seq<char>) -> Option<Seq<char>> {
    match (text.index_of_first('{'), text.index_of_last('}')) {
        (Some(start), Some(end)) => if end > start {
            Some(text.subrange(start, end + 1))
        } else {
            None
        },
        _ => None,
    }
}

/// What stands from the first opening brace to the last closing one.
pub fn extract_json_object(text: &str) -> (found: Option<String>)
    ensures
        match braced(text@) {
            Some(inner) => found is Some && found->0@ == inner,
            None => found is None,
        },
{
    let chars = chars_of(text);
    let ghost all = chars@;
    proof {
        all.index_of_first_ensures('{');
        all.index_of_last_ensures('}');
    }
    let mut start: usize = 0;
    while start < chars.len() && chars[start] != '{'
        invariant
            start <= chars.len(),
            forall|j: int| 0 <= j < start ==> chars@[j] != '{',
        decreases chars.len() - start,
    {
        start = start + 1;
    }
    if start == chars.len() {
        assert(!all.contains('{'));
        return None;
    }
    assert(all.contains('{')) by {
        assert(all[start as int] == '{');
    }
    assert(all.index_of_first('{') == Some(start as int));
    let mut end: usize = chars.len();
    while end > 0 && chars[end - 1] != '}'
        invariant
            end <= chars.len(),
            forall|j: int| end <= j < chars.len() ==> chars@[j] != '}',
        decreases end,
    {
        end = end - 1;
    }
    if end == 0 {
        assert(!all.contains('}'));
        return None;
    }
    assert(all.contains('}')) by {
        assert(all[end - 1] == '}');
    }
    assert(all.index_of_last('}') == Some(end - 1));
    if end - 1 > start {
        Some(text_of(&part(&chars, start, end)))
    } else {
        None
    }
}

/// What the tool that decides answers.
#[derive(Debug, PartialEq, Eq)]
pub struct CodexDecisionRaw {
    pub action_type: String,
    pub amount: Option<String>,
    pub rationale: Option<String>,
}

/// What came of asking the tool that decides: what its whole output says, and what the braced
/// part of it says.
#[derive(Debug, PartialEq, Eq)]
pub struct CodexReply {
    pub whole: Option<CodexDecisionRaw>,
    pub braced: Option<CodexDecisionRaw>,
}

/// What the answer says: the whole of it, or else its braced part.
pub open spec fn said(reply: CodexReply) -> Option<CodexDecisionRaw> {
    match reply.whole {
        Some(raw) => Some(raw),
        None => reply.braced,
    }
}

/// Whether an answer names an action among the choices and an amount that can be read.
pub open spec fn acceptable(raw: CodexDecisionRaw, legal_actions: Seq<String>) -> bool {
    &&& named_action(raw.action_type@) is Some
    &&& lists(legal_actions, named_action(raw.action_type@)->0.spec_label())
    &&& amount_in(raw.amount) is Ok
}

/// Asks a tool to decide.
#[derive(Debug, PartialEq, Eq)]
pub struct CodexCliPolicyAdapter {
    pub bin: String,
    pub args: Vec<String>,
    pub timeout_ms: u64,
}

impl CodexCliPolicyAdapter {
    pub fn new(bin: String, args: Vec<String>, timeout_ms: u64) -> (policy: CodexCliPolicyAdapter)
        ensures
            policy == (CodexCliPolicyAdapter { bin: bin, args: args, timeout_ms: timeout_ms }),
    {
        CodexCliPolicyAdapter { bin: bin, args: args, timeout_ms: timeout_ms }
    }

    /// What the tool decided; no reply means that the tool could not be asked.
    pub fn decide_action(&self, input: &PolicyDecisionInput, reply: Option<CodexReply>) -> (decision:
        Result<Option<PolicyDecision>, PolicyAdapterError>)
        ensures
            reply is None ==> decision == Err::<Option<PolicyDecision>, PolicyAdapterError>(
                PolicyAdapterError::BackendUnavailable,
            ),
            reply is Some ==> match said(reply->0) {
                Some(raw) if acceptable(raw, input.legal_actions@) => {
                    &&& decision is Ok
                    &&& decision->Ok_0 is Some
                    &&& Some(decision->Ok_0->0.action_type) == named_action(raw.action_type@)
                    &&& Ok::<Option<Chips>, PolicyAdapterError>(decision->Ok_0->0.amount)
                        == amount_in(raw.amount)
                    &&& decision->Ok_0->0.rationale == raw.rationale
                    &&& decision->Ok_0->0.source == PolicySource::Llm
                },
                _ => decision == Err::<Option<PolicyDecision>, PolicyAdapterError>(
                    PolicyAdapterError::InvalidDecision,
                ),
            },
    {
        let answer = match reply {
            Some(reply) => reply,
            None => {
                return Err(PolicyAdapterError::BackendUnavailable);
            },
        };
        let raw = match answer.whole {
            Some(raw) => raw,
            None => match answer.braced {
                Some(raw) => raw,
                None => {
                    return Err(PolicyAdapterError::InvalidDecision);
                },
            },
        };
        let action_type = match parse_action_type(raw.action_type.as_str()) {
            Some(action) => action,
            None => {
                return Err(PolicyAdapterError::InvalidDecision);
            },
        };
        if !contains_text(&input.legal_actions, action_type.label()) {
            return Err(PolicyAdapterError::InvalidDecision);
        }
        match parse_amount(&raw.amount) {
            Ok(amount) => Ok(
                Some(
                    PolicyDecision {
                        action_type: action_type,
                        amount: amount,
                        rationale: raw.rationale,
                        source: PolicySource::Llm,
                    },
                ),
            ),
            Err(error) => Err(error),
        }
    }
}

/// One decision of the past.
#[derive(Debug, PartialEq, Eq)]
pub struct DecisionContextEntry {
    pub hand_id: HandId,
    pub seat_id: SeatId,
    pub legal_actions: Vec<String>,
    pub chosen_action: Option<String>,
    pub rationale: Option<String>,
}

impl DecisionContextEntry {
    /// The decision as a document.
    pub open spec fn tree(self) -> JsonView {
        JsonView::Object(
            seq![
                member("hand_id"@, JsonView::Text(uuid_text(self.hand_id.0))),
                member("seat_id"@, number_tree(self.seat_id as u64)),
                member("legal_actions"@, texts_tree(self.legal_actions@)),
                member("chosen_action"@, optional_text_tree(self.chosen_action)),
                member("rationale"@, optional_text_tree(self.rationale)),
            ],
        )
    }

    /// The decision as a document.
    pub fn to_json(&self) -> (value: Json)
        ensures
            value@ == self.tree(),
    {
        let mut members: Vec<(String, Json)> = Vec::new();
        members.push((owned("hand_id"), id_json(self.hand_id.0)));
        members.push((owned("seat_id"), number_json(self.seat_id as u64)));
        members.push((owned("legal_actions"), texts_json(&self.legal_actions)));
        members.push((owned("chosen_action"), optional_text_json(&self.chosen_action)));
        members.push((owned("rationale"), optional_text_json(&self.rationale)));
        let value = object(members);
        assert(value@->Object_0 =~= self.tree()->Object_0);
        value
    }
}

/// The latest of some things, no more of them than a bound.
pub open spec fn latest<T>(all: Seq<T>, bound: nat) -> Seq<T> {
    if all.len() > bound {
        all.skip(all.len() - bound)
    } else {
        all
    }
}

/// The latest decisions.
#[derive(Debug)]
pub struct DecisionContextManager {
    max_entries: usize,
    entries: VecDeque<DecisionContextEntry>,
}

impl Default for DecisionContextManager {
    /// One that keeps nothing.
    fn default() -> (manager: DecisionContextManager)
        ensures
            manager.bound() == 0,
            manager.kept() == Seq::<DecisionContextEntry>::empty(),
    {
        DecisionContextManager { max_entries: 0, entries: VecDeque::new() }
    }
}

impl DecisionContextManager {
    /// How many decisions are kept at most.
    pub closed spec fn bound(self) -> nat {
        self.max_entries as nat
    }

    /// The decisions that are kept, the oldest first.
    pub closed spec fn kept(self) -> Seq<DecisionContextEntry> {
        self.entries@
    }

    /// One that keeps so many decisions, but at least one.
    pub fn with_max_entries(max_entries: usize) -> (manager: DecisionContextManager)
        ensures
            manager.bound() == (if max_entries >= 1 {
                max_entries as nat
            } else {
                1
            }),
            manager.kept() == Seq::<DecisionContextEntry>::empty(),
    {
        let bound: usize = if max_entries >= 1 {
            max_entries
        } else {
            1
        };
        DecisionContextManager { max_entries: bound, entries: VecDeque::new() }
    }

    /// Adds a decision and forgets the oldest ones beyond the bound.
    pub fn push(&mut self, entry: DecisionContextEntry)
        ensures
            final(self).bound() == old(self).bound(),
            final(self).kept() == latest(old(self).kept().push(entry), old(self).bound()),
            final(self).kept().len() <= final(self).bound(),
    {
        self.entries.push_back(entry);
        let ghost all = self.entries@;
        while self.entries.len() > self.max_entries
            invariant
                all == old(self).kept().push(entry),
                self.max_entries == old(self).max_entries,
                self.entries@.len() <= all.len(),
                self.entries@ == all.skip(all.len() - self.entries@.len()),
                all.len() > self.max_entries ==> self.entries@.len() >= self.max_entries,
                all.len() <= self.max_entries ==> self.entries@ == all,
            decreases self.entries@.len(),
        {
            let ghost before = self.entries@;
            let _ = self.entries.pop_front();
            assert(self.entries@ =~= all.skip(all.len() - self.entries@.len()));
        }
    }

    /// The decisions as a document, the oldest first.
    pub fn as_json(&self) -> (value: Json)
        ensures
            value@ == JsonView::Array(
                self.kept().map_values(|entry: DecisionContextEntry| entry.tree()),
            ),
    {
        let ghost told = |entry: DecisionContextEntry| entry.tree();
        let mut items: Vec<Json> = Vec::new();
        let mut i: usize = 0;
        while i < self.entries.len()
            invariant
                i <= self.entries@.len(),
                items@.len() == i,
                forall|k: int| 0 <= k < i ==> (#[trigger] items@[k])@ == self.entries@[k].tree(),
            decreases self.entries@.len() - i,
        {
            items.push(self.entries[i].to_json());
            i = i + 1;
        }
        proof {
            lemma_array_view(items);
            assert(items_view(items@) =~= self.kept().map_values(told));
        }
        Json::Array(items)
    }
}

/// Whatever was decided before, the decisions kept after another one are the latest of all
/// decisions ever made.
pub proof fn kept_are_the_latest_of_all<T>(all: Seq<T>, next: T, bound: nat)
    ensures
        latest(latest(all, bound).push(next), bound) == latest(all.push(next), bound),
{
    assert(latest(latest(all, bound).push(next), bound) =~= latest(all.push(next), bound));
}

} // verus!
