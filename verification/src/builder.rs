//! The accumulators that the normalizer fills while it reads a transcript:
//! one per action, one per turn, one for the conversation.

use crate::json::{JsonModel, JsonValue};
use crate::text::{
    lemma_text_lt_asymmetric, lemma_text_lt_connected, lemma_text_lt_transitive, str_eq,
    text_less, text_lt,
};
use crate::timestamp::Timestamp;
use crate::types::{
    ActionEvent, ActionEventModel, ActionKind, ActionModel, ActionOutput,
    ActionRecord, ActionStatus, ActionStatusModel, ConversationModel, ConversationRecord,
    FallbackModel, FallbackSource, FallbackSummary, TelemetryModel, TokenUsageBreakdown,
    TokenUsageSummary, TurnContextInfo, TurnContextModel, TurnModel, TurnRecord, TurnResult,
    TurnResultModel, TurnTelemetry, UserInputModel, UserInputRecord,
};
use crate::views::{deep, lemma_deep_of_vec, lemma_deep_push, lemma_vec_pushed};
use vstd::prelude::*;

verus! {

/// An action under construction. Its view is the action gathered so far.
#[derive(Clone, Debug)]
pub struct ActionRecordBuilder {
    call_id: Option<String>,
    kind: ActionKind,
    arguments: Option<JsonValue>,
    output: Option<ActionOutput>,
    status: ActionStatus,
    events: Vec<ActionEvent>,
}

impl View for ActionRecordBuilder {
    type V = ActionModel;

    closed spec fn view(&self) -> ActionModel {
        ActionModel {
            call_id: self.call_id.deep_view(),
            kind: self.kind@,
            arguments: self.arguments.deep_view(),
            output: self.output.deep_view(),
            status: self.status@,
            events: self.events.deep_view(),
        }
    }
}

impl DeepView for ActionRecordBuilder {
    type V = ActionModel;

    open spec fn deep_view(&self) -> ActionModel {
        self@
    }
}

impl ActionRecordBuilder {
    /// An action of which nothing but its call id is known.
    pub fn new(call_id: Option<String>) -> (out: Self)
        ensures
            out@ == ActionModel::fresh(call_id.deep_view()),
    {
        let out = ActionRecordBuilder {
            call_id,
            kind: ActionKind::default(),
            arguments: None,
            output: None,
            status: ActionStatus::default(),
            events: Vec::new(),
        };
        proof {
            assert(out.events.deep_view() =~= Seq::empty());
        }
        out
    }

    /// The call id that the action was opened with.
    pub fn call_id(&self) -> (out: &Option<String>)
        ensures
            out.deep_view() == self@.call_id,
    {
        &self.call_id
    }

    /// Sets the kind of the action.
    pub fn set_kind(&mut self, kind: ActionKind)
        ensures
            final(self)@ == (ActionModel { kind: kind@, ..old(self)@ }),
    {
        self.kind = kind;
    }

    /// Sets the arguments of the action.
    pub fn set_arguments(&mut self, args: Option<JsonValue>)
        ensures
            final(self)@ == (ActionModel { arguments: args.deep_view(), ..old(self)@ }),
    {
        self.arguments = args;
    }

    /// Sets the output of the action.
    pub fn set_output(&mut self, output: ActionOutput)
        ensures
            final(self)@ == (ActionModel { output: Some(output@), ..old(self)@ }),
    {
        self.output = Some(output);
    }

    /// Sets the status that the action's own records state.
    pub fn update_status_text(&mut self, status: Option<String>)
        ensures
            final(self)@ == (ActionModel {
                status: ActionStatusModel {
                    status_text: status.deep_view(),
                    ..old(self)@.status
                },
                ..old(self)@
            }),
    {
        self.status.status_text = status;
    }

    /// Sets the status that the local process reports.
    pub fn update_local_status(&mut self, status: Option<String>)
        ensures
            final(self)@ == (ActionModel {
                status: ActionStatusModel {
                    local_status: status.deep_view(),
                    ..old(self)@.status
                },
                ..old(self)@
            }),
    {
        self.status.local_status = status;
    }

    /// Appends a raw record to the action's events.
    pub fn push_event(&mut self, timestamp: Timestamp, kind: String, data: JsonValue)
        ensures
            final(self)@ == (ActionModel {
                events: old(self)@.events.push(
                    ActionEventModel { timestamp, kind: kind@, data: data@ },
                ),
                ..old(self)@
            }),
    {
        let ghost before = self.events@;
        let event = ActionEvent { timestamp, kind, data };
        self.events.push(event);
        proof {
            lemma_vec_pushed(before, self.events, event);
            assert(old(self).events.deep_view() =~= deep(before));
        }
    }

    /// The finished action.
    pub fn finish(self) -> (out: ActionRecord)
        ensures
            out@ == self@,
    {
        ActionRecord {
            call_id: self.call_id,
            kind: self.kind,
            arguments: self.arguments,
            output: self.output,
            status: self.status,
            events: self.events,
        }
    }
}

/// The call id of a keyed action; empty for an action without one.
pub open spec fn key_of(action: ActionModel) -> Seq<char> {
    match action.call_id {
        Some(id) => id,
        None => Seq::empty(),
    }
}

/// Number of leading actions whose call id comes before `id`.
pub open spec fn rank(actions: Seq<ActionModel>, id: Seq<char>) -> nat
    decreases actions.len(),
{
    if actions.len() > 0 && text_lt(key_of(actions[0]), id) {
        1 + rank(actions.drop_first(), id)
    } else {
        0
    }
}

/// Whether the action at `id`'s rank carries `id`.
pub open spec fn holds(actions: Seq<ActionModel>, id: Seq<char>) -> bool {
    rank(actions, id) < actions.len() && actions[rank(actions, id) as int].call_id == Some(id)
}

/// Whether the keyed actions stand in strictly ascending order of call id.
pub open spec fn keyed_in_order(actions: Seq<ActionModel>) -> bool {
    &&& forall|i: int| 0 <= i < actions.len() ==> (#[trigger] actions[i]).call_id is Some
    &&& forall|i: int, j: int|
        0 <= i < j < actions.len() ==> text_lt(
            key_of(#[trigger] actions[i]),
            key_of(#[trigger] actions[j]),
        )
}

/// The actions before `id`'s rank come before `id`; the one at the rank does
/// not.
pub proof fn lemma_rank_splits(actions: Seq<ActionModel>, id: Seq<char>)
    ensures
        rank(actions, id) <= actions.len(),
        forall|i: int|
            0 <= i < rank(actions, id) ==> text_lt(key_of(#[trigger] actions[i]), id),
        rank(actions, id) < actions.len() ==> !text_lt(
            key_of(actions[rank(actions, id) as int]),
            id,
        ),
    decreases actions.len(),
{
    if actions.len() > 0 && text_lt(key_of(actions[0]), id) {
        let rest = actions.drop_first();
        lemma_rank_splits(rest, id);
        assert forall|i: int| 0 <= i < rank(actions, id) implies text_lt(
            key_of(#[trigger] actions[i]),
            id,
        ) by {
            if i > 0 {
                assert(actions[i] == rest[i - 1]);
            }
        }
        if rank(actions, id) < actions.len() {
            assert(actions[rank(actions, id) as int] == rest[rank(rest, id) as int]);
        }
    }
}

/// A turn under construction.
#[derive(Clone, Debug)]
pub struct TurnBuilder {
    pub index: usize,
    pub started_at: Option<Timestamp>,
    pub context: Option<TurnContextInfo>,
    pub user_inputs: Vec<UserInputRecord>,
    pub assistant_messages: Vec<String>,
    pub reasoning_summaries: Vec<String>,
    pub reasoning_encrypted: bool,
    pub fallback_reasoning: Option<String>,
    pub fallback_tool_output: Option<String>,
    pub fallback_event: Option<String>,
    /// The actions that carry a call id, in ascending order of it.
    pub actions: Vec<ActionRecordBuilder>,
    /// The actions without a call id, in order of arrival.
    pub anonymous_actions: Vec<ActionRecordBuilder>,
    pub telemetry: TurnTelemetry,
}

/// The mathematical value of a [`TurnBuilder`].
pub struct TurnBuilderModel {
    pub index: usize,
    pub started_at: Option<Timestamp>,
    pub context: Option<TurnContextModel>,
    pub user_inputs: Seq<UserInputModel>,
    pub assistant_messages: Seq<Seq<char>>,
    pub reasoning_summaries: Seq<Seq<char>>,
    pub reasoning_encrypted: bool,
    pub fallback_reasoning: Option<Seq<char>>,
    pub fallback_tool_output: Option<Seq<char>>,
    pub fallback_event: Option<Seq<char>>,
    pub actions: Seq<ActionModel>,
    pub anonymous_actions: Seq<ActionModel>,
    pub telemetry: TelemetryModel,
}

impl View for TurnBuilder {
    type V = TurnBuilderModel;

    open spec fn view(&self) -> TurnBuilderModel {
        TurnBuilderModel {
            index: self.index,
            started_at: self.started_at,
            context: self.context.deep_view(),
            user_inputs: self.user_inputs.deep_view(),
            assistant_messages: self.assistant_messages.deep_view(),
            reasoning_summaries: self.reasoning_summaries.deep_view(),
            reasoning_encrypted: self.reasoning_encrypted,
            fallback_reasoning: self.fallback_reasoning.deep_view(),
            fallback_tool_output: self.fallback_tool_output.deep_view(),
            fallback_event: self.fallback_event.deep_view(),
            actions: self.actions.deep_view(),
            anonymous_actions: self.anonymous_actions.deep_view(),
            telemetry: self.telemetry@,
        }
    }
}

impl DeepView for TurnBuilder {
    type V = TurnBuilderModel;

    open spec fn deep_view(&self) -> TurnBuilderModel {
        self@
    }
}

impl TurnBuilderModel {
    /// A turn that has just been opened.
    pub open spec fn opened(
        index: usize,
        started_at: Option<Timestamp>,
        context: Option<TurnContextModel>,
    ) -> TurnBuilderModel {
        TurnBuilderModel {
            index,
            started_at,
            context,
            user_inputs: Seq::empty(),
            assistant_messages: Seq::empty(),
            reasoning_summaries: Seq::empty(),
            reasoning_encrypted: false,
            fallback_reasoning: None,
            fallback_tool_output: None,
            fallback_event: None,
            actions: Seq::empty(),
            anonymous_actions: Seq::empty(),
            telemetry: TelemetryModel::empty(),
        }
    }

    /// The keyed actions are in strictly ascending order of call id, and no
    /// anonymous action carries one.
    pub open spec fn wf(self) -> bool {
        &&& keyed_in_order(self.actions)
        &&& forall|i: int|
            0 <= i < self.anonymous_actions.len() ==> (#[trigger] self.anonymous_actions[i]).call_id
                is None
    }

    /// The action that records for `call_id` accumulate onto: the one that
    /// carries the id, or a fresh one.
    pub open spec fn slot(self, call_id: Option<Seq<char>>) -> ActionModel {
        match call_id {
            Some(id) => if holds(self.actions, id) {
                self.actions[rank(self.actions, id) as int]
            } else {
                ActionModel::fresh(Some(id))
            },
            None => ActionModel::fresh(None),
        }
    }

    /// The turn with `action` in the slot of `call_id`.
    pub open spec fn with_slot(
        self,
        call_id: Option<Seq<char>>,
        action: ActionModel,
    ) -> TurnBuilderModel {
        match call_id {
            Some(id) => if holds(self.actions, id) {
                TurnBuilderModel {
                    actions: self.actions.update(rank(self.actions, id) as int, action),
                    ..self
                }
            } else {
                TurnBuilderModel {
                    actions: self.actions.insert(rank(self.actions, id) as int, action),
                    ..self
                }
            },
            None => TurnBuilderModel {
                anonymous_actions: self.anonymous_actions.push(action),
                ..self
            },
        }
    }

    /// Whether nothing has been recorded that would keep the turn.
    pub open spec fn is_empty(self) -> bool {
        &&& self.user_inputs.len() == 0
        &&& self.assistant_messages.len() == 0
        &&& self.actions.len() == 0
        &&& self.anonymous_actions.len() == 0
        &&& self.reasoning_summaries.len() == 0
        &&& self.telemetry.token_counts.len() == 0
    }

    /// The substitute for a missing assistant message: the latest reasoning
    /// summary, else the latest tool output, else the latest live message.
    pub open spec fn fallback(self) -> Option<FallbackModel> {
        if self.assistant_messages.len() > 0 {
            None
        } else if let Some(text) = self.fallback_reasoning {
            Some(FallbackModel { source: FallbackSource::AssistantReasoning, text })
        } else if let Some(text) = self.fallback_tool_output {
            Some(FallbackModel { source: FallbackSource::ToolOutput, text })
        } else if let Some(text) = self.fallback_event {
            Some(FallbackModel { source: FallbackSource::EventStream, text })
        } else {
            None
        }
    }

    /// The turn as it is emitted: the anonymous actions in order of arrival,
    /// then the keyed ones in ascending order of call id.
    pub open spec fn finished(self) -> TurnModel {
        TurnModel {
            index: self.index,
            started_at: self.started_at,
            context: self.context,
            user_inputs: self.user_inputs,
            result: TurnResultModel {
                assistant_messages: self.assistant_messages,
                fallback: self.fallback(),
                reasoning_summaries: self.reasoning_summaries,
                reasoning_encrypted: self.reasoning_encrypted,
            },
            actions: self.anonymous_actions + self.actions,
            telemetry: self.telemetry,
        }
    }
}

/// Finishes every builder of `builders` and appends the actions to `out`.
fn finish_all(builders: Vec<ActionRecordBuilder>, out: &mut Vec<ActionRecord>)
    ensures
        final(out).deep_view() == old(out).deep_view() + builders.deep_view(),
{
    let ghost base = out.deep_view();
    let ghost all = builders@;
    proof {
        lemma_deep_of_vec(builders);
        assert(base + deep(all.take(0)) =~= base);
    }
    for builder in it: builders
        invariant
            it.seq() == all,
            out.deep_view() == base + deep(all.take(it.index() as int)),
    {
        let ghost before = out@;
        let ghost done = it.index() as int;
        let record = builder.finish();
        out.push(record);
        proof {
            lemma_vec_pushed(before, *out, record);
            lemma_deep_of_vec(*out);
            assert(deep(before) =~= base + deep(all.take(done)));
            assert(all.take(done + 1) =~= all.take(done).push(all[done]));
            lemma_deep_push(all.take(done), all[done]);
            assert(base + deep(all.take(done + 1)) =~= (base + deep(all.take(done))).push(
                record@,
            ));
        }
    }
    proof {
        assert(all.take(all.len() as int) =~= all);
    }
}

impl TurnBuilder {
    /// A turn that has just been opened.
    pub fn open(index: usize, started_at: Option<Timestamp>, context: Option<TurnContextInfo>) -> (out:
        Self)
        ensures
            out@ == TurnBuilderModel::opened(index, started_at, context.deep_view()),
            out@.wf(),
    {
        let out = TurnBuilder {
            index,
            started_at,
            context,
            user_inputs: Vec::new(),
            assistant_messages: Vec::new(),
            reasoning_summaries: Vec::new(),
            reasoning_encrypted: false,
            fallback_reasoning: None,
            fallback_tool_output: None,
            fallback_event: None,
            actions: Vec::new(),
            anonymous_actions: Vec::new(),
            telemetry: TurnTelemetry::default(),
        };
        proof {
            assert(out.user_inputs.deep_view() =~= Seq::empty());
            assert(out.assistant_messages.deep_view() =~= Seq::empty());
            assert(out.reasoning_summaries.deep_view() =~= Seq::empty());
            assert(out.actions.deep_view() =~= Seq::empty());
            assert(out.anonymous_actions.deep_view() =~= Seq::empty());
        }
        out
    }

    /// Sets the start of the turn unless it has one.
    pub fn ensure_started_at(&mut self, timestamp: Timestamp)
        ensures
            final(self)@ == (TurnBuilderModel {
                started_at: if old(self)@.started_at is None {
                    Some(timestamp)
                } else {
                    old(self)@.started_at
                },
                ..old(self)@
            }),
    {
        if self.started_at.is_none() {
            self.started_at = Some(timestamp);
        }
    }

    /// Appends a user input.
    pub fn push_user_input(&mut self, input: UserInputRecord)
        ensures
            final(self)@ == (TurnBuilderModel {
                user_inputs: old(self)@.user_inputs.push(input@),
                ..old(self)@
            }),
    {
        let ghost before = self.user_inputs@;
        self.user_inputs.push(input);
        proof {
            lemma_vec_pushed(before, self.user_inputs, input);
            assert(old(self).user_inputs.deep_view() =~= deep(before));
        }
    }

    /// Appends an assistant message.
    pub fn push_assistant_message(&mut self, message: String)
        ensures
            final(self)@ == (TurnBuilderModel {
                assistant_messages: old(self)@.assistant_messages.push(message@),
                ..old(self)@
            }),
    {
        let ghost before = self.assistant_messages@;
        self.assistant_messages.push(message);
        proof {
            lemma_vec_pushed(before, self.assistant_messages, message);
            assert(old(self).assistant_messages.deep_view() =~= deep(before));
        }
    }

    /// Records a reasoning summary; it also becomes the reasoning candidate
    /// for the turn's fallback.
    pub fn push_reasoning_summary(&mut self, summary: String)
        ensures
            final(self)@ == (TurnBuilderModel {
                reasoning_summaries: old(self)@.reasoning_summaries.push(summary@),
                fallback_reasoning: Some(summary@),
                ..old(self)@
            }),
    {
        let ghost before = self.reasoning_summaries@;
        let copy = summary.clone();
        self.reasoning_summaries.push(copy);
        proof {
            lemma_vec_pushed(before, self.reasoning_summaries, copy);
            assert(old(self).reasoning_summaries.deep_view() =~= deep(before));
        }
        self.fallback_reasoning = Some(summary);
    }

    /// Notes that a reasoning record carried an opaque payload.
    pub fn mark_reasoning_encrypted(&mut self)
        ensures
            final(self)@ == (TurnBuilderModel { reasoning_encrypted: true, ..old(self)@ }),
    {
        self.reasoning_encrypted = true;
    }

    /// Makes `text` the tool-output candidate for the turn's fallback.
    pub fn record_tool_output_text(&mut self, text: String)
        ensures
            final(self)@ == (TurnBuilderModel { fallback_tool_output: Some(text@), ..old(self)@ }),
    {
        self.fallback_tool_output = Some(text);
    }

    /// Makes `text` the live candidate for the turn's fallback.
    pub fn record_event_agent_message(&mut self, text: String)
        ensures
            final(self)@ == (TurnBuilderModel { fallback_event: Some(text@), ..old(self)@ }),
    {
        self.fallback_event = Some(text);
    }

    /// The builder that records for `call_id` accumulate onto: the one that
    /// carries the id, or a fresh one, which is put in its place among the
    /// keyed actions or, without an id, at the end of the anonymous ones.
    pub fn action_builder_mut(&mut self, call_id: Option<&str>) -> (ret: &mut ActionRecordBuilder)
        ensures
            ret@ == old(self)@.slot(call_id.deep_view()),
            final(self)@ == old(self)@.with_slot(call_id.deep_view(), final(ret)@),
    {
        match call_id {
            Some(id) => {
                let n = self.actions.len();
                let mut i: usize = 0;
                let ghost models = self.actions.deep_view();
                proof {
                    lemma_rank_splits(models, id@);
                    assert(models.skip(0) =~= models);
                }
                loop
                    invariant
                        i <= n,
                        n == self.actions@.len(),
                        models == self.actions.deep_view(),
                        rank(models, id@) == i + rank(models.skip(i as int), id@),
                    ensures
                        i <= n,
                        i == rank(models, id@),
                    decreases n - i,
                {
                    if i >= n {
                        break;
                    }
                    let less = match self.actions[i].call_id() {
                        Some(own) => text_less(own.as_str(), id),
                        None => text_less("", id),
                    };
                    proof {
                        reveal_strlit("");
                        assert(models.skip(i as int)[0] == self.actions@[i as int]@);
                        assert(models.skip(i as int).drop_first() =~= models.skip(i + 1));
                        assert(""@ =~= Seq::<char>::empty());
                    }
                    if !less {
                        break;
                    }
                    i = i + 1;
                }
                let found = i < n && match self.actions[i].call_id() {
                    Some(own) => str_eq(own.as_str(), id),
                    None => false,
                };
                assert(found == holds(models, id@)) by {
                    if i < n {
                        assert(models[i as int] == self.actions@[i as int]@);
                    }
                }
                if !found {
                    let fresh = ActionRecordBuilder::new(Some(id.to_owned()));
                    self.actions.insert(i, fresh);
                    assert(self.actions.deep_view() =~= models.insert(i as int, fresh@));
                }
                let ghost before = self.actions.deep_view();
                let ghost before_seq = self.actions@;
                let ret = &mut self.actions[i];
                proof {
                    assert(before[i as int] == ret@);
                    let after_seq = before_seq.update(i as int, *final(ret));
                    assert(deep(after_seq) =~= before.update(i as int, final(ret)@));
                    if !found {
                        assert(models.insert(i as int, ret@).update(i as int, final(ret)@)
                            =~= models.insert(i as int, final(ret)@));
                    }
                }
                ret
            },
            None => {
                let fresh = ActionRecordBuilder::new(None);
                let ghost models = self.anonymous_actions.deep_view();
                self.anonymous_actions.push(fresh);
                let n = self.anonymous_actions.len();
                let ghost before = self.anonymous_actions.deep_view();
                let ghost before_seq = self.anonymous_actions@;
                assert(before =~= models.push(fresh@));
                let ret = &mut self.anonymous_actions[n - 1];
                proof {
                    let after_seq = before_seq.update(n - 1, *final(ret));
                    assert(deep(after_seq) =~= before.update(n - 1, final(ret)@));
                    assert(models.push(ret@).update(n - 1, final(ret)@) =~= models.push(
                        final(ret)@,
                    ));
                }
                ret
            },
        }
    }

    /// Whether nothing has been recorded that would keep the turn.
    pub fn is_empty(&self) -> (empty: bool)
        ensures
            empty == self@.is_empty(),
    {
        self.user_inputs.is_empty() && self.assistant_messages.is_empty()
            && self.actions.is_empty() && self.anonymous_actions.is_empty()
            && self.reasoning_summaries.is_empty() && self.telemetry.token_counts.is_empty()
    }

    /// The turn as it is emitted.
    pub fn finish(self) -> (out: TurnRecord)
        ensures
            out@ == self@.finished(),
    {
        let ghost model = self@;
        let TurnBuilder {
            index,
            started_at,
            context,
            user_inputs,
            assistant_messages,
            reasoning_summaries,
            reasoning_encrypted,
            fallback_reasoning,
            fallback_tool_output,
            fallback_event,
            actions: keyed,
            anonymous_actions,
            telemetry,
        } = self;
        let mut actions: Vec<ActionRecord> = Vec::new();
        proof {
            assert(actions.deep_view() =~= Seq::<ActionModel>::empty());
        }
        finish_all(anonymous_actions, &mut actions);
        finish_all(keyed, &mut actions);
        proof {
            assert(actions.deep_view() =~= model.anonymous_actions + model.actions);
        }
        let fallback = if !assistant_messages.is_empty() {
            None
        } else if let Some(text) = fallback_reasoning {
            Some(FallbackSummary { source: FallbackSource::AssistantReasoning, text })
        } else if let Some(text) = fallback_tool_output {
            Some(FallbackSummary { source: FallbackSource::ToolOutput, text })
        } else if let Some(text) = fallback_event {
            Some(FallbackSummary { source: FallbackSource::EventStream, text })
        } else {
            None
        };
        TurnRecord {
            index,
            started_at,
            context,
            user_inputs,
            result: TurnResult {
                assistant_messages,
                fallback,
                reasoning_summaries,
                reasoning_encrypted,
            },
            actions,
            telemetry,
        }
    }
}

impl TokenUsageSummary {
    /// The summary after a usage report: each snapshot that the report holds
    /// replaces the stored one, and so does the context-window size, read from
    /// `model_context_window` or, where that member is missing, from
    /// `model_context_window_tokens`.
    pub open spec fn updated(self, info: JsonModel) -> TokenUsageSummary {
        TokenUsageSummary {
            total: match info.field("total_token_usage"@) {
                Some(v) => Some(TokenUsageBreakdown::of(v)),
                None => self.total,
            },
            last: match info.field("last_token_usage"@) {
                Some(v) => Some(TokenUsageBreakdown::of(v)),
                None => self.last,
            },
            model_context_window: match (match info.field("model_context_window"@) {
                Some(v) => v.unsigned(),
                None => info.unsigned_at("model_context_window_tokens"@),
            }) {
                Some(window) => Some(window),
                None => self.model_context_window,
            },
        }
    }
}

/// A conversation under construction.
#[derive(Clone, Debug)]
pub struct ConversationBuilder {
    pub session_meta: Option<JsonValue>,
    /// The turns that have been closed and kept.
    pub turns: Vec<TurnRecord>,
    pub current_turn: Option<TurnBuilder>,
    pub first_timestamp: Option<Timestamp>,
    pub last_timestamp: Option<Timestamp>,
    pub token_usage: TokenUsageSummary,
}

/// The mathematical value of a [`ConversationBuilder`].
pub struct ConversationBuilderModel {
    pub session_meta: Option<JsonModel>,
    pub turns: Seq<TurnModel>,
    pub current_turn: Option<TurnBuilderModel>,
    pub first_timestamp: Option<Timestamp>,
    pub last_timestamp: Option<Timestamp>,
    pub token_usage: TokenUsageSummary,
}

impl View for ConversationBuilder {
    type V = ConversationBuilderModel;

    open spec fn view(&self) -> ConversationBuilderModel {
        ConversationBuilderModel {
            session_meta: self.session_meta.deep_view(),
            turns: self.turns.deep_view(),
            current_turn: self.current_turn.deep_view(),
            first_timestamp: self.first_timestamp,
            last_timestamp: self.last_timestamp,
            token_usage: self.token_usage,
        }
    }
}

impl ConversationBuilderModel {
    /// A conversation of which nothing has been read.
    pub open spec fn empty() -> ConversationBuilderModel {
        ConversationBuilderModel {
            session_meta: None,
            turns: Seq::empty(),
            current_turn: None,
            first_timestamp: None,
            last_timestamp: None,
            token_usage: TokenUsageSummary { total: None, last: None, model_context_window: None },
        }
    }

    /// Every kept turn carries its position as its index and holds something
    /// that keeps it, and the open turn, if there is one, carries the next
    /// index and is well formed.
    pub open spec fn wf(self) -> bool {
        &&& forall|i: int|
            0 <= i < self.turns.len() ==> (#[trigger] self.turns[i]).index == i
                && self.turns[i].kept()
        &&& match self.current_turn {
            Some(turn) => turn.index == self.turns.len() && turn.wf(),
            None => true,
        }
    }

    /// The conversation after a record was read that carries `timestamp`.
    pub open spec fn observed(self, timestamp: Timestamp) -> ConversationBuilderModel {
        ConversationBuilderModel {
            first_timestamp: if self.first_timestamp is None {
                Some(timestamp)
            } else {
                self.first_timestamp
            },
            last_timestamp: Some(timestamp),
            ..self
        }
    }

    /// The kept turns once the open turn is closed: it is kept unless it is
    /// empty.
    pub open spec fn closed_turns(self) -> Seq<TurnModel> {
        match self.current_turn {
            Some(turn) => if turn.is_empty() {
                self.turns
            } else {
                self.turns.push(turn.finished())
            },
            None => self.turns,
        }
    }

    /// The turn that a record at `timestamp` is attributed to: the open turn,
    /// or a new one without context.
    pub open spec fn current_or_opened(self, timestamp: Timestamp) -> TurnBuilderModel {
        match self.current_turn {
            Some(turn) => turn,
            None => TurnBuilderModel::opened(self.turns.len() as usize, Some(timestamp), None),
        }
    }

    /// The turn that a turn-context record at `timestamp` opens.
    pub open spec fn next_turn(self, context: TurnContextModel, timestamp: Timestamp) -> TurnBuilderModel {
        TurnBuilderModel::opened(self.closed_turns().len() as usize, Some(timestamp), Some(context))
    }

    /// Whole seconds from the first to the last timestamp seen, at most
    /// `u64::MAX`.
    pub open spec fn duration(self) -> Option<u64> {
        match (self.first_timestamp, self.last_timestamp) {
            (Some(start), Some(end)) => Some(
                if end.whole_seconds_since(start) <= u64::MAX {
                    end.whole_seconds_since(start) as u64
                } else {
                    u64::MAX
                },
            ),
            _ => None,
        }
    }

    /// Closing the open turn leaves every kept turn at its index and with
    /// something that keeps it.
    pub proof fn lemma_closed_turns_indexed(self)
        requires
            self.wf(),
        ensures
            forall|i: int|
                0 <= i < self.closed_turns().len() ==> (#[trigger] self.closed_turns()[i]).index
                    == i && self.closed_turns()[i].kept(),
            self.finalized().well_formed(),
    {
        match self.current_turn {
            Some(turn) => {
                if !turn.is_empty() {
                    let done = turn.finished();
                    assert(done.actions.len() == turn.anonymous_actions.len() + turn.actions.len());
                    assert(done.kept());
                }
            },
            None => {},
        }
    }

    /// The record of the conversation as read so far.
    pub open spec fn finalized(self) -> ConversationModel {
        ConversationModel {
            session_meta: self.session_meta,
            started_at: self.first_timestamp,
            ended_at: self.last_timestamp,
            duration_seconds: self.duration(),
            token_usage: self.token_usage,
            turns: self.closed_turns(),
        }
    }
}

impl Default for ConversationBuilder {
    fn default() -> (out: Self)
        ensures
            out@ == ConversationBuilderModel::empty(),
            out@.wf(),
    {
        let out = ConversationBuilder {
            session_meta: None,
            turns: Vec::new(),
            current_turn: None,
            first_timestamp: None,
            last_timestamp: None,
            token_usage: TokenUsageSummary::default(),
        };
        proof {
            assert(out.turns.deep_view() =~= Seq::empty());
        }
        out
    }
}

impl ConversationBuilder {
    /// Notes the timestamp of a record: the first one seen stays the start of
    /// the conversation, the latest one is its end.
    pub fn observe_timestamp(&mut self, timestamp: Timestamp)
        ensures
            final(self)@ == old(self)@.observed(timestamp),
    {
        if self.first_timestamp.is_none() {
            self.first_timestamp = Some(timestamp);
        }
        self.last_timestamp = Some(timestamp);
    }

    /// Takes over the usage snapshots of a token-count report.
    pub fn update_token_usage(&mut self, info: &JsonValue)
        ensures
            final(self)@ == (ConversationBuilderModel {
                token_usage: old(self)@.token_usage.updated(info@),
                ..old(self)@
            }),
    {
        if let Some(total) = info.get("total_token_usage") {
            self.token_usage.total = Some(TokenUsageBreakdown::from_value(total));
        }
        if let Some(last) = info.get("last_token_usage") {
            self.token_usage.last = Some(TokenUsageBreakdown::from_value(last));
        }
        let window = match info.get("model_context_window") {
            Some(v) => v.as_u64(),
            None => info.unsigned_at("model_context_window_tokens"),
        };
        if let Some(window) = window {
            self.token_usage.model_context_window = Some(window);
        }
    }

    /// Closes the open turn: it joins the kept turns unless it is empty.
    fn close_turn(&mut self)
        ensures
            final(self)@ == (ConversationBuilderModel {
                turns: old(self)@.closed_turns(),
                current_turn: None,
                ..old(self)@
            }),
    {
        if let Some(builder) = self.current_turn.take() {
            if !builder.is_empty() {
                let ghost before = self.turns@;
                let turn = builder.finish();
                self.turns.push(turn);
                proof {
                    lemma_vec_pushed(before, self.turns, turn);
                    assert(old(self).turns.deep_view() =~= deep(before));
                }
            }
        }
    }

    /// The open turn; where none is open, one is opened at `timestamp`,
    /// without context.
    pub fn ensure_turn(&mut self, timestamp: Timestamp) -> (ret: &mut TurnBuilder)
        ensures
            ret@ == old(self)@.current_or_opened(timestamp),
            final(self)@ == (ConversationBuilderModel {
                current_turn: Some(final(ret)@),
                ..old(self)@
            }),
            old(self)@.wf() ==> ret@.wf() && ret@.index == old(self)@.turns.len(),
    {
        if self.current_turn.is_none() {
            let index = self.turns.len();
            self.current_turn = Some(TurnBuilder::open(index, Some(timestamp), None));
        }
        self.current_turn.as_mut().unwrap()
    }

    /// Closes the open turn and opens one with `context` at `timestamp`.
    pub fn start_new_turn(&mut self, context: TurnContextInfo, timestamp: Timestamp) -> (ret:
        &mut TurnBuilder)
        ensures
            ret@ == old(self)@.next_turn(context@, timestamp),
            final(self)@ == (ConversationBuilderModel {
                turns: old(self)@.closed_turns(),
                current_turn: Some(final(ret)@),
                ..old(self)@
            }),
            ret@.wf(),
            ret@.index == old(self)@.closed_turns().len(),
    {
        self.close_turn();
        let index = self.turns.len();
        self.current_turn = Some(TurnBuilder::open(index, Some(timestamp), Some(context)));
        self.current_turn.as_mut().unwrap()
    }

    /// The record of the conversation: the open turn is closed, the first and
    /// the last timestamp seen become its start and end, and the whole seconds
    /// between them its duration.
    pub fn finalize(self) -> (out: ConversationRecord)
        ensures
            out@ == self@.finalized(),
    {
        let mut closed = self;
        closed.close_turn();
        let duration_seconds = match (closed.first_timestamp, closed.last_timestamp) {
            (Some(start), Some(end)) => Some(end.seconds_since(&start)),
            _ => None,
        };
        ConversationRecord {
            session_meta: closed.session_meta,
            started_at: closed.first_timestamp,
            ended_at: closed.last_timestamp,
            duration_seconds,
            token_usage: closed.token_usage,
            turns: closed.turns,
        }
    }
}

/// The slot of a call id carries that call id.
pub proof fn lemma_slot_call_id(turn: TurnBuilderModel, call_id: Option<Seq<char>>)
    ensures
        turn.slot(call_id).call_id == call_id,
{
}

/// Putting an action into the slot of its own call id keeps a turn well
/// formed.
pub proof fn lemma_with_slot_wf(
    turn: TurnBuilderModel,
    call_id: Option<Seq<char>>,
    action: ActionModel,
)
    requires
        turn.wf(),
        action.call_id == call_id,
    ensures
        turn.with_slot(call_id, action).wf(),
{
    let after = turn.with_slot(call_id, action);
    match call_id {
        Some(id) => {
            let r = rank(turn.actions, id) as int;
            lemma_rank_splits(turn.actions, id);
            if holds(turn.actions, id) {
                assert forall|i: int, j: int| 0 <= i < j < after.actions.len() implies text_lt(
                    key_of(#[trigger] after.actions[i]),
                    key_of(#[trigger] after.actions[j]),
                ) by {
                    assert(key_of(after.actions[i]) == key_of(turn.actions[i]));
                    assert(key_of(after.actions[j]) == key_of(turn.actions[j]));
                }
            } else {
                assert forall|j: int| r <= j < turn.actions.len() implies text_lt(
                    id,
                    key_of(#[trigger] turn.actions[j]),
                ) by {
                    let at = key_of(turn.actions[r]);
                    assert(turn.actions[r].call_id is Some);
                    lemma_text_lt_connected(at, id);
                    if j > r {
                        lemma_text_lt_transitive(id, at, key_of(turn.actions[j]));
                    }
                }
                assert forall|i: int, j: int| 0 <= i < j < after.actions.len() implies text_lt(
                    key_of(#[trigger] after.actions[i]),
                    key_of(#[trigger] after.actions[j]),
                ) by {
                    if j < r {
                        assert(after.actions[i] == turn.actions[i]);
                        assert(after.actions[j] == turn.actions[j]);
                    } else if j == r {
                        assert(after.actions[i] == turn.actions[i]);
                    } else if i < r {
                        assert(after.actions[i] == turn.actions[i]);
                        assert(after.actions[j] == turn.actions[j - 1]);
                        lemma_text_lt_transitive(
                            key_of(turn.actions[i]),
                            id,
                            key_of(turn.actions[j - 1]),
                        );
                    } else if i == r {
                        assert(after.actions[j] == turn.actions[j - 1]);
                    } else {
                        assert(after.actions[i] == turn.actions[i - 1]);
                        assert(after.actions[j] == turn.actions[j - 1]);
                    }
                }
                assert forall|i: int| 0 <= i < after.actions.len() implies (
                #[trigger] after.actions[i]).call_id is Some by {
                    if i < r {
                        assert(after.actions[i] == turn.actions[i]);
                    } else if i > r {
                        assert(after.actions[i] == turn.actions[i - 1]);
                    }
                }
            }
        },
        None => {},
    }
}

/// The action that carries `id` among the keyed actions, if there is one.
pub open spec fn find(actions: Seq<ActionModel>, id: Seq<char>) -> Option<ActionModel> {
    if holds(actions, id) {
        Some(actions[rank(actions, id) as int])
    } else {
        None
    }
}

/// Among keyed actions in order, every action stands at the rank of its
/// own call id.
pub proof fn lemma_rank_of_own_key(actions: Seq<ActionModel>, at: int)
    requires
        keyed_in_order(actions),
        0 <= at < actions.len(),
    ensures
        rank(actions, key_of(actions[at])) == at,
        find(actions, key_of(actions[at])) == Some(actions[at]),
{
    let id = key_of(actions[at]);
    let r = rank(actions, id) as int;
    lemma_rank_splits(actions, id);
    if r < at {
        assert(text_lt(key_of(actions[r]), key_of(actions[at])));
    } else if r > at {
        assert(text_lt(key_of(actions[at]), id));
        lemma_text_lt_asymmetric(id, id);
    }
}

/// Two sequences of keyed actions in order that hold the same action under
/// every call id are the same sequence.
pub proof fn lemma_same_finds_same_actions(first: Seq<ActionModel>, second: Seq<ActionModel>)
    requires
        keyed_in_order(first),
        keyed_in_order(second),
        forall|id: Seq<char>| find(first, id) == find(second, id),
    ensures
        first == second,
{
    lemma_same_prefix(first, second, first.len() as int);
    lemma_same_prefix(second, first, second.len() as int);
    assert(first =~= second);
}

/// Of two sequences of keyed actions in order that hold the same action
/// under every call id, the second holds the first `n` actions of the first
/// in the same places.
proof fn lemma_same_prefix(first: Seq<ActionModel>, second: Seq<ActionModel>, n: int)
    requires
        keyed_in_order(first),
        keyed_in_order(second),
        forall|id: Seq<char>| find(first, id) == find(second, id),
        0 <= n <= first.len(),
    ensures
        n <= second.len(),
        forall|i: int| 0 <= i < n ==> first[i] == second[i],
    decreases n,
{
    if n > 0 {
        lemma_same_prefix(first, second, n - 1);
        let i = n - 1;
        let x = first[i];
        let id = key_of(x);
        lemma_rank_of_own_key(first, i);
        assert(find(second, id) == Some(x));
        let j = rank(second, id) as int;
        assert(second[j] == x);
        if j < i {
            assert(first[j] == second[j]);
            assert(text_lt(key_of(first[j]), key_of(first[i])));
            lemma_text_lt_asymmetric(id, id);
        } else if j > i {
            let y = second[i];
            let other = key_of(y);
            assert(text_lt(other, id));
            lemma_rank_of_own_key(second, i);
            assert(find(first, other) == Some(y));
            let k = rank(first, other) as int;
            assert(first[k] == y);
            if k < i {
                assert(first[k] == second[k]);
                assert(text_lt(key_of(second[k]), key_of(second[i])));
                lemma_text_lt_asymmetric(other, other);
            } else if k == i {
                lemma_text_lt_asymmetric(other, id);
            } else {
                assert(text_lt(key_of(first[i]), key_of(first[k])));
                lemma_text_lt_asymmetric(other, id);
            }
        }
    }
}

/// What is found among the keyed actions after an action was put into the
/// slot of its call id: that action under its own id, and under any other id
/// what was found before.
pub proof fn lemma_find_after_with_slot(
    turn: TurnBuilderModel,
    id: Seq<char>,
    action: ActionModel,
    other: Seq<char>,
)
    requires
        turn.wf(),
        action.call_id == Some(id),
    ensures
        find(turn.with_slot(Some(id), action).actions, other) == if other == id {
            Some(action)
        } else {
            find(turn.actions, other)
        },
{
    let before = turn.actions;
    let after = turn.with_slot(Some(id), action).actions;
    let r = rank(before, id) as int;
    lemma_with_slot_wf(turn, Some(id), action);
    lemma_rank_splits(before, id);
    assert(after[r] == action);
    lemma_rank_of_own_key(after, r);
    if other != id {
        if find(before, other) is Some {
            let i = rank(before, other) as int;
            let x = before[i];
            let moved = if holds(before, id) || i < r {
                i
            } else {
                i + 1
            };
            assert(after[moved] == x);
            lemma_rank_of_own_key(after, moved);
        } else if find(after, other) is Some {
            let j = rank(after, other) as int;
            let y = after[j];
            assert(j != r);
            let origin = if holds(before, id) || j < r {
                j
            } else {
                j - 1
            };
            assert(before[origin] == y);
            lemma_rank_of_own_key(before, origin);
        }
    }
}

/// The slot of a call id is what is found under it, or a fresh action.
pub proof fn lemma_slot_is_find(turn: TurnBuilderModel, id: Seq<char>)
    ensures
        turn.slot(Some(id)) == match find(turn.actions, id) {
            Some(action) => action,
            None => ActionModel::fresh(Some(id)),
        },
{
}

/// Records for two different call ids can be taken in either order: the
/// actions of a turn come out the same.
pub proof fn lemma_slots_commute(
    turn: TurnBuilderModel,
    a: Seq<char>,
    for_a: spec_fn(ActionModel) -> ActionModel,
    b: Seq<char>,
    for_b: spec_fn(ActionModel) -> ActionModel,
)
    requires
        turn.wf(),
        a != b,
        forall|x: ActionModel| #[trigger] for_a(x).call_id == x.call_id,
        forall|x: ActionModel| #[trigger] for_b(x).call_id == x.call_id,
    ensures
        ({
            let first_a = turn.with_slot(Some(a), for_a(turn.slot(Some(a))));
            let first_b = turn.with_slot(Some(b), for_b(turn.slot(Some(b))));
            first_a.with_slot(Some(b), for_b(first_a.slot(Some(b)))) == first_b.with_slot(
                Some(a),
                for_a(first_b.slot(Some(a))),
            )
        }),
{
    let slot_a = turn.slot(Some(a));
    let slot_b = turn.slot(Some(b));
    let new_a = for_a(slot_a);
    let new_b = for_b(slot_b);
    let first_a = turn.with_slot(Some(a), new_a);
    let first_b = turn.with_slot(Some(b), new_b);
    lemma_slot_call_id(turn, Some(a));
    lemma_slot_call_id(turn, Some(b));
    lemma_with_slot_wf(turn, Some(a), new_a);
    lemma_with_slot_wf(turn, Some(b), new_b);
    lemma_find_after_with_slot(turn, a, new_a, b);
    lemma_find_after_with_slot(turn, b, new_b, a);
    lemma_slot_is_find(turn, a);
    lemma_slot_is_find(turn, b);
    lemma_slot_is_find(first_a, b);
    lemma_slot_is_find(first_b, a);
    assert(first_a.slot(Some(b)) == slot_b);
    assert(first_b.slot(Some(a)) == slot_a);
    let both_ab = first_a.with_slot(Some(b), new_b);
    let both_ba = first_b.with_slot(Some(a), new_a);
    lemma_with_slot_wf(first_a, Some(b), new_b);
    lemma_with_slot_wf(first_b, Some(a), new_a);
    assert forall|id: Seq<char>| find(both_ab.actions, id) == find(both_ba.actions, id) by {
        lemma_find_after_with_slot(turn, a, new_a, id);
        lemma_find_after_with_slot(turn, b, new_b, id);
        lemma_find_after_with_slot(first_a, b, new_b, id);
        lemma_find_after_with_slot(first_b, a, new_a, id);
    }
    lemma_same_finds_same_actions(both_ab.actions, both_ba.actions);
}

/// Whether an action does not come after another in the order in which a
/// turn emits its actions: the actions without a call id come first, the
/// others follow in ascending order of call id.
pub open spec fn emitted_before(earlier: ActionModel, later: ActionModel) -> bool {
    match (earlier.call_id, later.call_id) {
        (None, _) => true,
        (Some(_), None) => false,
        (Some(a), Some(b)) => text_lt(a, b),
    }
}

/// The actions of a finished turn are sorted by call id, those without one
/// first, and no two of them share a call id.
pub proof fn lemma_finished_actions_sorted(turn: TurnBuilderModel)
    requires
        turn.wf(),
    ensures
        forall|i: int, j: int|
            0 <= i < j < turn.finished().actions.len() ==> emitted_before(
                #[trigger] turn.finished().actions[i],
                #[trigger] turn.finished().actions[j],
            ),
{
    let actions = turn.finished().actions;
    let anonymous = turn.anonymous_actions.len() as int;
    assert forall|i: int, j: int| 0 <= i < j < actions.len() implies emitted_before(
        #[trigger] actions[i],
        #[trigger] actions[j],
    ) by {
        if i < anonymous {
            assert(actions[i] == turn.anonymous_actions[i]);
        } else {
            assert(actions[i] == turn.actions[i - anonymous]);
            assert(actions[j] == turn.actions[j - anonymous]);
        }
    }
}

} // verus!
