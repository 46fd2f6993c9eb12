//! The conversation data model: what one transcript holds once it has been
//! normalized. Each type comes with a mathematical model, its view, in which
//! strings are sequences of characters and vectors are sequences.

use crate::json::{JsonModel, JsonValue};
use crate::timestamp::Timestamp;
use vstd::prelude::*;

verus! {

/// Which text stood in for a missing assistant message.
#[derive(Clone, Copy, Debug, PartialEq, Eq, Structural)]
pub enum FallbackSource {
    AssistantReasoning,
    ToolOutput,
    EventStream,
}

/// A substitute summary of a turn without an assistant message.
#[derive(Clone, Debug)]
pub struct FallbackSummary {
    pub source: FallbackSource,
    pub text: String,
}

/// The mathematical value of a [`FallbackSummary`].
pub struct FallbackModel {
    pub source: FallbackSource,
    pub text: Seq<char>,
}

impl View for FallbackSummary {
    type V = FallbackModel;

    open spec fn view(&self) -> FallbackModel {
        FallbackModel { source: self.source, text: self.text@ }
    }
}

impl DeepView for FallbackSummary {
    type V = FallbackModel;

    open spec fn deep_view(&self) -> FallbackModel {
        self@
    }
}

/// What the assistant produced in one turn.
#[derive(Clone, Debug)]
pub struct TurnResult {
    pub assistant_messages: Vec<String>,
    pub fallback: Option<FallbackSummary>,
    pub reasoning_summaries: Vec<String>,
    pub reasoning_encrypted: bool,
}

/// The mathematical value of a [`TurnResult`].
pub struct TurnResultModel {
    pub assistant_messages: Seq<Seq<char>>,
    pub fallback: Option<FallbackModel>,
    pub reasoning_summaries: Seq<Seq<char>>,
    pub reasoning_encrypted: bool,
}

impl View for TurnResult {
    type V = TurnResultModel;

    open spec fn view(&self) -> TurnResultModel {
        TurnResultModel {
            assistant_messages: self.assistant_messages.deep_view(),
            fallback: self.fallback.deep_view(),
            reasoning_summaries: self.reasoning_summaries.deep_view(),
            reasoning_encrypted: self.reasoning_encrypted,
        }
    }
}

impl Default for TurnResult {
    fn default() -> (out: Self)
        ensures
            out@ == (TurnResultModel {
                assistant_messages: Seq::empty(),
                fallback: None,
                reasoning_summaries: Seq::empty(),
                reasoning_encrypted: false,
            }),
    {
        let out = TurnResult {
            assistant_messages: Vec::new(),
            fallback: None,
            reasoning_summaries: Vec::new(),
            reasoning_encrypted: false,
        };
        proof {
            assert(out.assistant_messages.deep_view() =~= Seq::empty());
            assert(out.reasoning_summaries.deep_view() =~= Seq::empty());
        }
        out
    }
}

/// The per-turn configuration that a turn-context record carries.
#[derive(Clone, Debug)]
pub struct TurnContextInfo {
    pub raw: JsonValue,
    pub cwd: Option<String>,
    pub approval_policy: Option<String>,
    pub sandbox_mode: Option<String>,
    pub sandbox_network_access: Option<bool>,
    pub model: Option<String>,
    pub effort: Option<String>,
    pub summary_style: Option<String>,
}

/// The mathematical value of a [`TurnContextInfo`].
pub struct TurnContextModel {
    pub raw: JsonModel,
    pub cwd: Option<Seq<char>>,
    pub approval_policy: Option<Seq<char>>,
    pub sandbox_mode: Option<Seq<char>>,
    pub sandbox_network_access: Option<bool>,
    pub model: Option<Seq<char>>,
    pub effort: Option<Seq<char>>,
    pub summary_style: Option<Seq<char>>,
}

impl View for TurnContextInfo {
    type V = TurnContextModel;

    open spec fn view(&self) -> TurnContextModel {
        TurnContextModel {
            raw: self.raw@,
            cwd: self.cwd.deep_view(),
            approval_policy: self.approval_policy.deep_view(),
            sandbox_mode: self.sandbox_mode.deep_view(),
            sandbox_network_access: self.sandbox_network_access,
            model: self.model.deep_view(),
            effort: self.effort.deep_view(),
            summary_style: self.summary_style.deep_view(),
        }
    }
}

impl DeepView for TurnContextInfo {
    type V = TurnContextModel;

    open spec fn deep_view(&self) -> TurnContextModel {
        self@
    }
}

/// One user message: its payload, its text and the images it refers to.
#[derive(Clone, Debug)]
pub struct UserInputRecord {
    pub raw: JsonValue,
    pub text: Option<String>,
    pub images: Vec<String>,
}

/// The mathematical value of a [`UserInputRecord`].
pub struct UserInputModel {
    pub raw: JsonModel,
    pub text: Option<Seq<char>>,
    pub images: Seq<Seq<char>>,
}

impl View for UserInputRecord {
    type V = UserInputModel;

    open spec fn view(&self) -> UserInputModel {
        UserInputModel {
            raw: self.raw@,
            text: self.text.deep_view(),
            images: self.images.deep_view(),
        }
    }
}

impl DeepView for UserInputRecord {
    type V = UserInputModel;

    open spec fn deep_view(&self) -> UserInputModel {
        self@
    }
}

/// What kind of tool or function an action invoked.
#[derive(Clone, Debug)]
pub enum ActionKind {
    FunctionCall { name: Option<String> },
    CustomToolCall { name: Option<String> },
    LocalShellExec {
        command: Vec<String>,
        workdir: Option<String>,
        timeout_ms: Option<u64>,
        escalated: Option<bool>,
    },
    WebSearch { query: Option<String> },
    Other { kind: Option<String> },
}

/// The mathematical value of an [`ActionKind`].
pub enum ActionKindModel {
    FunctionCall { name: Option<Seq<char>> },
    CustomToolCall { name: Option<Seq<char>> },
    LocalShellExec {
        command: Seq<Seq<char>>,
        workdir: Option<Seq<char>>,
        timeout_ms: Option<u64>,
        escalated: Option<bool>,
    },
    WebSearch { query: Option<Seq<char>> },
    Other { kind: Option<Seq<char>> },
}

impl View for ActionKind {
    type V = ActionKindModel;

    open spec fn view(&self) -> ActionKindModel {
        match self {
            ActionKind::FunctionCall { name } => ActionKindModel::FunctionCall {
                name: name.deep_view(),
            },
            ActionKind::CustomToolCall { name } => ActionKindModel::CustomToolCall {
                name: name.deep_view(),
            },
            ActionKind::LocalShellExec { command, workdir, timeout_ms, escalated } => {
                ActionKindModel::LocalShellExec {
                    command: command.deep_view(),
                    workdir: workdir.deep_view(),
                    timeout_ms: *timeout_ms,
                    escalated: *escalated,
                }
            },
            ActionKind::WebSearch { query } => ActionKindModel::WebSearch {
                query: query.deep_view(),
            },
            ActionKind::Other { kind } => ActionKindModel::Other { kind: kind.deep_view() },
        }
    }
}

impl Default for ActionKind {
    fn default() -> (out: Self)
        ensures
            out@ == (ActionKindModel::Other { kind: None }),
    {
        ActionKind::Other { kind: None }
    }
}

/// What an action returned.
#[derive(Clone, Debug)]
pub struct ActionOutput {
    pub content: Option<String>,
    pub success: Option<bool>,
    pub raw: JsonValue,
}

/// The mathematical value of an [`ActionOutput`].
pub struct ActionOutputModel {
    pub content: Option<Seq<char>>,
    pub success: Option<bool>,
    pub raw: JsonModel,
}

impl View for ActionOutput {
    type V = ActionOutputModel;

    open spec fn view(&self) -> ActionOutputModel {
        ActionOutputModel {
            content: self.content.deep_view(),
            success: self.success,
            raw: self.raw@,
        }
    }
}

impl DeepView for ActionOutput {
    type V = ActionOutputModel;

    open spec fn deep_view(&self) -> ActionOutputModel {
        self@
    }
}

/// The two status texts of an action: the one its own records state, and the
/// one that the local process reports.
#[derive(Clone, Debug)]
pub struct ActionStatus {
    pub status_text: Option<String>,
    pub local_status: Option<String>,
}

/// The mathematical value of an [`ActionStatus`].
pub struct ActionStatusModel {
    pub status_text: Option<Seq<char>>,
    pub local_status: Option<Seq<char>>,
}

impl View for ActionStatus {
    type V = ActionStatusModel;

    open spec fn view(&self) -> ActionStatusModel {
        ActionStatusModel {
            status_text: self.status_text.deep_view(),
            local_status: self.local_status.deep_view(),
        }
    }
}

impl Default for ActionStatus {
    fn default() -> (out: Self)
        ensures
            out@ == (ActionStatusModel { status_text: None, local_status: None }),
    {
        ActionStatus { status_text: None, local_status: None }
    }
}

/// A raw record that belongs to an action, with the time it was written.
#[derive(Clone, Debug)]
pub struct ActionEvent {
    pub timestamp: Timestamp,
    pub kind: String,
    pub data: JsonValue,
}

/// The mathematical value of an [`ActionEvent`].
pub struct ActionEventModel {
    pub timestamp: Timestamp,
    pub kind: Seq<char>,
    pub data: JsonModel,
}

impl View for ActionEvent {
    type V = ActionEventModel;

    open spec fn view(&self) -> ActionEventModel {
        ActionEventModel { timestamp: self.timestamp, kind: self.kind@, data: self.data@ }
    }
}

impl DeepView for ActionEvent {
    type V = ActionEventModel;

    open spec fn deep_view(&self) -> ActionEventModel {
        self@
    }
}

/// One tool or function invocation with all that was recorded of it.
#[derive(Clone, Debug)]
pub struct ActionRecord {
    pub call_id: Option<String>,
    pub kind: ActionKind,
    pub arguments: Option<JsonValue>,
    pub output: Option<ActionOutput>,
    pub status: ActionStatus,
    pub events: Vec<ActionEvent>,
}

/// The mathematical value of an [`ActionRecord`].
pub struct ActionModel {
    pub call_id: Option<Seq<char>>,
    pub kind: ActionKindModel,
    pub arguments: Option<JsonModel>,
    pub output: Option<ActionOutputModel>,
    pub status: ActionStatusModel,
    pub events: Seq<ActionEventModel>,
}

impl ActionModel {
    /// An action of which nothing but its call id is known.
    pub open spec fn fresh(call_id: Option<Seq<char>>) -> ActionModel {
        ActionModel {
            call_id,
            kind: ActionKindModel::Other { kind: None },
            arguments: None,
            output: None,
            status: ActionStatusModel { status_text: None, local_status: None },
            events: Seq::empty(),
        }
    }
}

impl View for ActionRecord {
    type V = ActionModel;

    open spec fn view(&self) -> ActionModel {
        ActionModel {
            call_id: self.call_id.deep_view(),
            kind: self.kind@,
            arguments: self.arguments.deep_view(),
            output: self.output.deep_view(),
            status: self.status@,
            events: self.events.deep_view(),
        }
    }
}

impl DeepView for ActionRecord {
    type V = ActionModel;

    open spec fn deep_view(&self) -> ActionModel {
        self@
    }
}

impl Default for ActionRecord {
    fn default() -> (out: Self)
        ensures
            out@ == ActionModel::fresh(None),
    {
        let out = ActionRecord {
            call_id: None,
            kind: ActionKind::default(),
            arguments: None,
            output: None,
            status: ActionStatus::default(),
            events: Vec::new(),
        };
        proof {
            assert(out.events.deep_view() =~= Seq::empty());
        }
        out
    }
}

/// A value with the time it was recorded.
#[derive(Clone, Debug)]
pub struct Timed<T> {
    pub timestamp: Timestamp,
    pub data: T,
}

/// The mathematical value of a [`Timed`].
pub struct TimedModel<M> {
    pub timestamp: Timestamp,
    pub data: M,
}

impl<T: DeepView> DeepView for Timed<T> {
    type V = TimedModel<T::V>;

    open spec fn deep_view(&self) -> TimedModel<T::V> {
        TimedModel { timestamp: self.timestamp, data: self.data.deep_view() }
    }
}

/// The telemetry records of one turn, by kind.
#[derive(Clone, Debug)]
pub struct TurnTelemetry {
    pub token_counts: Vec<Timed<JsonValue>>,
    pub plan_updates: Vec<Timed<JsonValue>>,
    pub approvals: Vec<Timed<JsonValue>>,
    pub misc_events: Vec<Timed<JsonValue>>,
}

/// The mathematical value of a [`TurnTelemetry`].
pub struct TelemetryModel {
    pub token_counts: Seq<TimedModel<JsonModel>>,
    pub plan_updates: Seq<TimedModel<JsonModel>>,
    pub approvals: Seq<TimedModel<JsonModel>>,
    pub misc_events: Seq<TimedModel<JsonModel>>,
}

impl TelemetryModel {
    /// The telemetry of a turn of which nothing was recorded.
    pub open spec fn empty() -> TelemetryModel {
        TelemetryModel {
            token_counts: Seq::empty(),
            plan_updates: Seq::empty(),
            approvals: Seq::empty(),
            misc_events: Seq::empty(),
        }
    }
}

impl View for TurnTelemetry {
    type V = TelemetryModel;

    open spec fn view(&self) -> TelemetryModel {
        TelemetryModel {
            token_counts: self.token_counts.deep_view(),
            plan_updates: self.plan_updates.deep_view(),
            approvals: self.approvals.deep_view(),
            misc_events: self.misc_events.deep_view(),
        }
    }
}

impl Default for TurnTelemetry {
    fn default() -> (out: Self)
        ensures
            out@ == TelemetryModel::empty(),
    {
        let out = TurnTelemetry {
            token_counts: Vec::new(),
            plan_updates: Vec::new(),
            approvals: Vec::new(),
            misc_events: Vec::new(),
        };
        proof {
            assert(out.token_counts.deep_view() =~= Seq::empty());
            assert(out.plan_updates.deep_view() =~= Seq::empty());
            assert(out.approvals.deep_view() =~= Seq::empty());
            assert(out.misc_events.deep_view() =~= Seq::empty());
        }
        out
    }
}

/// One token-usage snapshot.
#[derive(Clone, Copy, Debug, PartialEq, Eq, Structural)]
pub struct TokenUsageBreakdown {
    pub input_tokens: Option<u64>,
    pub cached_input_tokens: Option<u64>,
    pub output_tokens: Option<u64>,
    pub reasoning_output_tokens: Option<u64>,
    pub total_tokens: Option<u64>,
}

/// The latest token-usage snapshots of a conversation.
#[derive(Clone, Copy, Debug, PartialEq, Eq, Structural)]
pub struct TokenUsageSummary {
    pub total: Option<TokenUsageBreakdown>,
    pub last: Option<TokenUsageBreakdown>,
    pub model_context_window: Option<u64>,
}

impl Default for TokenUsageBreakdown {
    fn default() -> (out: Self)
        ensures
            out == (TokenUsageBreakdown {
                input_tokens: None,
                cached_input_tokens: None,
                output_tokens: None,
                reasoning_output_tokens: None,
                total_tokens: None,
            }),
    {
        TokenUsageBreakdown {
            input_tokens: None,
            cached_input_tokens: None,
            output_tokens: None,
            reasoning_output_tokens: None,
            total_tokens: None,
        }
    }
}

impl Default for TokenUsageSummary {
    fn default() -> (out: Self)
        ensures
            out == (TokenUsageSummary { total: None, last: None, model_context_window: None }),
    {
        TokenUsageSummary { total: None, last: None, model_context_window: None }
    }
}

/// One user-interaction round.
#[derive(Clone, Debug)]
pub struct TurnRecord {
    pub index: usize,
    pub started_at: Option<Timestamp>,
    pub context: Option<TurnContextInfo>,
    pub user_inputs: Vec<UserInputRecord>,
    pub result: TurnResult,
    pub actions: Vec<ActionRecord>,
    pub telemetry: TurnTelemetry,
}

/// The mathematical value of a [`TurnRecord`].
pub struct TurnModel {
    pub index: usize,
    pub started_at: Option<Timestamp>,
    pub context: Option<TurnContextModel>,
    pub user_inputs: Seq<UserInputModel>,
    pub result: TurnResultModel,
    pub actions: Seq<ActionModel>,
    pub telemetry: TelemetryModel,
}

impl TurnModel {
    /// Whether the turn holds anything that keeps it in a record: a user
    /// input, an assistant message, an action, a reasoning summary or a token
    /// count.
    pub open spec fn kept(self) -> bool {
        ||| self.user_inputs.len() > 0
        ||| self.result.assistant_messages.len() > 0
        ||| self.actions.len() > 0
        ||| self.result.reasoning_summaries.len() > 0
        ||| self.telemetry.token_counts.len() > 0
    }
}

impl View for TurnRecord {
    type V = TurnModel;

    open spec fn view(&self) -> TurnModel {
        TurnModel {
            index: self.index,
            started_at: self.started_at,
            context: self.context.deep_view(),
            user_inputs: self.user_inputs.deep_view(),
            result: self.result@,
            actions: self.actions.deep_view(),
            telemetry: self.telemetry@,
        }
    }
}

impl DeepView for TurnRecord {
    type V = TurnModel;

    open spec fn deep_view(&self) -> TurnModel {
        self@
    }
}

/// One ingested transcript.
#[derive(Clone, Debug)]
pub struct ConversationRecord {
    pub session_meta: Option<JsonValue>,
    pub started_at: Option<Timestamp>,
    pub ended_at: Option<Timestamp>,
    pub duration_seconds: Option<u64>,
    pub token_usage: TokenUsageSummary,
    pub turns: Vec<TurnRecord>,
}

/// The mathematical value of a [`ConversationRecord`].
pub struct ConversationModel {
    pub session_meta: Option<JsonModel>,
    pub started_at: Option<Timestamp>,
    pub ended_at: Option<Timestamp>,
    pub duration_seconds: Option<u64>,
    pub token_usage: TokenUsageSummary,
    pub turns: Seq<TurnModel>,
}

impl ConversationModel {
    /// Every turn carries its position as its index and holds something that
    /// keeps it.
    pub open spec fn well_formed(self) -> bool {
        forall|i: int|
            0 <= i < self.turns.len() ==> (#[trigger] self.turns[i]).index == i
                && self.turns[i].kept()
    }
}

impl View for ConversationRecord {
    type V = ConversationModel;

    open spec fn view(&self) -> ConversationModel {
        ConversationModel {
            session_meta: self.session_meta.deep_view(),
            started_at: self.started_at,
            ended_at: self.ended_at,
            duration_seconds: self.duration_seconds,
            token_usage: self.token_usage,
            turns: self.turns.deep_view(),
        }
    }
}

impl Default for ConversationRecord {
    fn default() -> (out: Self)
        ensures
            out@ == (ConversationModel {
                session_meta: None,
                started_at: None,
                ended_at: None,
                duration_seconds: None,
                token_usage: TokenUsageSummary {
                    total: None,
                    last: None,
                    model_context_window: None,
                },
                turns: Seq::empty(),
            }),
    {
        let out = ConversationRecord {
            session_meta: None,
            started_at: None,
            ended_at: None,
            duration_seconds: None,
            token_usage: TokenUsageSummary::default(),
            turns: Vec::new(),
        };
        proof {
            assert(out.turns.deep_view() =~= Seq::empty());
        }
        out
    }
}

impl TokenUsageBreakdown {
    /// What a usage snapshot states, member by member.
    pub open spec fn of(value: JsonModel) -> TokenUsageBreakdown {
        TokenUsageBreakdown {
            input_tokens: value.unsigned_at("input_tokens"@),
            cached_input_tokens: match value.field("cached_input_tokens"@) {
                Some(v) => v.unsigned(),
                None => value.unsigned_at("cachedTokens"@),
            },
            output_tokens: value.unsigned_at("output_tokens"@),
            reasoning_output_tokens: value.unsigned_at("reasoning_output_tokens"@),
            total_tokens: value.unsigned_at("total_tokens"@),
        }
    }

    /// Reads a usage snapshot. The cached count is read from
    /// `cached_input_tokens`, and from `cachedTokens` where that member is
    /// missing.
    pub fn from_value(value: &JsonValue) -> (out: TokenUsageBreakdown)
        ensures
            out == TokenUsageBreakdown::of(value@),
    {
        let cached = match value.get("cached_input_tokens") {
            Some(v) => v.as_u64(),
            None => value.unsigned_at("cachedTokens"),
        };
        TokenUsageBreakdown {
            input_tokens: value.unsigned_at("input_tokens"),
            cached_input_tokens: cached,
            output_tokens: value.unsigned_at("output_tokens"),
            reasoning_output_tokens: value.unsigned_at("reasoning_output_tokens"),
            total_tokens: value.unsigned_at("total_tokens"),
        }
    }
}

} // verus!
