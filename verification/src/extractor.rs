//! The event-stream normalizer: reads a transcript record by record and
//! gathers turns, messages, actions and telemetry into one conversation
//! record.

use crate::builder::{
    lemma_slot_call_id, lemma_slots_commute, lemma_with_slot_wf, ConversationBuilder,
    ConversationBuilderModel, TurnBuilder, TurnBuilderModel,
};
use crate::json::{json_document, lemma_object_view, JsonModel, JsonValue};
use crate::text::{
    concat_all, concatenate, lines_of, or_empty, split_lines, str_eq, str_or_empty, trim, trimmed,
};
use crate::timestamp::{rfc3339_instant, Timestamp};
use crate::types::{
    ActionEventModel, ActionKind, ActionKindModel, ActionModel, ActionOutput, ActionOutputModel,
    ActionStatusModel, ConversationModel, ConversationRecord, FallbackModel, FallbackSource,
    TelemetryModel, Timed, TimedModel, TurnContextInfo, TurnContextModel, UserInputModel,
    UserInputRecord,
};
use crate::views::{deep, lemma_deep_of_vec, lemma_vec_pushed};
use vstd::prelude::*;

verus! {

/// Which text a content fragment contributes.
#[derive(Clone, Copy, Debug, PartialEq, Eq, Structural)]
pub enum Fragment {
    /// The `text` of a fragment of type `input_text`.
    UserText,
    /// The `image_url` of a fragment of type `input_image`.
    UserImage,
    /// The `text` of a fragment or, where it has none, its `content`.
    AssistantText,
    /// The `text` of a fragment.
    MemberText,
    /// The fragment itself, where it is a string.
    Plain,
}

impl Fragment {
    /// The text that `item` contributes, if any.
    pub open spec fn of(self, item: JsonModel) -> Option<Seq<char>> {
        match self {
            Fragment::UserText => if item.text_at("type"@) == Some("input_text"@) {
                item.text_at("text"@)
            } else {
                None
            },
            Fragment::UserImage => if item.text_at("type"@) == Some("input_image"@) {
                item.text_at("image_url"@)
            } else {
                None
            },
            Fragment::AssistantText => match item.text_at("text"@) {
                Some(t) => Some(t),
                None => item.text_at("content"@),
            },
            Fragment::MemberText => item.text_at("text"@),
            Fragment::Plain => item.text(),
        }
    }

    /// The text that `item` contributes, if any.
    pub fn pick<'a>(&self, item: &'a JsonValue) -> (out: Option<&'a str>)
        ensures
            out.deep_view() == self.of(item@),
    {
        match self {
            Fragment::UserText => if item.has_text("type", "input_text") {
                item.str_at("text")
            } else {
                None
            },
            Fragment::UserImage => if item.has_text("type", "input_image") {
                item.str_at("image_url")
            } else {
                None
            },
            Fragment::AssistantText => match item.str_at("text") {
                Some(t) => Some(t),
                None => item.str_at("content"),
            },
            Fragment::MemberText => item.str_at("text"),
            Fragment::Plain => item.as_str(),
        }
    }
}

/// The texts that the items contribute, in order.
pub open spec fn fragments(items: Seq<JsonModel>, kind: Fragment) -> Seq<Seq<char>>
    decreases items.len(),
{
    if items.len() == 0 {
        Seq::empty()
    } else {
        let rest = fragments(items.drop_last(), kind);
        match kind.of(items.last()) {
            Some(t) => rest.push(t),
            None => rest,
        }
    }
}

/// The texts that the items of an optional array contribute.
pub open spec fn fragments_of(items: Option<Seq<JsonModel>>, kind: Fragment) -> Seq<Seq<char>> {
    match items {
        Some(items) => fragments(items, kind),
        None => Seq::empty(),
    }
}

/// The texts that the items contribute, in order.
pub fn collect_fragments(items: Option<&Vec<JsonValue>>, kind: Fragment) -> (out: Vec<String>)
    ensures
        out.deep_view() == fragments_of(items.deep_view(), kind),
{
    let mut out: Vec<String> = Vec::new();
    proof {
        assert(out.deep_view() =~= Seq::<Seq<char>>::empty());
    }
    if let Some(items) = items {
        let mut i: usize = 0;
        proof {
            assert(items.deep_view().take(0) =~= Seq::<JsonModel>::empty());
        }
        while i < items.len()
            invariant
                i <= items@.len(),
                out.deep_view() == fragments(items.deep_view().take(i as int), kind),
            decreases items@.len() - i,
        {
            proof {
                let next = items.deep_view().take(i + 1);
                assert(next.drop_last() =~= items.deep_view().take(i as int));
                assert(next.last() == items@[i as int]@);
            }
            if let Some(t) = kind.pick(&items[i]) {
                let ghost before = out@;
                let owned = t.to_owned();
                out.push(owned);
                proof {
                    lemma_vec_pushed(before, out, owned);
                    lemma_deep_of_vec(out);
                    assert(deep(before) =~= fragments(items.deep_view().take(i as int), kind));
                }
            }
            i = i + 1;
        }
        proof {
            assert(items.deep_view().take(items@.len() as int) =~= items.deep_view());
        }
    }
    out
}

/// What a turn-context payload states.
pub open spec fn turn_context_of(raw: JsonModel) -> TurnContextModel {
    TurnContextModel {
        raw,
        cwd: match raw.field("cwd"@) {
            Some(v) => v.text(),
            None => raw.text_at("cwd_path"@),
        },
        approval_policy: raw.text_at("approval_policy"@),
        sandbox_mode: match raw.field("sandbox_policy"@) {
            Some(policy) => policy.text_at("mode"@),
            None => None,
        },
        sandbox_network_access: match raw.field("sandbox_policy"@) {
            Some(policy) => policy.boolean_at("network_access"@),
            None => None,
        },
        model: raw.text_at("model"@),
        effort: raw.text_at("effort"@),
        summary_style: raw.text_at("summary"@),
    }
}

/// Reads the per-turn configuration out of a turn-context payload. The
/// working directory is read from `cwd`, and from `cwd_path` where that member
/// is missing.
pub fn parse_turn_context(raw: JsonValue) -> (out: TurnContextInfo)
    ensures
        out@ == turn_context_of(raw@),
{
    let cwd = match raw.get("cwd") {
        Some(v) => match v.as_str() {
            Some(s) => Some(s.to_owned()),
            None => None,
        },
        None => raw.text_at("cwd_path"),
    };
    let approval_policy = raw.text_at("approval_policy");
    let sandbox_mode = match raw.get("sandbox_policy") {
        Some(policy) => policy.text_at("mode"),
        None => None,
    };
    let sandbox_network_access = match raw.get("sandbox_policy") {
        Some(policy) => policy.boolean_at("network_access"),
        None => None,
    };
    let model = raw.text_at("model");
    let effort = raw.text_at("effort");
    let summary_style = raw.text_at("summary");
    TurnContextInfo {
        raw,
        cwd,
        approval_policy,
        sandbox_mode,
        sandbox_network_access,
        model,
        effort,
        summary_style,
    }
}

/// The user input that a message payload of role `user` states.
pub open spec fn user_input_of(payload: JsonModel) -> UserInputModel {
    let content = payload.items_at("content"@);
    let parts = fragments_of(content, Fragment::UserText);
    UserInputModel {
        raw: payload,
        text: if parts.len() == 0 {
            None
        } else {
            Some(concat_all(parts))
        },
        images: fragments_of(content, Fragment::UserImage),
    }
}

/// The turn after a message record. A user message adds one user input, with
/// the text fragments joined and the image references listed; an assistant
/// message with at least one text fragment adds one assistant message.
pub open spec fn after_message(turn: TurnBuilderModel, payload: JsonModel) -> TurnBuilderModel {
    if payload.text_at("role"@) == Some("user"@) {
        TurnBuilderModel { user_inputs: turn.user_inputs.push(user_input_of(payload)), ..turn }
    } else if payload.text_at("role"@) == Some("assistant"@) {
        let parts = fragments_of(payload.items_at("content"@), Fragment::AssistantText);
        if parts.len() == 0 {
            turn
        } else {
            TurnBuilderModel {
                assistant_messages: turn.assistant_messages.push(concat_all(parts)),
                ..turn
            }
        }
    } else {
        turn
    }
}

/// Records a message of the user or of the assistant.
pub fn handle_message(turn: &mut TurnBuilder, payload: JsonValue)
    ensures
        final(turn)@ == after_message(old(turn)@, payload@),
        old(turn)@.wf() ==> final(turn)@.wf(),
        final(turn)@.index == old(turn)@.index,
{
    if payload.has_text("role", "user") {
        let text_parts = collect_fragments(payload.items_at("content"), Fragment::UserText);
        let images = collect_fragments(payload.items_at("content"), Fragment::UserImage);
        let text = if text_parts.is_empty() {
            None
        } else {
            Some(concatenate(&text_parts))
        };
        let record = UserInputRecord { raw: payload, text, images };
        turn.push_user_input(record);
    } else if payload.has_text("role", "assistant") {
        let text_parts = collect_fragments(payload.items_at("content"), Fragment::AssistantText);
        if !text_parts.is_empty() {
            turn.push_assistant_message(concatenate(&text_parts));
        }
    }
}

/// The turn after reasoning summaries were recorded one by one: all are
/// kept, and the last is the reasoning candidate for the fallback.
pub open spec fn with_summaries(turn: TurnBuilderModel, parts: Seq<Seq<char>>) -> TurnBuilderModel {
    TurnBuilderModel {
        reasoning_summaries: turn.reasoning_summaries + parts,
        fallback_reasoning: if parts.len() == 0 {
            turn.fallback_reasoning
        } else {
            Some(parts.last())
        },
        ..turn
    }
}

/// The turn after a reasoning record: each summary fragment with a text is
/// kept, and an opaque `content` member marks the reasoning as encrypted.
pub open spec fn after_reasoning(turn: TurnBuilderModel, payload: JsonModel) -> TurnBuilderModel {
    let summarized = with_summaries(
        turn,
        fragments_of(payload.items_at("summary"@), Fragment::MemberText),
    );
    if payload.field("content"@) is Some {
        TurnBuilderModel { reasoning_encrypted: true, ..summarized }
    } else {
        summarized
    }
}

/// Records the summaries of a reasoning record.
pub fn handle_reasoning(turn: &mut TurnBuilder, payload: &JsonValue)
    ensures
        final(turn)@ == after_reasoning(old(turn)@, payload@),
        old(turn)@.wf() ==> final(turn)@.wf(),
        final(turn)@.index == old(turn)@.index,
{
    let parts = collect_fragments(payload.items_at("summary"), Fragment::MemberText);
    let mut i: usize = 0;
    proof {
        assert(parts.deep_view().take(0) =~= Seq::<Seq<char>>::empty());
        assert(old(turn)@.reasoning_summaries + Seq::<Seq<char>>::empty()
            =~= old(turn)@.reasoning_summaries);
    }
    while i < parts.len()
        invariant
            i <= parts@.len(),
            turn@ == with_summaries(old(turn)@, parts.deep_view().take(i as int)),
        decreases parts@.len() - i,
    {
        proof {
            let done = parts.deep_view().take(i as int);
            let next = parts.deep_view().take(i + 1);
            assert(next =~= done.push(parts@[i as int]@));
            assert(old(turn)@.reasoning_summaries + next =~= (old(turn)@.reasoning_summaries
                + done).push(parts@[i as int]@));
        }
        turn.push_reasoning_summary(parts[i].clone());
        i = i + 1;
    }
    proof {
        assert(parts.deep_view().take(parts@.len() as int) =~= parts.deep_view());
    }
    if payload.get("content").is_some() {
        turn.mark_reasoning_encrypted();
    }
}

/// A string of an optional document, copied.
pub open spec fn text_of(value: Option<JsonModel>) -> Option<Seq<char>> {
    match value {
        Some(v) => v.text(),
        None => None,
    }
}

/// The shell execution that the arguments of a call describe: the strings of
/// `command`, the working directory from `workdir` or `working_directory`, the
/// timeout from `timeout_ms` or `timeout`, and the escalation flag.
pub open spec fn shell_exec_of(arguments: Option<JsonModel>) -> ActionKindModel {
    match arguments {
        Some(args) => ActionKindModel::LocalShellExec {
            command: fragments_of(args.items_at("command"@), Fragment::Plain),
            workdir: text_of(args.either("workdir"@, "working_directory"@)),
            timeout_ms: match args.either("timeout_ms"@, "timeout"@) {
                Some(v) => v.unsigned(),
                None => None,
            },
            escalated: args.boolean_at("with_escalated_permissions"@),
        },
        None => ActionKindModel::LocalShellExec {
            command: Seq::empty(),
            workdir: None,
            timeout_ms: None,
            escalated: None,
        },
    }
}

/// The kind of action that a function call of the given name is.
pub open spec fn function_kind_of(
    name: Option<Seq<char>>,
    arguments: Option<JsonModel>,
) -> ActionKindModel {
    match name {
        Some(n) => if n == "shell"@ || n == "container.exec"@ {
            shell_exec_of(arguments)
        } else {
            ActionKindModel::FunctionCall { name: Some(n) }
        },
        None => ActionKindModel::FunctionCall { name: None },
    }
}

/// The turn after a function-call record whose arguments were read as
/// `arguments`: the action of its call id gets its kind and its arguments, and
/// the record joins the action's events.
pub open spec fn after_function_call(
    turn: TurnBuilderModel,
    timestamp: Timestamp,
    payload: JsonModel,
    arguments: Option<JsonModel>,
) -> TurnBuilderModel {
    let call_id = payload.text_at("call_id"@);
    let slot = turn.slot(call_id);
    turn.with_slot(
        call_id,
        ActionModel {
            kind: function_kind_of(payload.text_at("name"@), arguments),
            arguments,
            events: slot.events.push(
                ActionEventModel { timestamp, kind: "function_call"@, data: payload },
            ),
            ..slot
        },
    )
}

/// The shell execution that the arguments of a call describe.
pub fn shell_exec(arguments: Option<&JsonValue>) -> (out: ActionKind)
    ensures
        out@ == shell_exec_of(arguments.deep_view()),
{
    match arguments {
        Some(args) => {
            let command = collect_fragments(args.items_at("command"), Fragment::Plain);
            let workdir = match args.either("workdir", "working_directory") {
                Some(v) => match v.as_str() {
                    Some(s) => Some(s.to_owned()),
                    None => None,
                },
                None => None,
            };
            let timeout_ms = match args.either("timeout_ms", "timeout") {
                Some(v) => v.as_u64(),
                None => None,
            };
            let escalated = args.boolean_at("with_escalated_permissions");
            ActionKind::LocalShellExec { command, workdir, timeout_ms, escalated }
        },
        None => {
            let command: Vec<String> = Vec::new();
            proof {
                assert(command.deep_view() =~= Seq::<Seq<char>>::empty());
            }
            ActionKind::LocalShellExec {
                command,
                workdir: None,
                timeout_ms: None,
                escalated: None,
            }
        },
    }
}

/// Records a function call whose arguments have been read as `arguments`.
pub fn apply_function_call(
    turn: &mut TurnBuilder,
    timestamp: Timestamp,
    payload: &JsonValue,
    arguments: Option<JsonValue>,
)
    ensures
        final(turn)@ == after_function_call(
            old(turn)@,
            timestamp,
            payload@,
            arguments.deep_view(),
        ),
        old(turn)@.wf() ==> final(turn)@.wf(),
        final(turn)@.index == old(turn)@.index,
{
    let name = payload.str_at("name");
    let call_id = payload.str_at("call_id");
    let kind = match name {
        Some(n) => if str_eq(n, "shell") || str_eq(n, "container.exec") {
            shell_exec(arguments.as_ref())
        } else {
            ActionKind::FunctionCall { name: Some(n.to_owned()) }
        },
        None => ActionKind::FunctionCall { name: None },
    };
    let builder = turn.action_builder_mut(call_id);
    builder.set_kind(kind);
    builder.set_arguments(arguments);
    builder.push_event(timestamp, "function_call".to_owned(), payload.clone());
    proof {
        lemma_slot_call_id(old(turn)@, call_id.deep_view());
        if old(turn)@.wf() {
            lemma_with_slot_wf(old(turn)@, call_id.deep_view(), builder@);
        }
    }
}

/// Records a function call. Its `arguments` member holds JSON text; where
/// that text is no JSON document, the action has no arguments.
pub fn handle_function_call(turn: &mut TurnBuilder, timestamp: Timestamp, payload: &JsonValue)
    ensures
        final(turn)@ == after_function_call(
            old(turn)@,
            timestamp,
            payload@,
            json_document(or_empty(payload@.text_at("arguments"@))),
        ),
        old(turn)@.wf() ==> final(turn)@.wf(),
        final(turn)@.index == old(turn)@.index,
{
    let arguments_text = str_or_empty(payload.str_at("arguments"));
    let arguments = match JsonValue::parse(arguments_text) {
        Ok(v) => Some(v),
        Err(_) => None,
    };
    apply_function_call(turn, timestamp, payload, arguments)
}

/// The document that stands for the output of a function call: the document
/// read from the output text or, where the text is no JSON document, an
/// object whose member `content` holds the text.
pub open spec fn output_document(text: Seq<char>, parsed: Option<JsonModel>) -> JsonModel {
    match parsed {
        Some(v) => v,
        None => JsonModel::Object(seq![("content"@, JsonModel::Text(text))]),
    }
}

/// The output that a function-call-output record states: its content is the
/// `content` string of the output document, or the raw text where the
/// document has none.
pub open spec fn function_output_of(text: Seq<char>, parsed: Option<JsonModel>) -> ActionOutputModel {
    let raw = output_document(text, parsed);
    ActionOutputModel {
        content: Some(
            match raw.text_at("content"@) {
                Some(content) => content,
                None => text,
            },
        ),
        success: raw.boolean_at("success"@),
        raw,
    }
}

/// The turn after a function-call-output record whose output text was read
/// as `parsed`: the action of its call id gets the output, and the output's
/// content becomes the tool-output candidate for the fallback.
pub open spec fn after_function_output(
    turn: TurnBuilderModel,
    payload: JsonModel,
    parsed: Option<JsonModel>,
) -> TurnBuilderModel {
    let call_id = payload.text_at("call_id"@);
    let output = function_output_of(or_empty(payload.text_at("output"@)), parsed);
    TurnBuilderModel {
        fallback_tool_output: output.content,
        ..turn.with_slot(call_id, ActionModel { output: Some(output), ..turn.slot(call_id) })
    }
}

/// Records the output of a function call whose output text has been read as
/// `parsed`.
pub fn apply_function_output(turn: &mut TurnBuilder, payload: &JsonValue, parsed: Option<JsonValue>)
    ensures
        final(turn)@ == after_function_output(old(turn)@, payload@, parsed.deep_view()),
        old(turn)@.wf() ==> final(turn)@.wf(),
        final(turn)@.index == old(turn)@.index,
{
    let call_id = payload.str_at("call_id");
    let output_text = str_or_empty(payload.str_at("output"));
    let raw_output = match parsed {
        Some(v) => v,
        None => {
            let mut members: Vec<(String, JsonValue)> = Vec::new();
            members.push(("content".to_owned(), JsonValue::Text(output_text.to_owned())));
            proof {
                lemma_object_view(members);
                assert(members.deep_view() =~= seq![
                    ("content"@, JsonModel::Text(output_text@)),
                ]);
            }
            JsonValue::Object(members)
        },
    };
    let content_text = match raw_output.str_at("content") {
        Some(content) => content.to_owned(),
        None => output_text.to_owned(),
    };
    let success = raw_output.boolean_at("success");
    let builder = turn.action_builder_mut(call_id);
    builder.set_output(ActionOutput { content: Some(content_text.clone()), success, raw: raw_output });
    proof {
        lemma_slot_call_id(old(turn)@, call_id.deep_view());
        if old(turn)@.wf() {
            lemma_with_slot_wf(old(turn)@, call_id.deep_view(), builder@);
        }
    }
    turn.record_tool_output_text(content_text);
}

/// Records the output of a function call. Its `output` member holds text
/// that may be a JSON document.
pub fn handle_function_output(turn: &mut TurnBuilder, payload: &JsonValue)
    ensures
        final(turn)@ == after_function_output(
            old(turn)@,
            payload@,
            json_document(or_empty(payload@.text_at("output"@))),
        ),
        old(turn)@.wf() ==> final(turn)@.wf(),
        final(turn)@.index == old(turn)@.index,
{
    let output_text = str_or_empty(payload.str_at("output"));
    let parsed = match JsonValue::parse(output_text) {
        Ok(v) => Some(v),
        Err(_) => None,
    };
    apply_function_output(turn, payload, parsed)
}

/// The turn after a custom-tool-call record whose input text was read as
/// `input`: the action of its call id gets its kind, its arguments and its
/// status text.
pub open spec fn after_custom_tool_call(
    turn: TurnBuilderModel,
    payload: JsonModel,
    input: Option<JsonModel>,
) -> TurnBuilderModel {
    let call_id = payload.text_at("call_id"@);
    let slot = turn.slot(call_id);
    turn.with_slot(
        call_id,
        ActionModel {
            kind: ActionKindModel::CustomToolCall { name: payload.text_at("name"@) },
            arguments: input,
            status: ActionStatusModel {
                status_text: payload.text_at("status"@),
                ..slot.status
            },
            ..slot
        },
    )
}

/// Records a custom tool call whose input text has been read as `input`.
pub fn apply_custom_tool_call(turn: &mut TurnBuilder, payload: &JsonValue, input: Option<JsonValue>)
    ensures
        final(turn)@ == after_custom_tool_call(old(turn)@, payload@, input.deep_view()),
        old(turn)@.wf() ==> final(turn)@.wf(),
        final(turn)@.index == old(turn)@.index,
{
    let call_id = payload.str_at("call_id");
    let name = payload.text_at("name");
    let status = payload.text_at("status");
    let builder = turn.action_builder_mut(call_id);
    builder.set_kind(ActionKind::CustomToolCall { name });
    builder.set_arguments(input);
    builder.update_status_text(status);
    proof {
        lemma_slot_call_id(old(turn)@, call_id.deep_view());
        if old(turn)@.wf() {
            lemma_with_slot_wf(old(turn)@, call_id.deep_view(), builder@);
        }
    }
}

/// Records a custom tool call. Its `input` member holds JSON text; where
/// that text is no JSON document, the action has no arguments.
pub fn handle_custom_tool_call(turn: &mut TurnBuilder, payload: &JsonValue)
    ensures
        final(turn)@ == after_custom_tool_call(
            old(turn)@,
            payload@,
            json_document(or_empty(payload@.text_at("input"@))),
        ),
        old(turn)@.wf() ==> final(turn)@.wf(),
        final(turn)@.index == old(turn)@.index,
{
    let input_text = str_or_empty(payload.str_at("input"));
    let input = match JsonValue::parse(input_text) {
        Ok(v) => Some(v),
        Err(_) => None,
    };
    apply_custom_tool_call(turn, payload, input)
}

/// The turn after a custom-tool-output record: the action of its call id
/// gets the output text, which also becomes the tool-output candidate for the
/// fallback.
pub open spec fn after_custom_tool_output(turn: TurnBuilderModel, payload: JsonModel) -> TurnBuilderModel {
    let call_id = payload.text_at("call_id"@);
    let output = or_empty(payload.text_at("output"@));
    TurnBuilderModel {
        fallback_tool_output: Some(output),
        ..turn.with_slot(
            call_id,
            ActionModel {
                output: Some(
                    ActionOutputModel {
                        content: Some(output),
                        success: None,
                        raw: JsonModel::Text(output),
                    },
                ),
                ..turn.slot(call_id)
            },
        )
    }
}

/// Records the output of a custom tool call.
pub fn handle_custom_tool_output(turn: &mut TurnBuilder, payload: &JsonValue)
    ensures
        final(turn)@ == after_custom_tool_output(old(turn)@, payload@),
        old(turn)@.wf() ==> final(turn)@.wf(),
        final(turn)@.index == old(turn)@.index,
{
    let call_id = payload.str_at("call_id");
    let output = str_or_empty(payload.str_at("output"));
    let builder = turn.action_builder_mut(call_id);
    builder.set_output(
        ActionOutput {
            content: Some(output.to_owned()),
            success: None,
            raw: JsonValue::Text(output.to_owned()),
        },
    );
    proof {
        lemma_slot_call_id(old(turn)@, call_id.deep_view());
        if old(turn)@.wf() {
            lemma_with_slot_wf(old(turn)@, call_id.deep_view(), builder@);
        }
    }
    turn.record_tool_output_text(output.to_owned());
}

/// The document of a missing member: `null`.
pub open spec fn or_null(value: Option<JsonModel>) -> JsonModel {
    match value {
        Some(v) => v,
        None => JsonModel::Null,
    }
}

/// The turn after a local-shell-call record: the action of its call id
/// becomes a shell execution as its `action` member describes it, with the
/// record's status as both status texts and the `action` member as arguments.
pub open spec fn after_local_shell_call(turn: TurnBuilderModel, payload: JsonModel) -> TurnBuilderModel {
    let call_id = payload.text_at("call_id"@);
    let status = payload.text_at("status"@);
    let action = or_null(payload.field("action"@));
    turn.with_slot(
        call_id,
        ActionModel {
            kind: ActionKindModel::LocalShellExec {
                command: fragments_of(action.items_at("command"@), Fragment::Plain),
                workdir: text_of(action.either("working_directory"@, "workdir"@)),
                timeout_ms: action.unsigned_at("timeout_ms"@),
                escalated: action.boolean_at("with_escalated_permissions"@),
            },
            status: ActionStatusModel { status_text: status, local_status: status },
            arguments: Some(action),
            ..turn.slot(call_id)
        },
    )
}

/// Records a local shell call.
pub fn handle_local_shell_call(turn: &mut TurnBuilder, payload: &JsonValue)
    ensures
        final(turn)@ == after_local_shell_call(old(turn)@, payload@),
        old(turn)@.wf() ==> final(turn)@.wf(),
        final(turn)@.index == old(turn)@.index,
{
    let call_id = payload.str_at("call_id");
    let status = payload.text_at("status");
    let action = match payload.get("action") {
        Some(v) => v.clone(),
        None => JsonValue::Null,
    };
    let command = collect_fragments(action.items_at("command"), Fragment::Plain);
    let workdir = match action.either("working_directory", "workdir") {
        Some(v) => match v.as_str() {
            Some(s) => Some(s.to_owned()),
            None => None,
        },
        None => None,
    };
    let timeout_ms = action.unsigned_at("timeout_ms");
    let escalated = action.boolean_at("with_escalated_permissions");
    let builder = turn.action_builder_mut(call_id);
    builder.set_kind(ActionKind::LocalShellExec { command, workdir, timeout_ms, escalated });
    builder.update_status_text(status.clone());
    builder.update_local_status(status);
    builder.set_arguments(Some(action));
    proof {
        lemma_slot_call_id(old(turn)@, call_id.deep_view());
        if old(turn)@.wf() {
            lemma_with_slot_wf(old(turn)@, call_id.deep_view(), builder@);
        }
    }
}

/// The turn after a web-search-call record: the action of its call id
/// becomes a web search for the query of its `action` member, with that
/// member as arguments and the record's status as status text.
pub open spec fn after_web_search_call(turn: TurnBuilderModel, payload: JsonModel) -> TurnBuilderModel {
    let call_id = payload.text_at("call_id"@);
    let slot = turn.slot(call_id);
    turn.with_slot(
        call_id,
        ActionModel {
            kind: ActionKindModel::WebSearch {
                query: match payload.field("action"@) {
                    Some(action) => action.text_at("query"@),
                    None => None,
                },
            },
            arguments: payload.field("action"@),
            status: ActionStatusModel {
                status_text: payload.text_at("status"@),
                ..slot.status
            },
            ..slot
        },
    )
}

/// Records a web search call.
pub fn handle_web_search_call(turn: &mut TurnBuilder, payload: &JsonValue)
    ensures
        final(turn)@ == after_web_search_call(old(turn)@, payload@),
        old(turn)@.wf() ==> final(turn)@.wf(),
        final(turn)@.index == old(turn)@.index,
{
    let call_id = payload.str_at("call_id");
    let status = payload.text_at("status");
    let query = match payload.get("action") {
        Some(action) => action.text_at("query"),
        None => None,
    };
    let arguments = match payload.get("action") {
        Some(action) => Some(action.clone()),
        None => None,
    };
    let builder = turn.action_builder_mut(call_id);
    builder.set_kind(ActionKind::WebSearch { query });
    builder.set_arguments(arguments);
    builder.update_status_text(status);
    proof {
        lemma_slot_call_id(old(turn)@, call_id.deep_view());
        if old(turn)@.wf() {
            lemma_with_slot_wf(old(turn)@, call_id.deep_view(), builder@);
        }
    }
}

/// The turn with its start set to `timestamp` unless it has one.
pub open spec fn started(turn: TurnBuilderModel, timestamp: Timestamp) -> TurnBuilderModel {
    TurnBuilderModel {
        started_at: if turn.started_at is None {
            Some(timestamp)
        } else {
            turn.started_at
        },
        ..turn
    }
}

/// The turn after a response item, by the item's type.
pub open spec fn turn_after_response_item(
    turn: TurnBuilderModel,
    timestamp: Timestamp,
    payload: JsonModel,
) -> TurnBuilderModel {
    let kind = payload.text_at("type"@);
    if kind == Some("message"@) {
        after_message(turn, payload)
    } else if kind == Some("reasoning"@) {
        after_reasoning(turn, payload)
    } else if kind == Some("function_call"@) {
        after_function_call(
            turn,
            timestamp,
            payload,
            json_document(or_empty(payload.text_at("arguments"@))),
        )
    } else if kind == Some("function_call_output"@) {
        after_function_output(turn, payload, json_document(or_empty(payload.text_at("output"@))))
    } else if kind == Some("custom_tool_call"@) {
        after_custom_tool_call(turn, payload, json_document(or_empty(payload.text_at("input"@))))
    } else if kind == Some("custom_tool_call_output"@) {
        after_custom_tool_output(turn, payload)
    } else if kind == Some("local_shell_call"@) {
        after_local_shell_call(turn, payload)
    } else if kind == Some("web_search_call"@) {
        after_web_search_call(turn, payload)
    } else {
        turn
    }
}

/// The conversation after a response item at `timestamp`: the item is
/// recorded in the open turn, or in a new one where none is open.
pub open spec fn after_response_item(
    conversation: ConversationBuilderModel,
    timestamp: Timestamp,
    payload: JsonModel,
) -> ConversationBuilderModel {
    ConversationBuilderModel {
        current_turn: Some(
            turn_after_response_item(
                started(conversation.current_or_opened(timestamp), timestamp),
                timestamp,
                payload,
            ),
        ),
        ..conversation
    }
}

/// Records a response item in the turn it belongs to.
pub fn handle_response_item(
    builder: &mut ConversationBuilder,
    timestamp: Timestamp,
    payload: JsonValue,
)
    ensures
        final(builder)@ == after_response_item(old(builder)@, timestamp, payload@),
        old(builder)@.wf() ==> final(builder)@.wf(),
{
    let turn = builder.ensure_turn(timestamp);
    turn.ensure_started_at(timestamp);
    if payload.has_text("type", "message") {
        handle_message(turn, payload);
    } else if payload.has_text("type", "reasoning") {
        handle_reasoning(turn, &payload);
    } else if payload.has_text("type", "function_call") {
        handle_function_call(turn, timestamp, &payload);
    } else if payload.has_text("type", "function_call_output") {
        handle_function_output(turn, &payload);
    } else if payload.has_text("type", "custom_tool_call") {
        handle_custom_tool_call(turn, &payload);
    } else if payload.has_text("type", "custom_tool_call_output") {
        handle_custom_tool_output(turn, &payload);
    } else if payload.has_text("type", "local_shell_call") {
        handle_local_shell_call(turn, &payload);
    } else if payload.has_text("type", "web_search_call") {
        handle_web_search_call(turn, &payload);
    }
}

/// A telemetry record with the time it was written.
pub open spec fn timed(timestamp: Timestamp, payload: JsonModel) -> TimedModel<JsonModel> {
    TimedModel { timestamp, data: payload }
}

/// Appends a telemetry record to a list.
fn push_timed(list: &mut Vec<Timed<JsonValue>>, timestamp: Timestamp, payload: JsonValue)
    ensures
        final(list).deep_view() == old(list).deep_view().push(timed(timestamp, payload@)),
{
    let ghost before = list@;
    let record = Timed { timestamp, data: payload };
    list.push(record);
    proof {
        lemma_vec_pushed(before, *list, record);
        lemma_deep_of_vec(*old(list));
    }
}

/// The call id of an event: its member `call_id`, or `callId` where that
/// member is missing.
pub open spec fn call_id_of(payload: JsonModel) -> Option<Seq<char>> {
    text_of(payload.either("call_id"@, "callId"@))
}

/// The call id of an event.
pub fn extract_call_id(payload: &JsonValue) -> (out: Option<String>)
    ensures
        out.deep_view() == call_id_of(payload@),
{
    match payload.either("call_id", "callId") {
        Some(v) => match v.as_str() {
            Some(s) => Some(s.to_owned()),
            None => None,
        },
        None => None,
    }
}

/// Whether an event of this type belongs to an action: the begin and the end
/// of a command, of an MCP tool call and of a web search.
pub open spec fn is_action_event(kind: Seq<char>) -> bool {
    ||| kind == "exec_command_begin"@
    ||| kind == "exec_command_end"@
    ||| kind == "mcp_tool_call_begin"@
    ||| kind == "mcp_tool_call_end"@
    ||| kind == "web_search_begin"@
    ||| kind == "web_search_end"@
}

/// The turn with one more miscellaneous telemetry record.
pub open spec fn with_misc(
    turn: TurnBuilderModel,
    timestamp: Timestamp,
    payload: JsonModel,
) -> TurnBuilderModel {
    TurnBuilderModel {
        telemetry: TelemetryModel {
            misc_events: turn.telemetry.misc_events.push(timed(timestamp, payload)),
            ..turn.telemetry
        },
        ..turn
    }
}

/// The turn with `text`, where there is one, as the live candidate for the
/// fallback.
pub open spec fn with_live_text(turn: TurnBuilderModel, text: Option<Seq<char>>) -> TurnBuilderModel {
    match text {
        Some(t) => TurnBuilderModel { fallback_event: Some(t), ..turn },
        None => turn,
    }
}

/// The turn after an event, by the event's type. Agent messages and agent
/// reasoning leave their text as the live candidate for the fallback and are
/// kept as miscellaneous telemetry; token counts, plan updates and approval
/// requests go to their own lists; events of an action join the events of the
/// action with their call id; anything else is miscellaneous telemetry.
pub open spec fn turn_after_event(
    turn: TurnBuilderModel,
    timestamp: Timestamp,
    payload: JsonModel,
) -> TurnBuilderModel {
    let kind = payload.text_at("type"@);
    if kind == Some("agent_message"@) {
        with_misc(with_live_text(turn, payload.text_at("message"@)), timestamp, payload)
    } else if kind == Some("agent_reasoning"@) || kind == Some("agent_reasoning_raw_content"@) {
        with_misc(with_live_text(turn, payload.text_at("text"@)), timestamp, payload)
    } else if kind == Some("token_count"@) {
        TurnBuilderModel {
            telemetry: TelemetryModel {
                token_counts: turn.telemetry.token_counts.push(timed(timestamp, payload)),
                ..turn.telemetry
            },
            ..turn
        }
    } else if kind == Some("plan_update"@) {
        TurnBuilderModel {
            telemetry: TelemetryModel {
                plan_updates: turn.telemetry.plan_updates.push(timed(timestamp, payload)),
                ..turn.telemetry
            },
            ..turn
        }
    } else if kind == Some("exec_approval_request"@) || kind == Some(
        "apply_patch_approval_request"@,
    ) {
        TurnBuilderModel {
            telemetry: TelemetryModel {
                approvals: turn.telemetry.approvals.push(timed(timestamp, payload)),
                ..turn.telemetry
            },
            ..turn
        }
    } else if kind is Some && is_action_event(kind->0) {
        let call_id = call_id_of(payload);
        let slot = turn.slot(call_id);
        turn.with_slot(
            call_id,
            ActionModel {
                events: slot.events.push(
                    ActionEventModel { timestamp, kind: kind->0, data: payload },
                ),
                ..slot
            },
        )
    } else {
        with_misc(turn, timestamp, payload)
    }
}

/// Records an event in a turn.
pub fn record_event(turn: &mut TurnBuilder, timestamp: Timestamp, payload: JsonValue)
    ensures
        final(turn)@ == turn_after_event(old(turn)@, timestamp, payload@),
        old(turn)@.wf() ==> final(turn)@.wf(),
        final(turn)@.index == old(turn)@.index,
{
    if payload.has_text("type", "agent_message") {
        if let Some(message) = payload.str_at("message") {
            turn.record_event_agent_message(message.to_owned());
        }
        push_timed(&mut turn.telemetry.misc_events, timestamp, payload);
    } else if payload.has_text("type", "agent_reasoning") || payload.has_text(
        "type",
        "agent_reasoning_raw_content",
    ) {
        if let Some(text) = payload.str_at("text") {
            turn.record_event_agent_message(text.to_owned());
        }
        push_timed(&mut turn.telemetry.misc_events, timestamp, payload);
    } else if payload.has_text("type", "token_count") {
        push_timed(&mut turn.telemetry.token_counts, timestamp, payload);
    } else if payload.has_text("type", "plan_update") {
        push_timed(&mut turn.telemetry.plan_updates, timestamp, payload);
    } else if payload.has_text("type", "exec_approval_request") || payload.has_text(
        "type",
        "apply_patch_approval_request",
    ) {
        push_timed(&mut turn.telemetry.approvals, timestamp, payload);
    } else if payload.has_text("type", "exec_command_begin") || payload.has_text("type", "exec_command_end")
        || payload.has_text("type", "mcp_tool_call_begin") || payload.has_text("type", "mcp_tool_call_end")
        || payload.has_text("type", "web_search_begin") || payload.has_text("type", "web_search_end") {
        let call_id = extract_call_id(&payload);
        let kind = str_or_empty(payload.str_at("type")).to_owned();
        let id = match &call_id {
            Some(id) => Some(id.as_str()),
            None => None,
        };
        let builder = turn.action_builder_mut(id);
        builder.push_event(timestamp, kind, payload);
        proof {
            lemma_slot_call_id(old(turn)@, call_id.deep_view());
            if old(turn)@.wf() {
                lemma_with_slot_wf(old(turn)@, call_id.deep_view(), builder@);
            }
        }
    } else {
        push_timed(&mut turn.telemetry.misc_events, timestamp, payload);
    }
}

/// The conversation after an event at `timestamp`: the event is recorded in
/// the open turn, or in a new one where none is open, and a token count with
/// a usage report updates the conversation's usage summary.
pub open spec fn after_event(
    conversation: ConversationBuilderModel,
    timestamp: Timestamp,
    payload: JsonModel,
) -> ConversationBuilderModel {
    let recorded = ConversationBuilderModel {
        current_turn: Some(
            turn_after_event(
                started(conversation.current_or_opened(timestamp), timestamp),
                timestamp,
                payload,
            ),
        ),
        ..conversation
    };
    if payload.text_at("type"@) == Some("token_count"@) && payload.field("info"@) is Some {
        ConversationBuilderModel {
            token_usage: recorded.token_usage.updated(payload.field("info"@)->0),
            ..recorded
        }
    } else {
        recorded
    }
}

/// Records an event in the turn it belongs to.
pub fn handle_event(builder: &mut ConversationBuilder, timestamp: Timestamp, payload: JsonValue)
    ensures
        final(builder)@ == after_event(old(builder)@, timestamp, payload@),
        old(builder)@.wf() ==> final(builder)@.wf(),
{
    let info = if payload.has_text("type", "token_count") {
        match payload.get("info") {
            Some(info) => Some(info.clone()),
            None => None,
        }
    } else {
        None
    };
    let turn = builder.ensure_turn(timestamp);
    turn.ensure_started_at(timestamp);
    record_event(turn, timestamp, payload);
    if let Some(info) = info {
        builder.update_token_usage(&info);
    }
}

/// The conversation after a compaction record at `timestamp`: its message,
/// where it has one, becomes an assistant message of the turn and the
/// tool-output candidate for the fallback.
pub open spec fn after_compacted(
    conversation: ConversationBuilderModel,
    timestamp: Timestamp,
    payload: JsonModel,
) -> ConversationBuilderModel {
    let turn = started(conversation.current_or_opened(timestamp), timestamp);
    ConversationBuilderModel {
        current_turn: Some(
            match payload.text_at("message"@) {
                Some(message) => TurnBuilderModel {
                    assistant_messages: turn.assistant_messages.push(message),
                    fallback_tool_output: Some(message),
                    ..turn
                },
                None => turn,
            },
        ),
        ..conversation
    }
}

/// Records a compaction record in the turn it belongs to.
pub fn handle_compacted(builder: &mut ConversationBuilder, timestamp: Timestamp, payload: JsonValue)
    ensures
        final(builder)@ == after_compacted(old(builder)@, timestamp, payload@),
        old(builder)@.wf() ==> final(builder)@.wf(),
{
    let turn = builder.ensure_turn(timestamp);
    turn.ensure_started_at(timestamp);
    if let Some(message) = payload.str_at("message") {
        turn.push_assistant_message(message.to_owned());
        turn.record_tool_output_text(message.to_owned());
    }
}

/// Whether a record without a type is session metadata of the old form: it
/// has an `id` and a `timestamp`, and neither `type` nor `record_type`.
pub open spec fn legacy_session_meta(value: JsonModel) -> bool {
    &&& value.field("type"@) is None
    &&& value.field("record_type"@) is None
    &&& value.field("id"@) is Some
    &&& value.field("timestamp"@) is Some
}

/// Whether a record without a type is session metadata of the old form.
pub fn is_legacy_session_meta(value: &JsonValue) -> (yes: bool)
    ensures
        yes == legacy_session_meta(value@),
{
    value.get("type").is_none() && value.get("record_type").is_none() && value.get("id").is_some()
        && value.get("timestamp").is_some()
}

/// Why a transcript could not be read.
#[derive(Debug)]
pub enum ParseError {
    /// A line is no JSON document.
    Json(serde_json::Error),
    /// A record lacks a member that it needs.
    MissingField(&'static str),
    /// A record's timestamp is not in the RFC 3339 format.
    Timestamp(String, time::error::Parse),
}

/// The kind of a [`ParseError`], with the field or the text it names.
pub enum ParseFailure {
    Json,
    MissingField(Seq<char>),
    Timestamp(Seq<char>),
}

impl View for ParseError {
    type V = ParseFailure;

    open spec fn view(&self) -> ParseFailure {
        match self {
            ParseError::Json(_) => ParseFailure::Json,
            ParseError::MissingField(name) => ParseFailure::MissingField(name@),
            ParseError::Timestamp(text, _) => ParseFailure::Timestamp(text@),
        }
    }
}

/// The conversation after a record of type `kind` at `timestamp`.
pub open spec fn after_typed_record(
    conversation: ConversationBuilderModel,
    timestamp: Timestamp,
    kind: Seq<char>,
    value: JsonModel,
) -> ConversationBuilderModel {
    let payload = value.field("payload"@);
    if kind == "session_meta"@ {
        ConversationBuilderModel {
            session_meta: Some(
                match payload {
                    Some(p) => p,
                    None => value,
                },
            ),
            ..conversation
        }
    } else if kind == "turn_context"@ {
        match payload {
            Some(p) => ConversationBuilderModel {
                turns: conversation.closed_turns(),
                current_turn: Some(conversation.next_turn(turn_context_of(p), timestamp)),
                ..conversation
            },
            None => conversation,
        }
    } else if kind == "response_item"@ {
        match payload {
            Some(p) => after_response_item(conversation, timestamp, p),
            None => conversation,
        }
    } else if kind == "event_msg"@ {
        match payload {
            Some(p) => after_event(conversation, timestamp, p),
            None => conversation,
        }
    } else if kind == "compacted"@ {
        match payload {
            Some(p) => after_compacted(conversation, timestamp, p),
            None => conversation,
        }
    } else {
        conversation
    }
}

/// The timestamp that a record is read at: the one it states, else the last
/// one seen, else the first one seen.
pub open spec fn effective_timestamp(
    conversation: ConversationBuilderModel,
    stated: Option<Timestamp>,
) -> Option<Timestamp> {
    match stated {
        Some(t) => Some(t),
        None => match conversation.last_timestamp {
            Some(last) => Some(last),
            None => conversation.first_timestamp,
        },
    }
}

/// The conversation after a record that states the timestamp `stated`, or
/// the failure that the record ends the reading with. A record without a
/// timestamp of its own and with none seen before fails for the missing
/// `timestamp`; a record without a type is kept as session metadata where it
/// has the old form of such a record, and fails for the missing `type`
/// otherwise.
pub open spec fn after_record(
    conversation: ConversationBuilderModel,
    value: JsonModel,
    stated: Option<Timestamp>,
) -> Result<ConversationBuilderModel, ParseFailure> {
    let seen = match stated {
        Some(t) => conversation.observed(t),
        None => conversation,
    };
    match effective_timestamp(conversation, stated) {
        None => Err(ParseFailure::MissingField("timestamp"@)),
        Some(timestamp) => match value.text_at("type"@) {
            Some(kind) => Ok(after_typed_record(seen, timestamp, kind, value)),
            None => if legacy_session_meta(value) {
                Ok(ConversationBuilderModel { session_meta: Some(value), ..seen })
            } else {
                Err(ParseFailure::MissingField("type"@))
            },
        },
    }
}

/// Takes a record into the conversation. `stated` is the timestamp that the
/// record states, already read.
pub fn apply_record(builder: &mut ConversationBuilder, value: JsonValue, stated: Option<Timestamp>) -> (out:
    Result<(), ParseError>)
    ensures
        match out {
            Ok(_) => after_record(old(builder)@, value@, stated) == Ok::<
                ConversationBuilderModel,
                ParseFailure,
            >(final(builder)@),
            Err(e) => after_record(old(builder)@, value@, stated) == Err::<
                ConversationBuilderModel,
                ParseFailure,
            >(e@),
        },
        old(builder)@.wf() ==> final(builder)@.wf(),
{
    let timestamp = match stated {
        Some(t) => {
            builder.observe_timestamp(t);
            t
        },
        None => match builder.last_timestamp {
            Some(last) => last,
            None => match builder.first_timestamp {
                Some(first) => first,
                None => {
                    return Err(ParseError::MissingField("timestamp"));
                },
            },
        },
    };
    if value.str_at("type").is_none() {
        if is_legacy_session_meta(&value) {
            builder.session_meta = Some(value);
            return Ok(());
        }
        return Err(ParseError::MissingField("type"));
    }
    proof {
        if builder@.wf() {
            builder@.lemma_closed_turns_indexed();
        }
    }
    if value.has_text("type", "session_meta") {
        let meta = match value.get("payload") {
            Some(p) => p.clone(),
            None => value.clone(),
        };
        builder.session_meta = Some(meta);
    } else if value.has_text("type", "turn_context") {
        if let Some(payload) = value.get("payload") {
            let context = parse_turn_context(payload.clone());
            let _ = builder.start_new_turn(context, timestamp);
        }
    } else if value.has_text("type", "response_item") {
        if let Some(payload) = value.get("payload") {
            handle_response_item(builder, timestamp, payload.clone());
        }
    } else if value.has_text("type", "event_msg") {
        if let Some(payload) = value.get("payload") {
            handle_event(builder, timestamp, payload.clone());
        }
    } else if value.has_text("type", "compacted") {
        if let Some(payload) = value.get("payload") {
            handle_compacted(builder, timestamp, payload.clone());
        }
    }
    Ok(())
}

/// The conversation after a document, where `instant` is what the timestamp
/// text of the document, if it has one, was read as. Internal records, whose
/// `record_type` is `state`, are passed over.
pub open spec fn after_document(
    conversation: ConversationBuilderModel,
    value: JsonModel,
    instant: Option<Timestamp>,
) -> Result<ConversationBuilderModel, ParseFailure> {
    if value.text_at("record_type"@) == Some("state"@) {
        Ok(conversation)
    } else {
        match value.text_at("timestamp"@) {
            Some(text) => match instant {
                Some(t) => after_record(conversation, value, Some(t)),
                None => Err(ParseFailure::Timestamp(text)),
            },
            None => after_record(conversation, value, None),
        }
    }
}

/// What reading the timestamp text of a document gives, if it has one.
pub open spec fn instant_of(value: JsonModel) -> Option<Timestamp> {
    match value.text_at("timestamp"@) {
        Some(text) => rfc3339_instant(text),
        None => None,
    }
}

/// Takes a document into the conversation.
pub fn read_record(builder: &mut ConversationBuilder, value: JsonValue) -> (out: Result<
    (),
    ParseError,
>)
    ensures
        match out {
            Ok(_) => after_document(old(builder)@, value@, instant_of(value@)) == Ok::<
                ConversationBuilderModel,
                ParseFailure,
            >(final(builder)@),
            Err(e) => after_document(old(builder)@, value@, instant_of(value@)) == Err::<
                ConversationBuilderModel,
                ParseFailure,
            >(e@),
        },
        old(builder)@.wf() ==> final(builder)@.wf(),
{
    if value.has_text("record_type", "state") {
        return Ok(());
    }
    let stated = match value.str_at("timestamp") {
        Some(text) => match Timestamp::parse_rfc3339(text) {
            Ok(t) => Some(t),
            Err(e) => {
                return Err(ParseError::Timestamp(text.to_owned(), e));
            },
        },
        None => None,
    };
    apply_record(builder, value, stated)
}

/// The conversation after a line. A line of whitespace is passed over; any
/// other line has to be a JSON document.
pub open spec fn after_line(
    conversation: ConversationBuilderModel,
    line: Seq<char>,
) -> Result<ConversationBuilderModel, ParseFailure> {
    if trimmed(line).len() == 0 {
        Ok(conversation)
    } else {
        match json_document(line) {
            Some(value) => after_document(conversation, value, instant_of(value)),
            None => Err(ParseFailure::Json),
        }
    }
}

/// The conversation after the lines, read in order up to the first failure.
pub open spec fn after_lines(
    conversation: ConversationBuilderModel,
    lines: Seq<Seq<char>>,
) -> Result<ConversationBuilderModel, ParseFailure>
    decreases lines.len(),
{
    if lines.len() == 0 {
        Ok(conversation)
    } else {
        match after_lines(conversation, lines.drop_last()) {
            Ok(c) => after_line(c, lines.last()),
            Err(e) => Err(e),
        }
    }
}

/// The record that a transcript holds, or the failure that ends its reading.
pub open spec fn parsed_rollout(text: Seq<char>) -> Result<ConversationModel, ParseFailure> {
    match after_lines(ConversationBuilderModel::empty(), lines_of(text)) {
        Ok(c) => Ok(c.finalized()),
        Err(e) => Err(e),
    }
}

/// Reads a transcript, one JSON record per line, into a conversation record.
pub fn parse_rollout(text: &str) -> (out: Result<ConversationRecord, ParseError>)
    ensures
        match out {
            Ok(record) => parsed_rollout(text@) == Ok::<ConversationModel, ParseFailure>(record@)
                && record@.well_formed(),
            Err(e) => parsed_rollout(text@) == Err::<ConversationModel, ParseFailure>(e@),
        },
{
    let lines = split_lines(text);
    let mut builder = ConversationBuilder::default();
    let mut i: usize = 0;
    proof {
        assert(lines.deep_view().take(0) =~= Seq::<Seq<char>>::empty());
    }
    while i < lines.len()
        invariant
            i <= lines@.len(),
            builder@.wf(),
            lines.deep_view() == lines_of(text@),
            after_lines(ConversationBuilderModel::empty(), lines.deep_view().take(i as int)) == Ok::<
                ConversationBuilderModel,
                ParseFailure,
            >(builder@),
        decreases lines@.len() - i,
    {
        let line = lines[i].as_str();
        proof {
            let next = lines.deep_view().take(i + 1);
            assert(next.drop_last() =~= lines.deep_view().take(i as int));
            assert(next.last() == line@);
        }
        let ghost all = lines.deep_view();
        let blank = trim(line).as_str().is_empty();
        if !blank {
            let value = match JsonValue::parse(line) {
                Ok(v) => v,
                Err(e) => {
                    proof {
                        lemma_failure_stays(ConversationBuilderModel::empty(), all, i + 1);
                        assert(all.take(all.len() as int) =~= all);
                    }
                    return Err(ParseError::Json(e));
                },
            };
            match read_record(&mut builder, value) {
                Ok(_) => {},
                Err(e) => {
                    proof {
                        lemma_failure_stays(ConversationBuilderModel::empty(), all, i + 1);
                        assert(all.take(all.len() as int) =~= all);
                    }
                    return Err(e);
                },
            }
        }
        i = i + 1;
    }
    proof {
        assert(lines.deep_view().take(lines@.len() as int) =~= lines.deep_view());
        builder@.lemma_closed_turns_indexed();
    }
    Ok(builder.finalize())
}

/// Once the reading of a prefix of the lines has failed, the reading of all
/// lines fails the same way.
pub proof fn lemma_failure_stays(
    conversation: ConversationBuilderModel,
    lines: Seq<Seq<char>>,
    n: int,
)
    requires
        0 <= n <= lines.len(),
        after_lines(conversation, lines.take(n)) is Err,
    ensures
        after_lines(conversation, lines) == after_lines(conversation, lines.take(n)),
    decreases lines.len() - n,
{
    if n < lines.len() {
        assert(lines.take(n + 1).drop_last() =~= lines.take(n));
        lemma_failure_stays(conversation, lines, n + 1);
    } else {
        assert(lines.take(n) =~= lines);
    }
}

/// An action with one more event.
pub open spec fn with_event(action: ActionModel, event: ActionEventModel) -> ActionModel {
    ActionModel { events: action.events.push(event), ..action }
}

/// An event of an action joins the events of the action with its call id,
/// and changes nothing else of the turn.
pub proof fn lemma_action_event_effect(
    turn: TurnBuilderModel,
    timestamp: Timestamp,
    payload: JsonModel,
)
    requires
        payload.text_at("type"@) is Some,
        is_action_event(payload.text_at("type"@)->0),
    ensures
        turn_after_event(turn, timestamp, payload) == turn.with_slot(
            call_id_of(payload),
            with_event(
                turn.slot(call_id_of(payload)),
                ActionEventModel {
                    timestamp,
                    kind: payload.text_at("type"@)->0,
                    data: payload,
                },
            ),
        ),
{
    reveal_strlit("agent_message");
    reveal_strlit("agent_reasoning");
    reveal_strlit("agent_reasoning_raw_content");
    reveal_strlit("token_count");
    reveal_strlit("plan_update");
    reveal_strlit("exec_approval_request");
    reveal_strlit("apply_patch_approval_request");
    reveal_strlit("exec_command_begin");
    reveal_strlit("exec_command_end");
    reveal_strlit("mcp_tool_call_begin");
    reveal_strlit("mcp_tool_call_end");
    reveal_strlit("web_search_begin");
    reveal_strlit("web_search_end");
    let kind = payload.text_at("type"@)->0;
    assert(kind.len() == 18 || kind.len() == 16 || kind.len() == 19 || kind.len() == 17
        || kind.len() == 14);
}

/// Two events of actions with different call ids can be read in either
/// order: the turn comes out the same.
pub proof fn lemma_action_events_commute(
    turn: TurnBuilderModel,
    first_at: Timestamp,
    first: JsonModel,
    second_at: Timestamp,
    second: JsonModel,
)
    requires
        turn.wf(),
        first.text_at("type"@) is Some,
        is_action_event(first.text_at("type"@)->0),
        second.text_at("type"@) is Some,
        is_action_event(second.text_at("type"@)->0),
        call_id_of(first) is Some,
        call_id_of(second) is Some,
        call_id_of(first) != call_id_of(second),
    ensures
        turn_after_event(turn_after_event(turn, first_at, first), second_at, second)
            == turn_after_event(turn_after_event(turn, second_at, second), first_at, first),
        turn_after_event(turn_after_event(turn, first_at, first), second_at, second).finished()
            == turn_after_event(
            turn_after_event(turn, second_at, second),
            first_at,
            first,
        ).finished(),
{
    let a = call_id_of(first)->0;
    let b = call_id_of(second)->0;
    let event_a = ActionEventModel {
        timestamp: first_at,
        kind: first.text_at("type"@)->0,
        data: first,
    };
    let event_b = ActionEventModel {
        timestamp: second_at,
        kind: second.text_at("type"@)->0,
        data: second,
    };
    let for_a = |x: ActionModel| with_event(x, event_a);
    let for_b = |x: ActionModel| with_event(x, event_b);
    lemma_action_event_effect(turn, first_at, first);
    lemma_action_event_effect(turn, second_at, second);
    lemma_action_event_effect(turn_after_event(turn, first_at, first), second_at, second);
    lemma_action_event_effect(turn_after_event(turn, second_at, second), first_at, first);
    lemma_slots_commute(turn, a, for_a, b, for_b);
}

/// The fallback of a turn without an assistant message is its latest
/// reasoning summary where it has one, whatever tool output is recorded in
/// the turn, before or after.
pub proof fn lemma_reasoning_outranks_tool_output(
    turn: TurnBuilderModel,
    tool_output: Option<Seq<char>>,
)
    requires
        turn.assistant_messages.len() == 0,
        turn.fallback_reasoning is Some,
    ensures
        turn.fallback() == Some(
            FallbackModel {
                source: FallbackSource::AssistantReasoning,
                text: turn.fallback_reasoning->0,
            },
        ),
        (TurnBuilderModel { fallback_tool_output: tool_output, ..turn }).fallback()
            == turn.fallback(),
{
}

/// A tool output that is recorded after a reasoning summary does not change
/// the fallback of a turn without an assistant message.
pub proof fn lemma_later_tool_output_keeps_fallback(
    turn: TurnBuilderModel,
    payload: JsonModel,
    parsed: Option<JsonModel>,
)
    requires
        turn.assistant_messages.len() == 0,
        turn.fallback_reasoning is Some,
    ensures
        after_function_output(turn, payload, parsed).finished().result.fallback
            == turn.finished().result.fallback,
        after_custom_tool_output(turn, payload).finished().result.fallback
            == turn.finished().result.fallback,
{
}

/// A turn context that is directly followed by another one leaves no turn:
/// after both records the kept turns are those that were kept when the
/// first was read.
pub proof fn lemma_empty_turn_is_pruned(
    conversation: ConversationBuilderModel,
    first_at: Timestamp,
    first: JsonModel,
    second_at: Timestamp,
    second: JsonModel,
)
    requires
        first.field("payload"@) is Some,
        second.field("payload"@) is Some,
    ensures
        after_typed_record(
            after_typed_record(conversation, first_at, "turn_context"@, first),
            second_at,
            "turn_context"@,
            second,
        ).turns == conversation.closed_turns(),
{
    reveal_strlit("turn_context");
    reveal_strlit("session_meta");
    assert("turn_context"@[0] != "session_meta"@[0]);
    let opened = after_typed_record(conversation, first_at, "turn_context"@, first);
    assert(opened.current_turn->0.is_empty());
}

} // verus!
