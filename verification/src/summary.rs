//! The summary of a turn that is handed to an embedding backend.

use crate::stats::seq_of;
use crate::storage::{join_assistant_messages, paragraphs};
use crate::text::{
    decimal, decimal_string, join, joined, or_empty, prefix_chars, take_chars, trim, trimmed,
};
use crate::types::{
    ActionKind, ActionKindModel, ActionModel, ActionRecord, ConversationRecord, FallbackSource,
    TurnModel, TurnRecord, UserInputModel, UserInputRecord,
};
use crate::views::{deep, lemma_deep_of_vec, lemma_vec_pushed};
use vstd::prelude::*;

verus! {

/// The marker that stands for the images of a user input.
pub open spec fn image_marker(count: nat) -> Seq<char> {
    "["@ + decimal(count) + " image(s)]"@
}

/// What a user input shows of itself: its text, and on a line of its own
/// the marker for its images.
pub open spec fn input_fragment(input: UserInputModel) -> Seq<char> {
    let text = or_empty(input.text);
    if input.images.len() == 0 {
        text
    } else if text.len() == 0 {
        image_marker(input.images.len())
    } else {
        text + "\n"@ + image_marker(input.images.len())
    }
}

/// A user input as the summary shows it, numbered by its position; nothing
/// for an input without text and images.
pub open spec fn rendered_input(position: nat, input: UserInputModel) -> Option<Seq<char>> {
    let fragment = input_fragment(input);
    if fragment.len() == 0 {
        None
    } else {
        Some("#"@ + decimal(position) + " "@ + trimmed(fragment))
    }
}

/// The user inputs as the summary shows them; each keeps the number of its
/// position among all inputs, counted from one.
pub open spec fn rendered_inputs(inputs: Seq<UserInputModel>) -> Seq<Seq<char>>
    decreases inputs.len(),
{
    if inputs.len() == 0 {
        Seq::empty()
    } else {
        match rendered_input(inputs.len(), inputs.last()) {
            Some(r) => rendered_inputs(inputs.drop_last()).push(r),
            None => rendered_inputs(inputs.drop_last()),
        }
    }
}

/// A section of the summary: a heading and, below it, the entries joined by
/// `sep`; nothing where there is no entry.
pub open spec fn section(heading: Seq<char>, entries: Seq<Seq<char>>, sep: Seq<char>) -> Option<
    Seq<char>,
> {
    if entries.len() == 0 {
        None
    } else {
        Some(heading + joined(entries, sep))
    }
}

/// The name of a fallback source as the summary shows it.
pub open spec fn source_name(source: FallbackSource) -> Seq<char> {
    match source {
        FallbackSource::AssistantReasoning => "AssistantReasoning"@,
        FallbackSource::ToolOutput => "ToolOutput"@,
        FallbackSource::EventStream => "EventStream"@,
    }
}

/// What the assistant's section of the summary holds: the messages joined
/// by a paragraph break, and the fallback text with its source before it.
pub open spec fn result_texts(turn: TurnModel) -> Seq<Seq<char>> {
    seq_of(paragraphs(turn.result.assistant_messages)) + seq_of(
        match turn.result.fallback {
            Some(f) => Some("[fallback "@ + source_name(f.source) + "] "@ + f.text),
            None => None,
        },
    )
}

/// What the summary says of the kind of an action.
pub open spec fn kind_summary(kind: ActionKindModel) -> Seq<char> {
    match kind {
        ActionKindModel::FunctionCall { name } => "function_call "@ + match name {
            Some(n) => n,
            None => "(unknown)"@,
        },
        ActionKindModel::CustomToolCall { name } => "custom_tool "@ + match name {
            Some(n) => n,
            None => "(unknown)"@,
        },
        ActionKindModel::LocalShellExec { command, workdir, .. } => match workdir {
            Some(dir) => "shell `"@ + joined(command, " "@) + "` (cwd: "@ + dir + ")"@,
            None => "shell `"@ + joined(command, " "@) + "`"@,
        },
        ActionKindModel::WebSearch { query } => "web_search "@ + match query {
            Some(q) => q,
            None => "(query missing)"@,
        },
        ActionKindModel::Other { kind } => match kind {
            Some(k) => k,
            None => "other"@,
        },
    }
}

/// How many characters of an action's output the summary shows.
pub const OUTPUT_SNIPPET_CHARS: usize = 200;

/// What the summary shows of the output of an action: the trimmed content,
/// cut after its first characters; nothing for blank content.
pub open spec fn output_snippet(action: ActionModel) -> Option<Seq<char>> {
    match action.output {
        Some(output) => match output.content {
            Some(content) => if trimmed(content).len() == 0 {
                None
            } else {
                Some(prefix_chars(trimmed(content), OUTPUT_SNIPPET_CHARS as nat))
            },
            None => None,
        },
        None => None,
    }
}

/// The status that the summary shows for an action: its status text, or its
/// local status where it has no status text.
pub open spec fn shown_status(action: ActionModel) -> Option<Seq<char>> {
    match action.status.status_text {
        Some(s) => Some(s),
        None => action.status.local_status,
    }
}

/// `text` between `before` and `after`; nothing where there is no text.
pub open spec fn wrapped(before: Seq<char>, text: Option<Seq<char>>, after: Seq<char>) -> Seq<
    char,
> {
    match text {
        Some(t) => before + t + after,
        None => Seq::empty(),
    }
}

/// The line of the summary for an action: its kind, its call id, its status
/// and a snippet of its output.
pub open spec fn action_summary(action: ActionModel) -> Seq<char> {
    "- "@ + kind_summary(action.kind) + wrapped(" (call_id="@, action.call_id, ")"@) + wrapped(
        " [status: "@,
        shown_status(action),
        "]"@,
    ) + wrapped(" -> "@, output_snippet(action), Seq::empty())
}

/// The lines of the summary for the actions.
pub open spec fn action_summaries(actions: Seq<ActionModel>) -> Seq<Seq<char>> {
    Seq::new(actions.len(), |i: int| action_summary(actions[i]))
}

/// The sections of the summary of a turn: the user's inputs, the assistant's
/// texts, the actions.
pub open spec fn summary_sections(turn: TurnModel) -> Seq<Seq<char>> {
    seq_of(section("User:\n"@, rendered_inputs(turn.user_inputs), "\n\n"@)) + seq_of(
        section("Assistant:\n"@, result_texts(turn), "\n\n"@),
    ) + seq_of(section("Actions:\n"@, action_summaries(turn.actions), "\n"@))
}

/// The summary of a turn that is handed to an embedding backend.
pub open spec fn turn_summary(turn: TurnModel) -> Seq<char> {
    if summary_sections(turn).len() == 0 {
        "No transcript recorded for this turn."@
    } else {
        joined(summary_sections(turn), "\n\n"@)
    }
}

/// Appends `before`, `text` and `after` to `out` where there is a text.
fn append_wrapped(out: &mut String, before: &str, text: Option<&str>, after: &str)
    ensures
        final(out)@ == old(out)@ + wrapped(before@, text.deep_view(), after@),
{
    match text {
        Some(t) => {
            out.append(before);
            out.append(t);
            out.append(after);
            proof {
                assert(out@ =~= old(out)@ + (before@ + t@ + after@));
            }
        },
        None => {
            proof {
                assert(out@ =~= old(out)@ + Seq::<char>::empty());
            }
        },
    }
}

/// A section of the summary, appended to `sections` where it has an entry.
fn push_section(sections: &mut Vec<String>, heading: &str, entries: &Vec<String>, sep: &str)
    ensures
        final(sections).deep_view() == old(sections).deep_view() + seq_of(
            section(heading@, entries.deep_view(), sep@),
        ),
{
    if entries.is_empty() {
        proof {
            assert(sections.deep_view() + Seq::<Seq<char>>::empty() =~= sections.deep_view());
        }
    } else {
        let mut text = heading.to_owned();
        text.append(join(entries, sep).as_str());
        let ghost before = sections@;
        sections.push(text);
        proof {
            lemma_vec_pushed(before, *sections, text);
            lemma_deep_of_vec(*old(sections));
            assert(sections.deep_view() =~= old(sections).deep_view() + seq![text@]);
        }
    }
}

/// What a user input shows of itself.
fn render_input_fragment(input: &UserInputRecord) -> (out: String)
    ensures
        out@ == input_fragment(input@),
{
    let mut fragment = String::new();
    if let Some(text) = &input.text {
        fragment.append(text.as_str());
    }
    proof {
        assert(fragment@ =~= or_empty(input@.text));
    }
    if !input.images.is_empty() {
        let ghost text = fragment@;
        if !fragment.as_str().is_empty() {
            fragment.append("\n");
        }
        fragment.append("[");
        fragment.append(decimal_string(input.images.len() as u64).as_str());
        fragment.append(" image(s)]");
        proof {
            let marker = image_marker(input@.images.len());
            if text.len() == 0 {
                assert(fragment@ =~= marker);
            } else {
                assert(fragment@ =~= text + "\n"@ + marker);
            }
        }
    }
    fragment
}

/// The user inputs as the summary shows them.
fn render_inputs(turn: &TurnRecord) -> (out: Vec<String>)
    ensures
        out.deep_view() == rendered_inputs(turn@.user_inputs),
{
    let mut out: Vec<String> = Vec::new();
    let mut i: usize = 0;
    let n = turn.user_inputs.len();
    proof {
        assert(out.deep_view() =~= Seq::<Seq<char>>::empty());
        assert(turn.user_inputs.deep_view().take(0) =~= Seq::<UserInputModel>::empty());
    }
    while i < n
        invariant
            i <= n,
            n == turn.user_inputs@.len(),
            out.deep_view() == rendered_inputs(turn.user_inputs.deep_view().take(i as int)),
        decreases n - i,
    {
        proof {
            let next = turn.user_inputs.deep_view().take(i + 1);
            assert(next.drop_last() =~= turn.user_inputs.deep_view().take(i as int));
            assert(next.last() == turn.user_inputs@[i as int]@);
        }
        let fragment = render_input_fragment(&turn.user_inputs[i]);
        if !fragment.as_str().is_empty() {
            let mut line = "#".to_owned();
            line.append(decimal_string((i + 1) as u64).as_str());
            line.append(" ");
            line.append(trim(fragment.as_str()).as_str());
            let ghost before = out@;
            out.push(line);
            proof {
                lemma_vec_pushed(before, out, line);
                lemma_deep_of_vec(out);
                assert(deep(before) =~= rendered_inputs(
                    turn.user_inputs.deep_view().take(i as int),
                ));
            }
        }
        i = i + 1;
    }
    proof {
        assert(turn.user_inputs.deep_view().take(n as int) =~= turn.user_inputs.deep_view());
    }
    out
}

/// What the assistant's section of the summary holds.
fn render_result_texts(turn: &TurnRecord) -> (out: Vec<String>)
    ensures
        out.deep_view() == result_texts(turn@),
{
    let mut out: Vec<String> = Vec::new();
    proof {
        assert(out.deep_view() =~= Seq::<Seq<char>>::empty());
    }
    if let Some(text) = join_assistant_messages(turn) {
        let ghost before = out@;
        out.push(text);
        proof {
            lemma_vec_pushed(before, out, text);
            assert(out.deep_view() =~= seq![text@]);
        }
    }
    let ghost first = out.deep_view();
    proof {
        assert(first =~= seq_of(paragraphs(turn@.result.assistant_messages)));
    }
    if let Some(fallback) = &turn.result.fallback {
        let name = match fallback.source {
            FallbackSource::AssistantReasoning => "AssistantReasoning",
            FallbackSource::ToolOutput => "ToolOutput",
            FallbackSource::EventStream => "EventStream",
        };
        let mut text = "[fallback ".to_owned();
        text.append(name);
        text.append("] ");
        text.append(fallback.text.as_str());
        let ghost before = out@;
        out.push(text);
        proof {
            lemma_vec_pushed(before, out, text);
            lemma_deep_of_vec(out);
            assert(out.deep_view() =~= first + seq![text@]);
        }
    } else {
        proof {
            assert(first + Seq::<Seq<char>>::empty() =~= first);
        }
    }
    out
}

/// What the summary says of the kind of an action.
fn render_kind(kind: &ActionKind) -> (out: String)
    ensures
        out@ == kind_summary(kind@),
{
    match kind {
        ActionKind::FunctionCall { name } => {
            let mut out = "function_call ".to_owned();
            match name {
                Some(n) => out.append(n.as_str()),
                None => out.append("(unknown)"),
            }
            out
        },
        ActionKind::CustomToolCall { name } => {
            let mut out = "custom_tool ".to_owned();
            match name {
                Some(n) => out.append(n.as_str()),
                None => out.append("(unknown)"),
            }
            out
        },
        ActionKind::LocalShellExec { command, workdir, .. } => {
            let mut out = "shell `".to_owned();
            out.append(join(command, " ").as_str());
            match workdir {
                Some(dir) => {
                    out.append("` (cwd: ");
                    out.append(dir.as_str());
                    out.append(")");
                },
                None => out.append("`"),
            }
            out
        },
        ActionKind::WebSearch { query } => {
            let mut out = "web_search ".to_owned();
            match query {
                Some(q) => out.append(q.as_str()),
                None => out.append("(query missing)"),
            }
            out
        },
        ActionKind::Other { kind } => match kind {
            Some(k) => k.clone(),
            None => "other".to_owned(),
        },
    }
}

/// What the summary shows of the output of an action.
fn render_snippet(action: &ActionRecord) -> (out: Option<String>)
    ensures
        out.deep_view() == output_snippet(action@),
{
    match &action.output {
        Some(output) => match &output.content {
            Some(content) => {
                let snippet = trim(content.as_str());
                if snippet.as_str().is_empty() {
                    None
                } else {
                    Some(take_chars(snippet.as_str(), OUTPUT_SNIPPET_CHARS))
                }
            },
            None => None,
        },
        None => None,
    }
}

/// A string slice of an optional string.
fn as_deref(text: &Option<String>) -> (out: Option<&str>)
    ensures
        out.deep_view() == text.deep_view(),
{
    match text {
        Some(t) => Some(t.as_str()),
        None => None,
    }
}

/// The line of the summary for an action.
fn render_action(action: &ActionRecord) -> (out: String)
    ensures
        out@ == action_summary(action@),
{
    let mut out = "- ".to_owned();
    out.append(render_kind(&action.kind).as_str());
    append_wrapped(&mut out, " (call_id=", as_deref(&action.call_id), ")");
    let status = match &action.status.status_text {
        Some(s) => Some(s.as_str()),
        None => as_deref(&action.status.local_status),
    };
    append_wrapped(&mut out, " [status: ", status, "]");
    let snippet = render_snippet(action);
    proof {
        reveal_strlit("");
        assert(""@ =~= Seq::<char>::empty());
    }
    append_wrapped(&mut out, " -> ", as_deref(&snippet), "");
    out
}

/// The summary of a turn that is handed to an embedding backend: the user's
/// inputs, the assistant's texts and one line for each action.
pub fn render_turn_summary(turn: &TurnRecord) -> (out: String)
    ensures
        out@ == turn_summary(turn@),
{
    let mut sections: Vec<String> = Vec::new();
    proof {
        assert(sections.deep_view() =~= Seq::<Seq<char>>::empty());
    }
    let inputs = render_inputs(turn);
    push_section(&mut sections, "User:\n", &inputs, "\n\n");
    let texts = render_result_texts(turn);
    push_section(&mut sections, "Assistant:\n", &texts, "\n\n");
    let mut lines: Vec<String> = Vec::new();
    let mut i: usize = 0;
    while i < turn.actions.len()
        invariant
            i <= turn.actions@.len(),
            lines@.len() == i,
            forall|j: int| 0 <= j < i ==> (#[trigger] lines@[j])@ == action_summary(turn.actions@[j]@),
        decreases turn.actions@.len() - i,
    {
        lines.push(render_action(&turn.actions[i]));
        i = i + 1;
    }
    proof {
        assert(lines.deep_view() =~= action_summaries(turn@.actions));
    }
    push_section(&mut sections, "Actions:\n", &lines, "\n");
    proof {
        assert(sections.deep_view() =~= summary_sections(turn@));
    }
    if sections.is_empty() {
        "No transcript recorded for this turn.".to_owned()
    } else {
        join(&sections, "\n\n")
    }
}

/// The summaries of the turns, in order.
pub open spec fn turn_summaries(turns: Seq<TurnModel>) -> Seq<Seq<char>> {
    Seq::new(turns.len(), |i: int| turn_summary(turns[i]))
}

/// The summaries of the turns of a conversation, which are handed to the
/// embedding backend.
pub fn render_summaries(record: &ConversationRecord) -> (out: Vec<String>)
    ensures
        out.deep_view() == turn_summaries(record@.turns),
{
    let mut out: Vec<String> = Vec::new();
    let mut i: usize = 0;
    while i < record.turns.len()
        invariant
            i <= record.turns@.len(),
            out@.len() == i,
            forall|j: int| 0 <= j < i ==> (#[trigger] out@[j])@ == turn_summary(record.turns@[j]@),
        decreases record.turns@.len() - i,
    {
        out.push(render_turn_summary(&record.turns[i]));
        i = i + 1;
    }
    proof {
        assert(out.deep_view() =~= turn_summaries(record@.turns));
    }
    out
}

} // verus!
