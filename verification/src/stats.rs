//! The statistics of a conversation that feed keyword and metadata search:
//! questions, commands, files, the search blob.

use crate::extractor::{collect_fragments, fragments_of, Fragment};
use crate::json::{JsonModel, JsonValue};
use crate::storage::{capped, input_texts, user_texts, ConversationStats, ConversationStatsModel};
use crate::text::{
    chars_of, contains_char, contains_text, eq_ignore_ascii_case, eq_ignoring_ascii_case,
    first_token, first_token_of, has_substring, join, joined, lines_of, lowercased, split_lines,
    starts_with_at, str_eq, string_from_chars, to_lowercase, trim, trim_bounds, trimmed,
};
use crate::text_set::{
    ascending, insert_text, lemma_set_insert_all_ascending, lemma_set_insert_all_contains,
    set_insert_all,
};
use crate::types::{
    ActionKind, ActionKindModel, ActionModel, ActionRecord, ConversationModel, ConversationRecord,
    TelemetryModel, TurnModel, TurnRecord, TurnTelemetry,
};
use crate::views::{deep, lemma_deep_of_vec, lemma_vec_pushed};
use vstd::prelude::*;
use vstd::slice::slice_subrange;

verus! {

/// `s` without `prefix` at its start, where it starts with it.
pub open spec fn stripped(s: Seq<char>, prefix: Seq<char>) -> Option<Seq<char>> {
    if prefix.is_prefix_of(s) {
        Some(s.skip(prefix.len() as int))
    } else {
        None
    }
}

/// The path that a line of a patch names: the trimmed rest of a line that
/// starts with `*** Update File: `, `*** Add File: ` or `*** Delete File: `.
pub open spec fn patch_path_of(line: Seq<char>) -> Option<Seq<char>> {
    match stripped(line, "*** "@) {
        Some(rest) => match stripped(rest, "Update File: "@) {
            Some(path) => Some(trimmed(path)),
            None => match stripped(rest, "Add File: "@) {
                Some(path) => Some(trimmed(path)),
                None => match stripped(rest, "Delete File: "@) {
                    Some(path) => Some(trimmed(path)),
                    None => None,
                },
            },
        },
        None => None,
    }
}

/// The paths that the lines name, in order.
pub open spec fn patch_paths_in(lines: Seq<Seq<char>>) -> Seq<Seq<char>>
    decreases lines.len(),
{
    if lines.len() == 0 {
        Seq::empty()
    } else {
        match patch_path_of(lines.last()) {
            Some(path) => patch_paths_in(lines.drop_last()).push(path),
            None => patch_paths_in(lines.drop_last()),
        }
    }
}

/// The paths of the files that a patch touches, in the order of its lines.
pub open spec fn patch_paths(patch: Seq<char>) -> Seq<Seq<char>> {
    patch_paths_in(lines_of(patch))
}

/// Index after `prefix` where `chars[at..]` starts with it.
fn strip_prefix_at(chars: &[char], at: usize, prefix: &str) -> (out: Option<usize>)
    requires
        at <= chars@.len(),
    ensures
        match out {
            Some(next) => at <= next <= chars@.len() && stripped(chars@.skip(at as int), prefix@)
                == Some(chars@.skip(next as int)),
            None => stripped(chars@.skip(at as int), prefix@) is None,
        },
{
    let needle = chars_of(prefix);
    let n = chars.len();
    let found = starts_with_at(chars, at, needle.as_slice());
    proof {
        let s = chars@.skip(at as int);
        if at + needle@.len() <= chars@.len() {
            assert(s.subrange(0, needle@.len() as int) =~= chars@.subrange(
                at as int,
                at + needle@.len(),
            ));
        }
    }
    if found {
        proof {
            assert(chars@.skip(at as int).skip(needle@.len() as int) =~= chars@.skip(
                at + needle@.len(),
            ));
        }
        Some(at + needle.len())
    } else {
        None
    }
}

/// The path that a line of a patch names.
fn patch_path(line: &str) -> (out: Option<String>)
    ensures
        out.deep_view() == patch_path_of(line@),
{
    let chars = chars_of(line);
    proof {
        assert(chars@.skip(0) =~= chars@);
    }
    let rest = match strip_prefix_at(chars.as_slice(), 0, "*** ") {
        Some(rest) => rest,
        None => {
            return None;
        },
    };
    let start = match strip_prefix_at(chars.as_slice(), rest, "Update File: ") {
        Some(start) => start,
        None => match strip_prefix_at(chars.as_slice(), rest, "Add File: ") {
            Some(start) => start,
            None => match strip_prefix_at(chars.as_slice(), rest, "Delete File: ") {
                Some(start) => start,
                None => {
                    return None;
                },
            },
        },
    };
    let tail = slice_subrange(chars.as_slice(), start, chars.len());
    proof {
        assert(tail@ =~= chars@.skip(start as int));
    }
    let (from, to) = trim_bounds(tail);
    Some(string_from_chars(slice_subrange(tail, from, to)))
}

/// The paths of the files that a patch touches, in the order of its lines.
pub fn extract_patch_paths(patch: &str) -> (paths: Vec<String>)
    ensures
        paths.deep_view() == patch_paths(patch@),
{
    let lines = split_lines(patch);
    let mut paths: Vec<String> = Vec::new();
    let mut i: usize = 0;
    proof {
        assert(paths.deep_view() =~= Seq::<Seq<char>>::empty());
        assert(lines.deep_view().take(0) =~= Seq::<Seq<char>>::empty());
    }
    while i < lines.len()
        invariant
            i <= lines@.len(),
            paths.deep_view() == patch_paths_in(lines.deep_view().take(i as int)),
        decreases lines@.len() - i,
    {
        proof {
            let next = lines.deep_view().take(i + 1);
            assert(next.drop_last() =~= lines.deep_view().take(i as int));
            assert(next.last() == lines@[i as int]@);
        }
        if let Some(path) = patch_path(lines[i].as_str()) {
            let ghost before = paths@;
            paths.push(path);
            proof {
                lemma_vec_pushed(before, paths, path);
                lemma_deep_of_vec(paths);
                assert(deep(before) =~= patch_paths_in(lines.deep_view().take(i as int)));
            }
        }
        i = i + 1;
    }
    proof {
        assert(lines.deep_view().take(lines@.len() as int) =~= lines.deep_view());
    }
    paths
}

/// A text as a sequence of one, or of none where there is no text.
pub open spec fn seq_of(text: Option<Seq<char>>) -> Seq<Seq<char>> {
    match text {
        Some(t) => seq![t],
        None => Seq::empty(),
    }
}

/// The first text of a sequence, if it has one.
pub open spec fn first_of(texts: Seq<Seq<char>>) -> Option<Seq<char>> {
    if texts.len() > 0 {
        Some(texts[0])
    } else {
        None
    }
}

/// The commands that an action ran. A call of the function `exec_command`
/// names one by the first token of its argument `cmd` and one by the first
/// string of its argument `command`; a shell execution names one by the first
/// element of its command line, unless that is empty.
pub open spec fn action_commands(action: ActionModel) -> Seq<Seq<char>> {
    match action.kind {
        ActionKindModel::FunctionCall { name: Some(name) } => if name == "exec_command"@ {
            match action.arguments {
                Some(args) => seq_of(
                    match args.text_at("cmd"@) {
                        Some(cmd) => first_token(cmd),
                        None => None,
                    },
                ) + seq_of(first_of(fragments_of(args.items_at("command"@), Fragment::Plain))),
                None => Seq::empty(),
            }
        } else {
            Seq::empty()
        },
        ActionKindModel::LocalShellExec { command, .. } => if command.len() > 0
            && command[0].len() > 0 {
            seq![command[0]]
        } else {
            Seq::empty()
        },
        _ => Seq::empty(),
    }
}

/// The files that an action touched: those that the patch of a call of the
/// function `apply_patch` names.
pub open spec fn action_files(action: ActionModel) -> Seq<Seq<char>> {
    match action.kind {
        ActionKindModel::FunctionCall { name: Some(name) } => if name == "exec_command"@ {
            Seq::empty()
        } else if name == "apply_patch"@ {
            match action.arguments {
                Some(args) => match args.text_at("patch"@) {
                    Some(patch) => patch_paths(patch),
                    None => Seq::empty(),
                },
                None => Seq::empty(),
            }
        } else {
            Seq::empty()
        },
        _ => Seq::empty(),
    }
}

/// Inserts every text of `items` into `set`.
fn insert_texts(set: &mut Vec<String>, items: Vec<String>)
    ensures
        final(set).deep_view() == set_insert_all(old(set).deep_view(), items.deep_view()),
{
    let ghost all = items@;
    let ghost base = set.deep_view();
    proof {
        lemma_deep_of_vec(items);
        assert(deep(all.take(0)) =~= Seq::<Seq<char>>::empty());
    }
    for item in it: items
        invariant
            it.seq() == all,
            set.deep_view() == set_insert_all(base, deep(all.take(it.index() as int))),
    {
        let ghost done = it.index() as int;
        proof {
            assert(deep(all.take(done + 1)).drop_last() =~= deep(all.take(done)));
            assert(deep(all.take(done + 1)).last() == item@);
        }
        insert_text(set, item);
    }
    proof {
        assert(all.take(all.len() as int) =~= all);
    }
}

/// Adds the commands that an action ran to `commands` and the files that it
/// touched to `files`.
pub fn collect_action_metadata(
    action: &ActionRecord,
    commands: &mut Vec<String>,
    files: &mut Vec<String>,
)
    ensures
        final(commands).deep_view() == set_insert_all(
            old(commands).deep_view(),
            action_commands(action@),
        ),
        final(files).deep_view() == set_insert_all(old(files).deep_view(), action_files(action@)),
{
    match &action.kind {
        ActionKind::FunctionCall { name: Some(name) } => {
            if str_eq(name.as_str(), "exec_command") {
                if let Some(args) = &action.arguments {
                    let mut found: Vec<String> = Vec::new();
                    proof {
                        assert(found.deep_view() =~= Seq::<Seq<char>>::empty());
                    }
                    if let Some(cmd) = args.str_at("cmd") {
                        if let Some(first) = first_token_of(cmd) {
                            let ghost before = found@;
                            found.push(first);
                            proof {
                                lemma_vec_pushed(before, found, first);
                                assert(found.deep_view() =~= seq![first@]);
                            }
                        }
                    }
                    let listed = collect_fragments(args.items_at("command"), Fragment::Plain);
                    if listed.len() > 0 {
                        let ghost before = found@;
                        let ghost before_view = found.deep_view();
                        let first = listed[0].clone();
                        found.push(first);
                        proof {
                            lemma_vec_pushed(before, found, first);
                            lemma_deep_of_vec(found);
                            assert(deep(before) =~= before_view);
                            assert(found.deep_view() =~= before_view + seq![listed@[0]@]);
                        }
                    } else {
                        proof {
                            assert(found.deep_view() + Seq::<Seq<char>>::empty()
                                =~= found.deep_view());
                        }
                    }
                    insert_texts(commands, found);
                }
            } else if str_eq(name.as_str(), "apply_patch") {
                if let Some(args) = &action.arguments {
                    if let Some(patch) = args.str_at("patch") {
                        insert_texts(files, extract_patch_paths(patch));
                    }
                }
            }
        },
        ActionKind::LocalShellExec { command, .. } => {
            if command.len() > 0 {
                if !command[0].as_str().is_empty() {
                    let mut found: Vec<String> = Vec::new();
                    let first = command[0].clone();
                    let ghost before = found@;
                    found.push(first);
                    proof {
                        lemma_vec_pushed(before, found, first);
                        assert(found.deep_view() =~= seq![command@[0]@]);
                    }
                    insert_texts(commands, found);
                }
            }
        },
        _ => {},
    }
}

/// Whether a telemetry record tells of a live session: a listener event, or
/// a live state whose message, if it has one, holds `active`.
pub open spec fn indicates_live(data: JsonModel) -> bool {
    ||| data.text_at("type"@) == Some("listener_event"@)
    ||| (data.text_at("kind"@) == Some("live_state"@) && match data.text_at("message"@) {
        Some(message) => has_substring(message, "active"@),
        None => true,
    })
}

/// Whether any miscellaneous telemetry record of a turn tells of a live
/// session.
pub open spec fn telemetry_live(telemetry: TelemetryModel) -> bool {
    exists|i: int|
        0 <= i < telemetry.misc_events.len() && indicates_live(
            (#[trigger] telemetry.misc_events[i]).data,
        )
}

/// Whether a telemetry record tells of a live session.
fn event_indicates_live(data: &JsonValue) -> (live: bool)
    ensures
        live == indicates_live(data@),
{
    if data.has_text("type", "listener_event") {
        return true;
    }
    if data.has_text("kind", "live_state") {
        return match data.str_at("message") {
            Some(message) => contains_text(message, "active"),
            None => true,
        };
    }
    false
}

/// Whether any miscellaneous telemetry record of a turn tells of a live
/// session.
pub fn telemetry_indicates_live(telemetry: &TurnTelemetry) -> (live: bool)
    ensures
        live == telemetry_live(telemetry@),
{
    let mut i: usize = 0;
    while i < telemetry.misc_events.len()
        invariant
            i <= telemetry.misc_events@.len(),
            forall|j: int|
                0 <= j < i ==> !indicates_live((#[trigger] telemetry@.misc_events[j]).data),
        decreases telemetry.misc_events@.len() - i,
    {
        let live = event_indicates_live(&telemetry.misc_events[i].data);
        proof {
            assert(telemetry@.misc_events[i as int].data == telemetry.misc_events@[i as int].data@);
        }
        if live {
            return true;
        }
        i = i + 1;
    }
    false
}

/// The texts trimmed, without those that are blank.
pub open spec fn nonblank(texts: Seq<Seq<char>>) -> Seq<Seq<char>>
    decreases texts.len(),
{
    if texts.len() == 0 {
        Seq::empty()
    } else if trimmed(texts.last()).len() == 0 {
        nonblank(texts.drop_last())
    } else {
        nonblank(texts.drop_last()).push(trimmed(texts.last()))
    }
}

/// The user's messages of a turn: the texts of its user inputs, trimmed,
/// without the blank ones.
pub open spec fn turn_user_messages(turn: TurnModel) -> Seq<Seq<char>> {
    nonblank(input_texts(turn.user_inputs))
}

/// The user's messages of the turns, in order.
pub open spec fn user_messages(turns: Seq<TurnModel>) -> Seq<Seq<char>>
    decreases turns.len(),
{
    if turns.len() == 0 {
        Seq::empty()
    } else {
        user_messages(turns.drop_last()) + turn_user_messages(turns.last())
    }
}

/// The messages that hold a question mark, in order.
pub open spec fn questions_in(messages: Seq<Seq<char>>) -> Seq<Seq<char>>
    decreases messages.len(),
{
    if messages.len() == 0 {
        Seq::empty()
    } else if messages.last().contains('?') {
        questions_in(messages.drop_last()).push(messages.last())
    } else {
        questions_in(messages.drop_last())
    }
}

/// The texts of a turn that the search blob holds: the user's messages, the
/// assistant's messages, the reasoning summaries and the fallback text, each
/// trimmed, without the blank ones.
pub open spec fn turn_search_texts(turn: TurnModel) -> Seq<Seq<char>> {
    turn_user_messages(turn) + nonblank(turn.result.assistant_messages) + nonblank(
        turn.result.reasoning_summaries,
    ) + nonblank(
        seq_of(
            match turn.result.fallback {
                Some(f) => Some(f.text),
                None => None,
            },
        ),
    )
}

/// The texts of the turns that the search blob holds, in order.
pub open spec fn search_texts(turns: Seq<TurnModel>) -> Seq<Seq<char>>
    decreases turns.len(),
{
    if turns.len() == 0 {
        Seq::empty()
    } else {
        search_texts(turns.drop_last()) + turn_search_texts(turns.last())
    }
}

/// The last text of a sequence, if it has one.
pub open spec fn last_of(texts: Seq<Seq<char>>) -> Option<Seq<char>> {
    if texts.len() > 0 {
        Some(texts.last())
    } else {
        None
    }
}

/// The last `limit` texts of a sequence, or all of it where it is shorter.
pub open spec fn recent(texts: Seq<Seq<char>>, limit: nat) -> Seq<Seq<char>> {
    if texts.len() <= limit {
        texts
    } else {
        texts.skip(texts.len() - limit)
    }
}

/// The model of the first turn context that names one.
pub open spec fn first_model(turns: Seq<TurnModel>) -> Option<Seq<char>>
    decreases turns.len(),
{
    if turns.len() == 0 {
        None
    } else {
        match first_model(turns.drop_last()) {
            Some(model) => Some(model),
            None => match turns.last().context {
                Some(context) => context.model,
                None => None,
            },
        }
    }
}

/// The working directory of the first turn context that names one.
pub open spec fn first_cwd(turns: Seq<TurnModel>) -> Option<Seq<char>>
    decreases turns.len(),
{
    if turns.len() == 0 {
        None
    } else {
        match first_cwd(turns.drop_last()) {
            Some(cwd) => Some(cwd),
            None => match turns.last().context {
                Some(context) => context.cwd,
                None => None,
            },
        }
    }
}

/// The working directory that the session metadata name: their `cwd`, or
/// the `cwd` of their `workspace`.
pub open spec fn meta_cwd(meta: Option<JsonModel>) -> Option<Seq<char>> {
    match meta {
        Some(m) => match m.text_at("cwd"@) {
            Some(cwd) => Some(cwd),
            None => match m.field("workspace"@) {
                Some(w) => w.text_at("cwd"@),
                None => None,
            },
        },
        None => None,
    }
}

/// Whether a turn tells of a live session: its summary style is `live`,
/// whatever the case of the letters, or its telemetry tells of one.
pub open spec fn turn_live(turn: TurnModel) -> bool {
    ||| match turn.context {
        Some(context) => match context.summary_style {
            Some(style) => eq_ignoring_ascii_case(style, "live"@),
            None => false,
        },
        None => false,
    }
    ||| telemetry_live(turn.telemetry)
}

/// Whether any of the turns tells of a live session.
pub open spec fn any_live(turns: Seq<TurnModel>) -> bool
    decreases turns.len(),
{
    turns.len() > 0 && (any_live(turns.drop_last()) || turn_live(turns.last()))
}

/// `set` with the commands of the actions inserted, action by action.
pub open spec fn commands_after(set: Seq<Seq<char>>, actions: Seq<ActionModel>) -> Seq<Seq<char>>
    decreases actions.len(),
{
    if actions.len() == 0 {
        set
    } else {
        set_insert_all(commands_after(set, actions.drop_last()), action_commands(actions.last()))
    }
}

/// `set` with the files of the actions inserted, action by action.
pub open spec fn files_after(set: Seq<Seq<char>>, actions: Seq<ActionModel>) -> Seq<Seq<char>>
    decreases actions.len(),
{
    if actions.len() == 0 {
        set
    } else {
        set_insert_all(files_after(set, actions.drop_last()), action_files(actions.last()))
    }
}

/// The commands that the actions of the turns ran, each once, in ascending
/// order.
pub open spec fn commands_of(turns: Seq<TurnModel>) -> Seq<Seq<char>>
    decreases turns.len(),
{
    if turns.len() == 0 {
        Seq::empty()
    } else {
        commands_after(commands_of(turns.drop_last()), turns.last().actions)
    }
}

/// The files that the actions of the turns touched, each once, in ascending
/// order.
pub open spec fn files_of(turns: Seq<TurnModel>) -> Seq<Seq<char>>
    decreases turns.len(),
{
    if turns.len() == 0 {
        Seq::empty()
    } else {
        files_after(files_of(turns.drop_last()), turns.last().actions)
    }
}

/// Each text in lower case.
pub open spec fn lowered(parts: Seq<Seq<char>>) -> Seq<Seq<char>> {
    Seq::new(parts.len(), |i: int| lowercased(parts[i]))
}

/// How many questions the statistics keep.
pub const MAX_STORED_QUESTIONS: usize = 5;

/// The statistics of a conversation.
///
/// The preview is the last question of the user, or the last message where
/// there is no question. The search blob holds, in lower case and one per
/// line, the texts of the turns, the preview, the commands and the files.
pub open spec fn stats_of(record: ConversationModel) -> ConversationStatsModel {
    let messages = user_messages(record.turns);
    let questions = questions_in(messages);
    let preview = match last_of(questions) {
        Some(q) => Some(q),
        None => last_of(messages),
    };
    let commands = commands_of(record.turns);
    let files = files_of(record.turns);
    let parts = search_texts(record.turns) + seq_of(
        match preview {
            Some(p) => if p.len() > 0 {
                Some(p)
            } else {
                None
            },
            None => None,
        },
    ) + commands + files;
    ConversationStatsModel {
        preview,
        first_question: first_of(questions),
        last_question: last_of(questions),
        last_user_message: last_of(messages),
        model: first_model(record.turns),
        turn_count: capped(record.turns.len()),
        has_live_events: any_live(record.turns),
        commands,
        files_touched: files,
        questions: recent(questions, MAX_STORED_QUESTIONS as nat),
        search_blob: joined(lowered(parts), "\n"@),
        cwd: match meta_cwd(record.session_meta) {
            Some(cwd) => Some(cwd),
            None => first_cwd(record.turns),
        },
    }
}

/// The texts trimmed, without those that are blank.
fn nonblank_trimmed(texts: &Vec<String>) -> (out: Vec<String>)
    ensures
        out.deep_view() == nonblank(texts.deep_view()),
{
    let mut out: Vec<String> = Vec::new();
    let mut i: usize = 0;
    proof {
        assert(out.deep_view() =~= Seq::<Seq<char>>::empty());
        assert(texts.deep_view().take(0) =~= Seq::<Seq<char>>::empty());
    }
    while i < texts.len()
        invariant
            i <= texts@.len(),
            out.deep_view() == nonblank(texts.deep_view().take(i as int)),
        decreases texts@.len() - i,
    {
        proof {
            let next = texts.deep_view().take(i + 1);
            assert(next.drop_last() =~= texts.deep_view().take(i as int));
            assert(next.last() == texts@[i as int]@);
        }
        let t = trim(texts[i].as_str());
        if !t.as_str().is_empty() {
            let ghost before = out@;
            out.push(t);
            proof {
                lemma_vec_pushed(before, out, t);
                lemma_deep_of_vec(out);
                assert(deep(before) =~= nonblank(texts.deep_view().take(i as int)));
            }
        }
        i = i + 1;
    }
    proof {
        assert(texts.deep_view().take(texts@.len() as int) =~= texts.deep_view());
    }
    out
}

/// Appends copies of the texts of `src` to `dst`.
fn extend_texts(dst: &mut Vec<String>, src: &Vec<String>)
    ensures
        final(dst).deep_view() == old(dst).deep_view() + src.deep_view(),
{
    let ghost base = dst.deep_view();
    let mut i: usize = 0;
    proof {
        assert(base + src.deep_view().take(0) =~= base);
    }
    while i < src.len()
        invariant
            i <= src@.len(),
            dst.deep_view() == base + src.deep_view().take(i as int),
        decreases src@.len() - i,
    {
        let ghost before = dst@;
        let copy = src[i].clone();
        dst.push(copy);
        proof {
            lemma_vec_pushed(before, *dst, copy);
            lemma_deep_of_vec(*dst);
            assert(deep(before) =~= base + src.deep_view().take(i as int));
            assert(base + src.deep_view().take(i + 1) =~= (base + src.deep_view().take(
                i as int,
            )).push(copy@));
        }
        i = i + 1;
    }
    proof {
        assert(src.deep_view().take(src@.len() as int) =~= src.deep_view());
    }
}

/// The messages that hold a question mark, in order.
fn questions_among(messages: &Vec<String>) -> (out: Vec<String>)
    ensures
        out.deep_view() == questions_in(messages.deep_view()),
{
    let mut out: Vec<String> = Vec::new();
    let mut i: usize = 0;
    proof {
        assert(out.deep_view() =~= Seq::<Seq<char>>::empty());
        assert(messages.deep_view().take(0) =~= Seq::<Seq<char>>::empty());
    }
    while i < messages.len()
        invariant
            i <= messages@.len(),
            out.deep_view() == questions_in(messages.deep_view().take(i as int)),
        decreases messages@.len() - i,
    {
        proof {
            let next = messages.deep_view().take(i + 1);
            assert(next.drop_last() =~= messages.deep_view().take(i as int));
            assert(next.last() == messages@[i as int]@);
        }
        if contains_char(messages[i].as_str(), '?') {
            let ghost before = out@;
            let copy = messages[i].clone();
            out.push(copy);
            proof {
                lemma_vec_pushed(before, out, copy);
                lemma_deep_of_vec(out);
                assert(deep(before) =~= questions_in(messages.deep_view().take(i as int)));
            }
        }
        i = i + 1;
    }
    proof {
        assert(messages.deep_view().take(messages@.len() as int) =~= messages.deep_view());
    }
    out
}

/// Each text in lower case.
fn lower_all(parts: &Vec<String>) -> (out: Vec<String>)
    ensures
        out.deep_view() == lowered(parts.deep_view()),
{
    let mut out: Vec<String> = Vec::new();
    let mut i: usize = 0;
    while i < parts.len()
        invariant
            i <= parts@.len(),
            out@.len() == i,
            forall|j: int| 0 <= j < i ==> (#[trigger] out@[j])@ == lowercased(parts@[j]@),
        decreases parts@.len() - i,
    {
        out.push(to_lowercase(parts[i].as_str()));
        i = i + 1;
    }
    proof {
        assert(out.deep_view() =~= lowered(parts.deep_view()));
    }
    out
}

/// The search texts of a turn.
fn search_texts_of_turn(turn: &TurnRecord, user: &Vec<String>) -> (out: Vec<String>)
    requires
        user.deep_view() == turn_user_messages(turn@),
    ensures
        out.deep_view() == turn_search_texts(turn@),
{
    let mut out: Vec<String> = Vec::new();
    proof {
        assert(out.deep_view() =~= Seq::<Seq<char>>::empty());
    }
    extend_texts(&mut out, user);
    let assistant = nonblank_trimmed(&turn.result.assistant_messages);
    extend_texts(&mut out, &assistant);
    let reasoning = nonblank_trimmed(&turn.result.reasoning_summaries);
    extend_texts(&mut out, &reasoning);
    let mut fallback: Vec<String> = Vec::new();
    proof {
        assert(fallback.deep_view() =~= Seq::<Seq<char>>::empty());
    }
    if let Some(f) = &turn.result.fallback {
        let ghost before = fallback@;
        let copy = f.text.clone();
        fallback.push(copy);
        proof {
            lemma_vec_pushed(before, fallback, copy);
            assert(fallback.deep_view() =~= seq![f@.text]);
        }
    }
    let kept = nonblank_trimmed(&fallback);
    extend_texts(&mut out, &kept);
    proof {
        assert(out.deep_view() =~= turn_search_texts(turn@));
    }
    out
}

/// Adds the commands and the files of the actions of a turn to the sets.
fn collect_turn_metadata(turn: &TurnRecord, commands: &mut Vec<String>, files: &mut Vec<String>)
    ensures
        final(commands).deep_view() == commands_after(old(commands).deep_view(), turn@.actions),
        final(files).deep_view() == files_after(old(files).deep_view(), turn@.actions),
{
    let mut i: usize = 0;
    proof {
        assert(turn.actions.deep_view().take(0) =~= Seq::<ActionModel>::empty());
    }
    while i < turn.actions.len()
        invariant
            i <= turn.actions@.len(),
            commands.deep_view() == commands_after(
                old(commands).deep_view(),
                turn.actions.deep_view().take(i as int),
            ),
            files.deep_view() == files_after(
                old(files).deep_view(),
                turn.actions.deep_view().take(i as int),
            ),
        decreases turn.actions@.len() - i,
    {
        proof {
            let next = turn.actions.deep_view().take(i + 1);
            assert(next.drop_last() =~= turn.actions.deep_view().take(i as int));
            assert(next.last() == turn.actions@[i as int]@);
        }
        collect_action_metadata(&turn.actions[i], commands, files);
        i = i + 1;
    }
    proof {
        assert(turn.actions.deep_view().take(turn.actions@.len() as int)
            =~= turn.actions.deep_view());
    }
}

/// Whether a turn tells of a live session.
fn turn_is_live(turn: &TurnRecord) -> (live: bool)
    ensures
        live == turn_live(turn@),
{
    let by_style = match &turn.context {
        Some(context) => match &context.summary_style {
            Some(style) => eq_ignore_ascii_case(style.as_str(), "live"),
            None => false,
        },
        None => false,
    };
    by_style || telemetry_indicates_live(&turn.telemetry)
}

/// The working directory that the session metadata name.
fn cwd_of_meta(meta: &Option<JsonValue>) -> (out: Option<String>)
    ensures
        out.deep_view() == meta_cwd(meta.deep_view()),
{
    match meta {
        Some(m) => match m.text_at("cwd") {
            Some(cwd) => Some(cwd),
            None => match m.get("workspace") {
                Some(w) => w.text_at("cwd"),
                None => None,
            },
        },
        None => None,
    }
}

/// A copy of an optional text.
fn copy_text(text: &Option<String>) -> (out: Option<String>)
    ensures
        out.deep_view() == text.deep_view(),
{
    match text {
        Some(t) => Some(t.clone()),
        None => None,
    }
}

/// The statistics of a conversation.
pub fn compute_conversation_stats(record: &ConversationRecord) -> (stats: ConversationStats)
    ensures
        stats@ == stats_of(record@),
{
    let mut commands: Vec<String> = Vec::new();
    let mut files: Vec<String> = Vec::new();
    let mut messages: Vec<String> = Vec::new();
    let mut search_parts: Vec<String> = Vec::new();
    let meta_cwd = cwd_of_meta(&record.session_meta);
    let mut cwd: Option<String> = None;
    let mut model: Option<String> = None;
    let mut has_live_events = false;
    let mut i: usize = 0;
    proof {
        assert(commands.deep_view() =~= Seq::<Seq<char>>::empty());
        assert(files.deep_view() =~= Seq::<Seq<char>>::empty());
        assert(messages.deep_view() =~= Seq::<Seq<char>>::empty());
        assert(search_parts.deep_view() =~= Seq::<Seq<char>>::empty());
        assert(record.turns.deep_view().take(0) =~= Seq::<TurnModel>::empty());
    }
    while i < record.turns.len()
        invariant
            i <= record.turns@.len(),
            commands.deep_view() == commands_of(record.turns.deep_view().take(i as int)),
            files.deep_view() == files_of(record.turns.deep_view().take(i as int)),
            messages.deep_view() == user_messages(record.turns.deep_view().take(i as int)),
            search_parts.deep_view() == search_texts(record.turns.deep_view().take(i as int)),
            cwd.deep_view() == first_cwd(record.turns.deep_view().take(i as int)),
            model.deep_view() == first_model(record.turns.deep_view().take(i as int)),
            has_live_events == any_live(record.turns.deep_view().take(i as int)),
        decreases record.turns@.len() - i,
    {
        let turn = &record.turns[i];
        proof {
            let next = record.turns.deep_view().take(i + 1);
            assert(next.drop_last() =~= record.turns.deep_view().take(i as int));
            assert(next.last() == turn@);
        }
        if let Some(context) = &turn.context {
            if model.is_none() {
                model = copy_text(&context.model);
            }
            if cwd.is_none() {
                cwd = copy_text(&context.cwd);
            }
        }
        let texts = user_texts(turn);
        let user = nonblank_trimmed(&texts);
        extend_texts(&mut messages, &user);
        let turn_texts = search_texts_of_turn(turn, &user);
        extend_texts(&mut search_parts, &turn_texts);
        collect_turn_metadata(turn, &mut commands, &mut files);
        if !has_live_events && turn_is_live(turn) {
            has_live_events = true;
        }
        i = i + 1;
    }
    proof {
        assert(record.turns.deep_view().take(record.turns@.len() as int)
            =~= record.turns.deep_view());
    }
    let all_questions = questions_among(&messages);
    let asked = all_questions.len();
    let first_question = if asked > 0 {
        Some(all_questions[0].clone())
    } else {
        None
    };
    let last_question = if asked > 0 {
        Some(all_questions[asked - 1].clone())
    } else {
        None
    };
    let said = messages.len();
    let last_user_message = if said > 0 {
        Some(messages[said - 1].clone())
    } else {
        None
    };
    let preview = match &last_question {
        Some(q) => Some(q.clone()),
        None => copy_text(&last_user_message),
    };
    let mut questions: Vec<String> = Vec::new();
    proof {
        assert(questions.deep_view() =~= Seq::<Seq<char>>::empty());
    }
    let from = if asked > MAX_STORED_QUESTIONS {
        asked - MAX_STORED_QUESTIONS
    } else {
        0
    };
    let mut k: usize = from;
    while k < asked
        invariant
            from <= k <= asked,
            asked == all_questions@.len(),
            questions.deep_view() == all_questions.deep_view().subrange(from as int, k as int),
        decreases asked - k,
    {
        let ghost before = questions@;
        let copy = all_questions[k].clone();
        questions.push(copy);
        proof {
            lemma_vec_pushed(before, questions, copy);
            lemma_deep_of_vec(questions);
            assert(deep(before) =~= all_questions.deep_view().subrange(from as int, k as int));
            assert(all_questions.deep_view().subrange(from as int, k + 1)
                =~= all_questions.deep_view().subrange(from as int, k as int).push(copy@));
        }
        k = k + 1;
    }
    proof {
        assert(questions.deep_view() =~= recent(
            all_questions.deep_view(),
            MAX_STORED_QUESTIONS as nat,
        ));
    }
    let mut shown: Vec<String> = Vec::new();
    proof {
        assert(shown.deep_view() =~= Seq::<Seq<char>>::empty());
    }
    if let Some(p) = &preview {
        if !p.as_str().is_empty() {
            let ghost before = shown@;
            let copy = p.clone();
            shown.push(copy);
            proof {
                lemma_vec_pushed(before, shown, copy);
                assert(shown.deep_view() =~= seq![p@]);
            }
        }
    }
    extend_texts(&mut search_parts, &shown);
    extend_texts(&mut search_parts, &commands);
    extend_texts(&mut search_parts, &files);
    let lowered_parts = lower_all(&search_parts);
    let search_blob = join(&lowered_parts, "\n");
    let turns = record.turns.len();
    let turn_count: i64 = if turns as u64 > 0x7fff_ffff_ffff_ffffu64 {
        i64::MAX
    } else {
        turns as i64
    };
    let cwd = match meta_cwd {
        Some(c) => Some(c),
        None => cwd,
    };
    ConversationStats {
        preview,
        first_question,
        last_question,
        last_user_message,
        model,
        turn_count,
        has_live_events,
        commands,
        files_touched: files,
        questions,
        search_blob,
        cwd,
    }
}

/// Whether one of the actions of one of the turns ran the command.
pub open spec fn command_seen(turns: Seq<TurnModel>, command: Seq<char>) -> bool {
    exists|i: int, j: int|
        0 <= i < turns.len() && 0 <= j < turns[i].actions.len() && action_commands(
            #[trigger] turns[i].actions[j],
        ).contains(command)
}

/// Whether one of the actions of one of the turns touched the file.
pub open spec fn file_seen(turns: Seq<TurnModel>, file: Seq<char>) -> bool {
    exists|i: int, j: int|
        0 <= i < turns.len() && 0 <= j < turns[i].actions.len() && action_files(
            #[trigger] turns[i].actions[j],
        ).contains(file)
}

/// The commands of the statistics are exactly the commands that the actions
/// of the conversation ran, and the files exactly the files that they
/// touched.
pub proof fn lemma_stats_hold_what_was_seen(record: ConversationModel, text: Seq<char>)
    ensures
        stats_of(record).commands.contains(text) <==> command_seen(record.turns, text),
        stats_of(record).files_touched.contains(text) <==> file_seen(record.turns, text),
{
    lemma_commands_seen(record.turns, text);
    lemma_files_seen(record.turns, text);
}

/// The commands of the turns are exactly the commands that their actions
/// ran.
proof fn lemma_commands_seen(turns: Seq<TurnModel>, command: Seq<char>)
    ensures
        commands_of(turns).contains(command) <==> command_seen(turns, command),
    decreases turns.len(),
{
    if turns.len() > 0 {
        let front = turns.drop_last();
        let last = turns.last();
        lemma_commands_seen(front, command);
        lemma_commands_after_seen(commands_of(front), last.actions, command);
        if command_seen(front, command) {
            let (i, j) = choose|i: int, j: int|
                0 <= i < front.len() && 0 <= j < front[i].actions.len() && action_commands(
                    #[trigger] front[i].actions[j],
                ).contains(command);
            assert(turns[i].actions[j] == front[i].actions[j]);
        }
        if exists|j: int|
            0 <= j < last.actions.len() && action_commands(#[trigger] last.actions[j]).contains(
                command,
            ) {
            let j = choose|j: int|
                0 <= j < last.actions.len() && action_commands(
                    #[trigger] last.actions[j],
                ).contains(command);
            assert(turns[turns.len() - 1].actions[j] == last.actions[j]);
        }
        if command_seen(turns, command) {
            let (i, j) = choose|i: int, j: int|
                0 <= i < turns.len() && 0 <= j < turns[i].actions.len() && action_commands(
                    #[trigger] turns[i].actions[j],
                ).contains(command);
            if i < front.len() {
                assert(front[i].actions[j] == turns[i].actions[j]);
            } else {
                assert(last.actions[j] == turns[i].actions[j]);
            }
        }
    }
}

/// After the commands of actions were inserted, a sequence holds what it
/// held and the commands that the actions ran.
proof fn lemma_commands_after_seen(
    set: Seq<Seq<char>>,
    actions: Seq<ActionModel>,
    command: Seq<char>,
)
    ensures
        commands_after(set, actions).contains(command) <==> (set.contains(command) || exists|
            j: int,
        |
            0 <= j < actions.len() && action_commands(#[trigger] actions[j]).contains(command)),
    decreases actions.len(),
{
    if actions.len() > 0 {
        let front = actions.drop_last();
        lemma_commands_after_seen(set, front, command);
        lemma_set_insert_all_contains(
            commands_after(set, front),
            action_commands(actions.last()),
            command,
        );
        if exists|j: int|
            0 <= j < front.len() && action_commands(#[trigger] front[j]).contains(command) {
            let j = choose|j: int|
                0 <= j < front.len() && action_commands(#[trigger] front[j]).contains(command);
            assert(actions[j] == front[j]);
        }
        if action_commands(actions.last()).contains(command) {
            assert(actions[actions.len() - 1] == actions.last());
        }
        if exists|j: int|
            0 <= j < actions.len() && action_commands(#[trigger] actions[j]).contains(command) {
            let j = choose|j: int|
                0 <= j < actions.len() && action_commands(#[trigger] actions[j]).contains(
                    command,
                );
            if j < front.len() {
                assert(front[j] == actions[j]);
            }
        }
    }
}

/// The files of the turns are exactly the files that their actions touched.
proof fn lemma_files_seen(turns: Seq<TurnModel>, file: Seq<char>)
    ensures
        files_of(turns).contains(file) <==> file_seen(turns, file),
    decreases turns.len(),
{
    if turns.len() > 0 {
        let front = turns.drop_last();
        let last = turns.last();
        lemma_files_seen(front, file);
        lemma_files_after_seen(files_of(front), last.actions, file);
        if file_seen(front, file) {
            let (i, j) = choose|i: int, j: int|
                0 <= i < front.len() && 0 <= j < front[i].actions.len() && action_files(
                    #[trigger] front[i].actions[j],
                ).contains(file);
            assert(turns[i].actions[j] == front[i].actions[j]);
        }
        if exists|j: int|
            0 <= j < last.actions.len() && action_files(#[trigger] last.actions[j]).contains(file) {
            let j = choose|j: int|
                0 <= j < last.actions.len() && action_files(#[trigger] last.actions[j]).contains(
                    file,
                );
            assert(turns[turns.len() - 1].actions[j] == last.actions[j]);
        }
        if file_seen(turns, file) {
            let (i, j) = choose|i: int, j: int|
                0 <= i < turns.len() && 0 <= j < turns[i].actions.len() && action_files(
                    #[trigger] turns[i].actions[j],
                ).contains(file);
            if i < front.len() {
                assert(front[i].actions[j] == turns[i].actions[j]);
            } else {
                assert(last.actions[j] == turns[i].actions[j]);
            }
        }
    }
}

/// After the files of actions were inserted, a sequence holds what it held
/// and the files that the actions touched.
proof fn lemma_files_after_seen(set: Seq<Seq<char>>, actions: Seq<ActionModel>, file: Seq<char>)
    ensures
        files_after(set, actions).contains(file) <==> (set.contains(file) || exists|j: int|
            0 <= j < actions.len() && action_files(#[trigger] actions[j]).contains(file)),
    decreases actions.len(),
{
    if actions.len() > 0 {
        let front = actions.drop_last();
        lemma_files_after_seen(set, front, file);
        lemma_set_insert_all_contains(
            files_after(set, front),
            action_files(actions.last()),
            file,
        );
        if exists|j: int| 0 <= j < front.len() && action_files(#[trigger] front[j]).contains(file) {
            let j = choose|j: int|
                0 <= j < front.len() && action_files(#[trigger] front[j]).contains(file);
            assert(actions[j] == front[j]);
        }
        if action_files(actions.last()).contains(file) {
            assert(actions[actions.len() - 1] == actions.last());
        }
        if exists|j: int|
            0 <= j < actions.len() && action_files(#[trigger] actions[j]).contains(file) {
            let j = choose|j: int|
                0 <= j < actions.len() && action_files(#[trigger] actions[j]).contains(file);
            if j < front.len() {
                assert(front[j] == actions[j]);
            }
        }
    }
}

/// The commands and the files of the statistics stand in ascending order,
/// each once, and at most five questions are kept.
pub proof fn lemma_stats_are_bounded_and_sorted(record: ConversationModel)
    ensures
        ascending(stats_of(record).commands),
        ascending(stats_of(record).files_touched),
        stats_of(record).questions.len() <= MAX_STORED_QUESTIONS,
{
    lemma_commands_ascending(record.turns);
    lemma_files_ascending(record.turns);
}

/// The commands of the turns stand in ascending order, each once.
pub proof fn lemma_commands_ascending(turns: Seq<TurnModel>)
    ensures
        ascending(commands_of(turns)),
    decreases turns.len(),
{
    if turns.len() > 0 {
        lemma_commands_ascending(turns.drop_last());
        lemma_commands_after_ascending(commands_of(turns.drop_last()), turns.last().actions);
    }
}

/// The files of the turns stand in ascending order, each once.
pub proof fn lemma_files_ascending(turns: Seq<TurnModel>)
    ensures
        ascending(files_of(turns)),
    decreases turns.len(),
{
    if turns.len() > 0 {
        lemma_files_ascending(turns.drop_last());
        lemma_files_after_ascending(files_of(turns.drop_last()), turns.last().actions);
    }
}

/// Inserting the commands of actions leaves an ascending sequence ascending.
proof fn lemma_commands_after_ascending(set: Seq<Seq<char>>, actions: Seq<ActionModel>)
    requires
        ascending(set),
    ensures
        ascending(commands_after(set, actions)),
    decreases actions.len(),
{
    if actions.len() > 0 {
        lemma_commands_after_ascending(set, actions.drop_last());
        lemma_set_insert_all_ascending(
            commands_after(set, actions.drop_last()),
            action_commands(actions.last()),
        );
    }
}

/// Inserting the files of actions leaves an ascending sequence ascending.
proof fn lemma_files_after_ascending(set: Seq<Seq<char>>, actions: Seq<ActionModel>)
    requires
        ascending(set),
    ensures
        ascending(files_after(set, actions)),
    decreases actions.len(),
{
    if actions.len() > 0 {
        lemma_files_after_ascending(set, actions.drop_last());
        lemma_set_insert_all_ascending(
            files_after(set, actions.drop_last()),
            action_files(actions.last()),
        );
    }
}

} // verus!
