//! What the library hands to a store: fingerprints of transcript files, the
//! statistics of a conversation, and the rows of values that stand for a
//! conversation and for each of its turns.

use crate::text::{
    chars_of, count_tokens, join, joined, string_from_chars, token_count, trim_bounds, trimmed,
};
use crate::timestamp::{displayed_instant, rfc3339_text, Timestamp};
use crate::types::{
    ConversationModel, ConversationRecord, FallbackSource, FallbackSummary,
    TokenUsageBreakdown, TokenUsageSummary, TurnModel, TurnRecord, UserInputModel,
};
use crate::views::{deep, lemma_deep_of_vec, lemma_vec_pushed};
use vstd::prelude::*;
use vstd::slice::slice_subrange;

verus! {

/// What was known of a transcript file when it was read: when it was last
/// modified, how long it is, and the SHA-256 digest of its contents.
#[derive(Clone, Debug)]
pub struct RolloutFingerprint {
    pub modified_at: Option<Timestamp>,
    pub size_bytes: Option<u64>,
    pub sha256: Option<String>,
}

/// The mathematical value of a [`RolloutFingerprint`].
pub struct RolloutFingerprintModel {
    pub modified_at: Option<Timestamp>,
    pub size_bytes: Option<u64>,
    pub sha256: Option<Seq<char>>,
}

impl View for RolloutFingerprint {
    type V = RolloutFingerprintModel;

    open spec fn view(&self) -> RolloutFingerprintModel {
        RolloutFingerprintModel {
            modified_at: self.modified_at,
            size_bytes: self.size_bytes,
            sha256: self.sha256.deep_view(),
        }
    }
}

impl Default for RolloutFingerprint {
    fn default() -> (out: Self)
        ensures
            out@ == (RolloutFingerprintModel { modified_at: None, size_bytes: None, sha256: None }),
    {
        RolloutFingerprint { modified_at: None, size_bytes: None, sha256: None }
    }
}

/// What is derived from a conversation for keyword and metadata search.
#[derive(Clone, Debug)]
pub struct ConversationStats {
    pub preview: Option<String>,
    pub first_question: Option<String>,
    pub last_question: Option<String>,
    pub last_user_message: Option<String>,
    pub model: Option<String>,
    pub turn_count: i64,
    pub has_live_events: bool,
    pub commands: Vec<String>,
    pub files_touched: Vec<String>,
    pub questions: Vec<String>,
    pub search_blob: String,
    pub cwd: Option<String>,
}

/// The mathematical value of a [`ConversationStats`].
pub struct ConversationStatsModel {
    pub preview: Option<Seq<char>>,
    pub first_question: Option<Seq<char>>,
    pub last_question: Option<Seq<char>>,
    pub last_user_message: Option<Seq<char>>,
    pub model: Option<Seq<char>>,
    pub turn_count: i64,
    pub has_live_events: bool,
    pub commands: Seq<Seq<char>>,
    pub files_touched: Seq<Seq<char>>,
    pub questions: Seq<Seq<char>>,
    pub search_blob: Seq<char>,
    pub cwd: Option<Seq<char>>,
}

impl View for ConversationStats {
    type V = ConversationStatsModel;

    open spec fn view(&self) -> ConversationStatsModel {
        ConversationStatsModel {
            preview: self.preview.deep_view(),
            first_question: self.first_question.deep_view(),
            last_question: self.last_question.deep_view(),
            last_user_message: self.last_user_message.deep_view(),
            model: self.model.deep_view(),
            turn_count: self.turn_count,
            has_live_events: self.has_live_events,
            commands: self.commands.deep_view(),
            files_touched: self.files_touched.deep_view(),
            questions: self.questions.deep_view(),
            search_blob: self.search_blob@,
            cwd: self.cwd.deep_view(),
        }
    }
}

impl Default for ConversationStats {
    fn default() -> (out: Self)
        ensures
            out@ == (ConversationStatsModel {
                preview: None,
                first_question: None,
                last_question: None,
                last_user_message: None,
                model: None,
                turn_count: 0,
                has_live_events: false,
                commands: Seq::empty(),
                files_touched: Seq::empty(),
                questions: Seq::empty(),
                search_blob: Seq::empty(),
                cwd: None,
            }),
    {
        let out = ConversationStats {
            preview: None,
            first_question: None,
            last_question: None,
            last_user_message: None,
            model: None,
            turn_count: 0,
            has_live_events: false,
            commands: Vec::new(),
            files_touched: Vec::new(),
            questions: Vec::new(),
            search_blob: String::new(),
            cwd: None,
        };
        proof {
            assert(out.commands.deep_view() =~= Seq::empty());
            assert(out.files_touched.deep_view() =~= Seq::empty());
            assert(out.questions.deep_view() =~= Seq::empty());
        }
        out
    }
}

/// The estimated number of tokens of a text: the number of its
/// whitespace-delimited tokens, at least one unless the text is blank.
pub open spec fn token_estimate(text: Seq<char>) -> nat {
    let t = trimmed(text);
    if t.len() == 0 {
        0
    } else if token_count(t) == 0 {
        1
    } else {
        token_count(t)
    }
}

/// A count as a signed 64-bit number, at most `i64::MAX`.
pub open spec fn capped(count: nat) -> i64 {
    if count <= i64::MAX {
        count as i64
    } else {
        i64::MAX
    }
}

/// The sum of two capped counts, capped.
fn add_capped(a: i64, b: i64, Ghost(x): Ghost<nat>, Ghost(y): Ghost<nat>) -> (sum: i64)
    requires
        a == capped(x),
        b == capped(y),
    ensures
        sum == capped(x + y),
{
    match a.checked_add(b) {
        Some(sum) => sum,
        None => i64::MAX,
    }
}

/// The estimated number of tokens of a text, at most `i64::MAX`.
pub fn estimate_token_count(text: &str) -> (count: i64)
    ensures
        count == capped(token_estimate(text@)),
{
    let chars = chars_of(text);
    let (start, end) = trim_bounds(chars.as_slice());
    if start == end {
        0
    } else {
        let count = count_tokens(slice_subrange(chars.as_slice(), start, end));
        if count == 0 {
            1
        } else if count as u64 > 0x7fff_ffff_ffff_ffffu64 {
            i64::MAX
        } else {
            count as i64
        }
    }
}

/// The estimated number of tokens of the texts together.
pub open spec fn texts_estimate(texts: Seq<Seq<char>>) -> nat
    decreases texts.len(),
{
    if texts.len() == 0 {
        0
    } else {
        texts_estimate(texts.drop_last()) + token_estimate(texts.last())
    }
}

/// The texts of the user inputs that have one, in order.
pub open spec fn input_texts(inputs: Seq<UserInputModel>) -> Seq<Seq<char>>
    decreases inputs.len(),
{
    if inputs.len() == 0 {
        Seq::empty()
    } else {
        match inputs.last().text {
            Some(t) => input_texts(inputs.drop_last()).push(t),
            None => input_texts(inputs.drop_last()),
        }
    }
}

/// The estimated number of tokens that the user put into a turn.
pub open spec fn turn_input_estimate(turn: TurnModel) -> nat {
    texts_estimate(input_texts(turn.user_inputs))
}

/// The estimated number of tokens that the assistant put out in a turn: its
/// messages, its reasoning summaries and its fallback text.
pub open spec fn turn_output_estimate(turn: TurnModel) -> nat {
    texts_estimate(turn.result.assistant_messages) + texts_estimate(
        turn.result.reasoning_summaries,
    ) + match turn.result.fallback {
        Some(f) => token_estimate(f.text),
        None => 0,
    }
}

/// The estimated number of input tokens of the turns together.
pub open spec fn input_estimate(turns: Seq<TurnModel>) -> nat
    decreases turns.len(),
{
    if turns.len() == 0 {
        0
    } else {
        input_estimate(turns.drop_last()) + turn_input_estimate(turns.last())
    }
}

/// The estimated number of output tokens of the turns together.
pub open spec fn output_estimate(turns: Seq<TurnModel>) -> nat
    decreases turns.len(),
{
    if turns.len() == 0 {
        0
    } else {
        output_estimate(turns.drop_last()) + turn_output_estimate(turns.last())
    }
}

/// An estimate as a store holds it: nothing where it is zero.
pub open spec fn stored_estimate(total: nat) -> Option<i64> {
    if total > 0 {
        Some(capped(total))
    } else {
        None
    }
}

/// The estimated number of tokens of the texts together, capped.
fn estimate_texts(texts: &Vec<String>) -> (sum: i64)
    ensures
        sum == capped(texts_estimate(texts.deep_view())),
{
    let mut sum: i64 = 0;
    let mut i: usize = 0;
    proof {
        assert(texts.deep_view().take(0) =~= Seq::<Seq<char>>::empty());
    }
    while i < texts.len()
        invariant
            i <= texts@.len(),
            sum == capped(texts_estimate(texts.deep_view().take(i as int))),
        decreases texts@.len() - i,
    {
        proof {
            let next = texts.deep_view().take(i + 1);
            assert(next.drop_last() =~= texts.deep_view().take(i as int));
            assert(next.last() == texts@[i as int]@);
        }
        let one = estimate_token_count(texts[i].as_str());
        sum = add_capped(
            sum,
            one,
            Ghost(texts_estimate(texts.deep_view().take(i as int))),
            Ghost(token_estimate(texts@[i as int]@)),
        );
        i = i + 1;
    }
    proof {
        assert(texts.deep_view().take(texts@.len() as int) =~= texts.deep_view());
    }
    sum
}

/// The texts of the user inputs of a turn that have one, in order.
pub fn user_texts(turn: &TurnRecord) -> (texts: Vec<String>)
    ensures
        texts.deep_view() == input_texts(turn@.user_inputs),
{
    let mut texts: Vec<String> = Vec::new();
    let mut i: usize = 0;
    proof {
        assert(texts.deep_view() =~= Seq::<Seq<char>>::empty());
        assert(turn.user_inputs.deep_view().take(0) =~= Seq::<UserInputModel>::empty());
    }
    while i < turn.user_inputs.len()
        invariant
            i <= turn.user_inputs@.len(),
            texts.deep_view() == input_texts(turn.user_inputs.deep_view().take(i as int)),
        decreases turn.user_inputs@.len() - i,
    {
        proof {
            let next = turn.user_inputs.deep_view().take(i + 1);
            assert(next.drop_last() =~= turn.user_inputs.deep_view().take(i as int));
            assert(next.last() == turn.user_inputs@[i as int]@);
        }
        if let Some(text) = &turn.user_inputs[i].text {
            let ghost before = texts@;
            let copy = text.clone();
            texts.push(copy);
            proof {
                lemma_vec_pushed(before, texts, copy);
                lemma_deep_of_vec(texts);
                assert(deep(before) =~= input_texts(
                    turn.user_inputs.deep_view().take(i as int),
                ));
            }
        }
        i = i + 1;
    }
    proof {
        assert(turn.user_inputs.deep_view().take(turn.user_inputs@.len() as int)
            =~= turn.user_inputs.deep_view());
    }
    texts
}

/// The estimated number of input tokens of a conversation, from the texts of
/// its user inputs; nothing where the estimate is zero.
pub fn approximate_input_tokens(record: &ConversationRecord) -> (out: Option<i64>)
    ensures
        out == stored_estimate(input_estimate(record@.turns)),
{
    let mut sum: i64 = 0;
    let mut i: usize = 0;
    proof {
        assert(record.turns.deep_view().take(0) =~= Seq::<TurnModel>::empty());
    }
    while i < record.turns.len()
        invariant
            i <= record.turns@.len(),
            sum == capped(input_estimate(record.turns.deep_view().take(i as int))),
        decreases record.turns@.len() - i,
    {
        proof {
            let next = record.turns.deep_view().take(i + 1);
            assert(next.drop_last() =~= record.turns.deep_view().take(i as int));
            assert(next.last() == record.turns@[i as int]@);
        }
        let texts = user_texts(&record.turns[i]);
        let one = estimate_texts(&texts);
        sum = add_capped(
            sum,
            one,
            Ghost(input_estimate(record.turns.deep_view().take(i as int))),
            Ghost(turn_input_estimate(record.turns@[i as int]@)),
        );
        i = i + 1;
    }
    proof {
        assert(record.turns.deep_view().take(record.turns@.len() as int)
            =~= record.turns.deep_view());
    }
    if sum > 0 {
        Some(sum)
    } else {
        None
    }
}

/// The estimated number of output tokens of a turn, capped.
fn estimate_turn_output(turn: &TurnRecord) -> (sum: i64)
    ensures
        sum == capped(turn_output_estimate(turn@)),
{
    let assistant = estimate_texts(&turn.result.assistant_messages);
    let reasoning = estimate_texts(&turn.result.reasoning_summaries);
    let ghost a = texts_estimate(turn@.result.assistant_messages);
    let ghost r = texts_estimate(turn@.result.reasoning_summaries);
    let both = add_capped(assistant, reasoning, Ghost(a), Ghost(r));
    match &turn.result.fallback {
        Some(f) => {
            let fallback = estimate_token_count(f.text.as_str());
            add_capped(both, fallback, Ghost(a + r), Ghost(token_estimate(f@.text)))
        },
        None => both,
    }
}

/// The estimated number of output tokens of a conversation, from its
/// assistant messages, reasoning summaries and fallback texts; nothing where
/// the estimate is zero.
pub fn approximate_output_tokens(record: &ConversationRecord) -> (out: Option<i64>)
    ensures
        out == stored_estimate(output_estimate(record@.turns)),
{
    let mut sum: i64 = 0;
    let mut i: usize = 0;
    proof {
        assert(record.turns.deep_view().take(0) =~= Seq::<TurnModel>::empty());
    }
    while i < record.turns.len()
        invariant
            i <= record.turns@.len(),
            sum == capped(output_estimate(record.turns.deep_view().take(i as int))),
        decreases record.turns@.len() - i,
    {
        proof {
            let next = record.turns.deep_view().take(i + 1);
            assert(next.drop_last() =~= record.turns.deep_view().take(i as int));
            assert(next.last() == record.turns@[i as int]@);
        }
        let one = estimate_turn_output(&record.turns[i]);
        sum = add_capped(
            sum,
            one,
            Ghost(output_estimate(record.turns.deep_view().take(i as int))),
            Ghost(turn_output_estimate(record.turns@[i as int]@)),
        );
        i = i + 1;
    }
    proof {
        assert(record.turns.deep_view().take(record.turns@.len() as int)
            =~= record.turns.deep_view());
    }
    if sum > 0 {
        Some(sum)
    } else {
        None
    }
}

/// The texts joined by a paragraph break; nothing where there is no text.
pub open spec fn paragraphs(texts: Seq<Seq<char>>) -> Option<Seq<char>> {
    if texts.len() == 0 {
        None
    } else {
        Some(joined(texts, "\n\n"@))
    }
}

/// The user's text of a turn: the texts of its user inputs, joined by a
/// paragraph break.
pub fn join_user_inputs(turn: &TurnRecord) -> (out: Option<String>)
    ensures
        out.deep_view() == paragraphs(input_texts(turn@.user_inputs)),
{
    let texts = user_texts(turn);
    if texts.is_empty() {
        None
    } else {
        Some(join(&texts, "\n\n"))
    }
}

/// The assistant's text of a turn: its messages, joined by a paragraph break.
pub fn join_assistant_messages(turn: &TurnRecord) -> (out: Option<String>)
    ensures
        out.deep_view() == paragraphs(turn@.result.assistant_messages),
{
    if turn.result.assistant_messages.is_empty() {
        None
    } else {
        Some(join(&turn.result.assistant_messages, "\n\n"))
    }
}

/// The tag that a store puts before a fallback text.
pub open spec fn fallback_tag(source: FallbackSource) -> Seq<char> {
    match source {
        FallbackSource::AssistantReasoning => "[reasoning] "@,
        FallbackSource::ToolOutput => "[tool] "@,
        FallbackSource::EventStream => "[event] "@,
    }
}

/// A fallback text with the tag of its source before it.
pub fn format_fallback(fallback: &FallbackSummary) -> (out: String)
    ensures
        out@ == fallback_tag(fallback@.source) + fallback@.text,
{
    let tag = match fallback.source {
        FallbackSource::AssistantReasoning => "[reasoning] ",
        FallbackSource::ToolOutput => "[tool] ",
        FallbackSource::EventStream => "[event] ",
    };
    let mut out = tag.to_owned();
    out.append(fallback.text.as_str());
    out
}

/// The usage snapshot that a store keeps: the total, or the last one where
/// there is no total.
pub open spec fn best_breakdown_of(usage: TokenUsageSummary) -> Option<TokenUsageBreakdown> {
    match usage.total {
        Some(total) => Some(total),
        None => usage.last,
    }
}

/// The usage snapshot that a store keeps.
pub fn best_breakdown(record: &ConversationRecord) -> (out: Option<TokenUsageBreakdown>)
    ensures
        out == best_breakdown_of(record@.token_usage),
{
    match record.token_usage.total {
        Some(total) => Some(total),
        None => record.token_usage.last,
    }
}

/// Index of the first character after the last `/` of `path`; zero where it
/// has none.
pub open spec fn name_start(path: Seq<char>) -> nat
    decreases path.len(),
{
    if path.len() == 0 {
        0
    } else if path.last() == '/' {
        path.len()
    } else {
        name_start(path.drop_last())
    }
}

/// Index of the last `.` of `name`; minus one where it has none.
pub open spec fn last_dot(name: Seq<char>) -> int
    decreases name.len(),
{
    if name.len() == 0 {
        -1
    } else if name.last() == '.' {
        name.len() - 1
    } else {
        last_dot(name.drop_last())
    }
}

/// The file name of a path without its extension: what follows the last `/`,
/// up to the last `.` unless that is the name's first character.
pub open spec fn file_stem_of(path: Seq<char>) -> Seq<char> {
    let name = path.skip(name_start(path) as int);
    if last_dot(name) > 0 {
        name.take(last_dot(name))
    } else {
        name
    }
}

/// The identity that a path gives a conversation: its file stem, or the
/// whole path where the stem is empty.
pub open spec fn path_identity(path: Seq<char>) -> Seq<char> {
    if file_stem_of(path).len() > 0 {
        file_stem_of(path)
    } else {
        path
    }
}

/// The identity that a path gives a conversation.
pub fn identity_of_path(path: &str) -> (out: String)
    ensures
        out@ == path_identity(path@),
{
    let chars = chars_of(path);
    let n = chars.len();
    let mut start: usize = n;
    proof {
        assert(chars@.take(n as int) =~= chars@);
    }
    while start > 0 && chars[start - 1] != '/'
        invariant
            start <= n,
            n == chars@.len(),
            name_start(chars@) == name_start(chars@.take(start as int)),
        decreases start,
    {
        proof {
            assert(chars@.take(start as int).drop_last() =~= chars@.take(start - 1));
        }
        start = start - 1;
    }
    proof {
        if start > 0 {
            assert(chars@.take(start as int).last() == chars@[start - 1]);
        }
        assert(name_start(chars@) == start);
    }
    let ghost name = chars@.skip(start as int);
    let mut dot: usize = n;
    proof {
        assert(name.take(n - start) =~= name);
    }
    while dot > start && chars[dot - 1] != '.'
        invariant
            start <= dot <= n,
            n == chars@.len(),
            name == chars@.skip(start as int),
            last_dot(name) == last_dot(name.take(dot - start)),
        decreases dot,
    {
        proof {
            assert(name.take(dot - start).drop_last() =~= name.take(dot - start - 1));
        }
        dot = dot - 1;
    }
    proof {
        if dot > start {
            assert(name.take(dot - start).last() == chars@[dot - 1]);
            assert(last_dot(name) == dot - start - 1);
        } else {
            assert(last_dot(name) == -1);
        }
    }
    let end = if dot - start > 1 {
        dot - 1
    } else {
        n
    };
    proof {
        assert(chars@.subrange(start as int, end as int) =~= file_stem_of(chars@));
    }
    if end > start {
        string_from_chars(slice_subrange(chars.as_slice(), start, end))
    } else {
        path.to_owned()
    }
}

/// The identity of a conversation: the `id` of its session metadata, else
/// their `conversation_id`, else the identity that the path of its transcript
/// gives it.
pub open spec fn conversation_id_of(record: ConversationModel, path: Seq<char>) -> Seq<char> {
    match record.session_meta {
        Some(meta) => match meta.text_at("id"@) {
            Some(id) => id,
            None => match meta.text_at("conversation_id"@) {
                Some(id) => id,
                None => path_identity(path),
            },
        },
        None => path_identity(path),
    }
}

/// The identity of a conversation.
pub fn extract_conversation_id(record: &ConversationRecord, fallback_path: &str) -> (out: String)
    ensures
        out@ == conversation_id_of(record@, fallback_path@),
{
    if let Some(meta) = &record.session_meta {
        if let Some(id) = meta.str_at("id") {
            return id.to_owned();
        }
        if let Some(id) = meta.str_at("conversation_id") {
            return id.to_owned();
        }
    }
    identity_of_path(fallback_path)
}

/// A count as a store holds it: the same 64 bits, read as a signed number.
pub open spec fn signed(count: u64) -> i64 {
    count as i64
}

/// An optional count as a store holds it.
pub open spec fn signed_count(count: Option<u64>) -> Option<i64> {
    match count {
        Some(c) => Some(signed(c)),
        None => None,
    }
}

/// An optional count as a store holds it.
fn to_signed(count: Option<u64>) -> (out: Option<i64>)
    ensures
        out == signed_count(count),
{
    match count {
        Some(c) => Some(c as i64),
        None => None,
    }
}

/// The token counts of a conversation as a store holds them.
#[derive(Clone, Copy, Debug, PartialEq, Eq, Structural)]
pub struct TokenTotals {
    pub input: Option<i64>,
    pub cached: Option<i64>,
    pub output: Option<i64>,
    pub reasoning: Option<i64>,
    pub total: Option<i64>,
}

/// The sum of two signed counts, kept within the range of `i64`.
pub open spec fn saturating_sum(a: i64, b: i64) -> i64 {
    if a + b > i64::MAX {
        i64::MAX
    } else if a + b < i64::MIN {
        i64::MIN
    } else {
        (a + b) as i64
    }
}

/// One of two counts, or their sum where both are there.
pub open spec fn combined(input: Option<i64>, output: Option<i64>) -> Option<i64> {
    match (input, output) {
        (Some(i), Some(o)) => Some(saturating_sum(i, o)),
        (Some(i), None) => Some(i),
        (None, Some(o)) => Some(o),
        (None, None) => None,
    }
}

/// The token counts of a conversation. The counts that the usage snapshot
/// states are kept; input and output fall back to the estimates from the
/// texts, and the total to the sum of input and output.
pub open spec fn token_totals_of(record: ConversationModel) -> TokenTotals {
    let stated = match best_breakdown_of(record.token_usage) {
        Some(b) => b,
        None => TokenUsageBreakdown {
            input_tokens: None,
            cached_input_tokens: None,
            output_tokens: None,
            reasoning_output_tokens: None,
            total_tokens: None,
        },
    };
    let input = match stated.input_tokens {
        Some(v) => Some(signed(v)),
        None => stored_estimate(input_estimate(record.turns)),
    };
    let output = match stated.output_tokens {
        Some(v) => Some(signed(v)),
        None => stored_estimate(output_estimate(record.turns)),
    };
    TokenTotals {
        input,
        cached: signed_count(stated.cached_input_tokens),
        output,
        reasoning: signed_count(stated.reasoning_output_tokens),
        total: match stated.total_tokens {
            Some(v) => Some(signed(v)),
            None => combined(input, output),
        },
    }
}

/// The token counts of a conversation.
pub fn token_totals(record: &ConversationRecord) -> (out: TokenTotals)
    ensures
        out == token_totals_of(record@),
{
    let stated = match best_breakdown(record) {
        Some(b) => b,
        None => TokenUsageBreakdown::default(),
    };
    let input = match stated.input_tokens {
        Some(v) => Some(v as i64),
        None => approximate_input_tokens(record),
    };
    let output = match stated.output_tokens {
        Some(v) => Some(v as i64),
        None => approximate_output_tokens(record),
    };
    let total = match stated.total_tokens {
        Some(v) => Some(v as i64),
        None => match (input, output) {
            (Some(i), Some(o)) => Some(
                match i.checked_add(o) {
                    Some(sum) => sum,
                    None => if i > 0 {
                        i64::MAX
                    } else {
                        i64::MIN
                    },
                },
            ),
            (Some(i), None) => Some(i),
            (None, Some(o)) => Some(o),
            (None, None) => None,
        },
    };
    TokenTotals {
        input,
        cached: to_signed(stated.cached_input_tokens),
        output,
        reasoning: to_signed(stated.reasoning_output_tokens),
        total,
    }
}

/// Why the row of a conversation could not be computed.
#[derive(Debug)]
pub enum StorageError {
    /// A list of texts could not be written as JSON.
    Json(serde_json::Error),
}

/// The kind of a [`StorageError`].
pub enum StorageFailure {
    Json,
}

impl View for StorageError {
    type V = StorageFailure;

    open spec fn view(&self) -> StorageFailure {
        match self {
            StorageError::Json(_) => StorageFailure::Json,
        }
    }
}

/// The JSON text that `serde_json::to_string` writes for a list of texts, or
/// `None` where it reports an error.
pub uninterp spec fn json_array_text(items: Seq<Seq<char>>) -> Option<Seq<char>>;

/// Calls `serde_json::to_string` on a list of strings. The outcome depends
/// on the strings alone: the JSON text, which this library names
/// `json_array_text`, or the crate's error.
#[verifier::external_body]
fn strings_to_json(items: &Vec<String>) -> (out: Result<String, serde_json::Error>)
    ensures
        match out {
            Ok(text) => json_array_text(items.deep_view()) == Some(text@),
            Err(_) => json_array_text(items.deep_view()) is None,
        },
{
    serde_json::to_string(items)
}

/// An instant as a store shows it.
pub open spec fn displayed(instant: Option<Timestamp>) -> Option<Seq<char>> {
    match instant {
        Some(t) => displayed_instant(t),
        None => None,
    }
}

/// An instant as a store shows it.
fn display_time(instant: Option<Timestamp>) -> (out: Option<String>)
    ensures
        out.deep_view() == displayed(instant),
{
    match instant {
        Some(t) => t.to_display_string(),
        None => None,
    }
}

/// The columns of a conversation that are computed from its record, its
/// fingerprint and its statistics.
#[derive(Clone, Debug)]
pub struct ConversationRow {
    pub conversation_id: String,
    pub started_at: Option<String>,
    pub ended_at: Option<String>,
    pub duration_seconds: Option<i64>,
    pub tokens: TokenTotals,
    pub model_context: Option<i64>,
    /// The modification time of the transcript file, in the RFC 3339 format.
    pub rollout_modified_at: Option<String>,
    pub rollout_size_bytes: Option<i64>,
    /// One for a live session, zero otherwise.
    pub has_live_events: i64,
    /// The commands as a JSON array.
    pub commands_json: String,
    /// The files as a JSON array.
    pub files_json: String,
    /// The questions as a JSON array.
    pub questions_json: String,
    /// The search blob; nothing where it is empty.
    pub search_blob: Option<String>,
}

/// The mathematical value of a [`ConversationRow`].
pub struct ConversationRowModel {
    pub conversation_id: Seq<char>,
    pub started_at: Option<Seq<char>>,
    pub ended_at: Option<Seq<char>>,
    pub duration_seconds: Option<i64>,
    pub tokens: TokenTotals,
    pub model_context: Option<i64>,
    pub rollout_modified_at: Option<Seq<char>>,
    pub rollout_size_bytes: Option<i64>,
    pub has_live_events: i64,
    pub commands_json: Seq<char>,
    pub files_json: Seq<char>,
    pub questions_json: Seq<char>,
    pub search_blob: Option<Seq<char>>,
}

impl View for ConversationRow {
    type V = ConversationRowModel;

    open spec fn view(&self) -> ConversationRowModel {
        ConversationRowModel {
            conversation_id: self.conversation_id@,
            started_at: self.started_at.deep_view(),
            ended_at: self.ended_at.deep_view(),
            duration_seconds: self.duration_seconds,
            tokens: self.tokens,
            model_context: self.model_context,
            rollout_modified_at: self.rollout_modified_at.deep_view(),
            rollout_size_bytes: self.rollout_size_bytes,
            has_live_events: self.has_live_events,
            commands_json: self.commands_json@,
            files_json: self.files_json@,
            questions_json: self.questions_json@,
            search_blob: self.search_blob.deep_view(),
        }
    }
}

/// The row of a conversation: its identity, which is `id_override` where
/// one is given, and the columns computed from its record, its fingerprint
/// and its statistics. There is no row where one of the lists of the
/// statistics cannot be written as JSON.
pub open spec fn conversation_row_of(
    path: Seq<char>,
    record: ConversationModel,
    fingerprint: RolloutFingerprintModel,
    stats: ConversationStatsModel,
    id_override: Option<Seq<char>>,
) -> Result<ConversationRowModel, StorageFailure> {
    match (
        json_array_text(stats.commands),
        json_array_text(stats.files_touched),
        json_array_text(stats.questions),
    ) {
        (Some(commands_json), Some(files_json), Some(questions_json)) => Ok(
            ConversationRowModel {
                conversation_id: match id_override {
                    Some(id) => id,
                    None => conversation_id_of(record, path),
                },
                started_at: displayed(record.started_at),
                ended_at: displayed(record.ended_at),
                duration_seconds: signed_count(record.duration_seconds),
                tokens: token_totals_of(record),
                model_context: signed_count(record.token_usage.model_context_window),
                rollout_modified_at: match fingerprint.modified_at {
                    Some(t) => rfc3339_text(t),
                    None => None,
                },
                rollout_size_bytes: signed_count(fingerprint.size_bytes),
                has_live_events: if stats.has_live_events {
                    1
                } else {
                    0
                },
                commands_json,
                files_json,
                questions_json,
                search_blob: if stats.search_blob.len() == 0 {
                    None
                } else {
                    Some(stats.search_blob)
                },
            },
        ),
        _ => Err(StorageFailure::Json),
    }
}

/// The row of a conversation.
pub fn conversation_row(
    rollout_path: &str,
    record: &ConversationRecord,
    fingerprint: &RolloutFingerprint,
    stats: &ConversationStats,
    conversation_id_override: Option<&str>,
) -> (out: Result<ConversationRow, StorageError>)
    ensures
        match out {
            Ok(row) => conversation_row_of(
                rollout_path@,
                record@,
                fingerprint@,
                stats@,
                conversation_id_override.deep_view(),
            ) == Ok::<ConversationRowModel, StorageFailure>(row@),
            Err(e) => conversation_row_of(
                rollout_path@,
                record@,
                fingerprint@,
                stats@,
                conversation_id_override.deep_view(),
            ) == Err::<ConversationRowModel, StorageFailure>(e@),
        },
{
    let commands_json = match strings_to_json(&stats.commands) {
        Ok(text) => text,
        Err(e) => {
            return Err(StorageError::Json(e));
        },
    };
    let files_json = match strings_to_json(&stats.files_touched) {
        Ok(text) => text,
        Err(e) => {
            return Err(StorageError::Json(e));
        },
    };
    let questions_json = match strings_to_json(&stats.questions) {
        Ok(text) => text,
        Err(e) => {
            return Err(StorageError::Json(e));
        },
    };
    let conversation_id = match conversation_id_override {
        Some(id) => id.to_owned(),
        None => extract_conversation_id(record, rollout_path),
    };
    let search_blob = if stats.search_blob.as_str().is_empty() {
        None
    } else {
        Some(stats.search_blob.clone())
    };
    let rollout_modified_at = match fingerprint.modified_at {
        Some(t) => t.to_rfc3339(),
        None => None,
    };
    Ok(
        ConversationRow {
            conversation_id,
            started_at: display_time(record.started_at),
            ended_at: display_time(record.ended_at),
            duration_seconds: to_signed(record.duration_seconds),
            tokens: token_totals(record),
            model_context: to_signed(record.token_usage.model_context_window),
            rollout_modified_at,
            rollout_size_bytes: to_signed(fingerprint.size_bytes),
            has_live_events: if stats.has_live_events {
                1
            } else {
                0
            },
            commands_json,
            files_json,
            questions_json,
            search_blob,
        },
    )
}

/// The columns of a turn that are computed from its record.
#[derive(Clone, Debug)]
pub struct TurnRow {
    pub turn_index: i64,
    pub started_at: Option<String>,
    pub user_text: Option<String>,
    pub assistant_text: Option<String>,
    /// The fallback text with the tag of its source before it.
    pub fallback_text: Option<String>,
}

/// The mathematical value of a [`TurnRow`].
pub struct TurnRowModel {
    pub turn_index: i64,
    pub started_at: Option<Seq<char>>,
    pub user_text: Option<Seq<char>>,
    pub assistant_text: Option<Seq<char>>,
    pub fallback_text: Option<Seq<char>>,
}

impl View for TurnRow {
    type V = TurnRowModel;

    open spec fn view(&self) -> TurnRowModel {
        TurnRowModel {
            turn_index: self.turn_index,
            started_at: self.started_at.deep_view(),
            user_text: self.user_text.deep_view(),
            assistant_text: self.assistant_text.deep_view(),
            fallback_text: self.fallback_text.deep_view(),
        }
    }
}

impl DeepView for TurnRow {
    type V = TurnRowModel;

    open spec fn deep_view(&self) -> TurnRowModel {
        self@
    }
}

/// The row of a turn.
pub open spec fn turn_row_of(turn: TurnModel) -> TurnRowModel {
    TurnRowModel {
        turn_index: turn.index as i64,
        started_at: displayed(turn.started_at),
        user_text: paragraphs(input_texts(turn.user_inputs)),
        assistant_text: paragraphs(turn.result.assistant_messages),
        fallback_text: match turn.result.fallback {
            Some(f) => Some(fallback_tag(f.source) + f.text),
            None => None,
        },
    }
}

/// The row of a turn.
pub fn turn_row(turn: &TurnRecord) -> (out: TurnRow)
    ensures
        out@ == turn_row_of(turn@),
{
    let fallback_text = match &turn.result.fallback {
        Some(f) => Some(format_fallback(f)),
        None => None,
    };
    TurnRow {
        turn_index: turn.index as i64,
        started_at: display_time(turn.started_at),
        user_text: join_user_inputs(turn),
        assistant_text: join_assistant_messages(turn),
        fallback_text,
    }
}

} // verus!
