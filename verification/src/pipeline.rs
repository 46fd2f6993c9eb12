//! The ingestion pipeline: fingerprints of transcript files, the decision
//! whether a file is read again, the plan by which the summaries of the turns
//! are embedded in batches, and what is stored of a transcript.

use crate::embedding::EmbeddingError;
use crate::extractor::{parse_rollout, parsed_rollout, ParseError, ParseFailure};
use crate::stats::{compute_conversation_stats, stats_of};
use crate::storage::{
    conversation_row, conversation_row_of, turn_row, turn_row_of, ConversationRow,
    ConversationRowModel, ConversationStats, ConversationStatsModel, RolloutFingerprint,
    RolloutFingerprintModel, StorageError, StorageFailure, TurnRow, TurnRowModel,
};
use crate::text::{ends_with, starts_with};
use crate::timestamp::Timestamp;
use crate::types::{ConversationModel, ConversationRecord, TurnModel};
use sha2::Digest;
use vstd::prelude::*;

verus! {

/// The SHA-256 digest of bytes, in lower-case hexadecimal digits.
pub uninterp spec fn sha256_hex(bytes: Seq<u8>) -> Seq<char>;

/// Calls `sha2::Sha256::digest` and formats the digest with `{:x}`. The
/// result depends on the bytes alone; this library names it `sha256_hex`.
#[verifier::external_body]
fn sha256_hex_digest(bytes: &[u8]) -> (hex: String)
    ensures
        hex@ == sha256_hex(bytes@),
{
    format!("{:x}", sha2::Sha256::digest(bytes))
}

/// The fingerprint of a transcript file with the given contents.
pub fn fingerprint_of(bytes: &[u8], modified_at: Option<Timestamp>, size_bytes: Option<u64>) -> (out:
    RolloutFingerprint)
    ensures
        out@ == (RolloutFingerprintModel {
            modified_at,
            size_bytes,
            sha256: Some(sha256_hex(bytes@)),
        }),
{
    RolloutFingerprint { modified_at, size_bytes, sha256: Some(sha256_hex_digest(bytes)) }
}

/// Whether a file looks unchanged: the stored fingerprint and the file both
/// have a modification time and a size, the two times are the same instant,
/// and the two sizes are equal.
pub open spec fn looks_unchanged(
    existing: RolloutFingerprintModel,
    modified_at: Option<Timestamp>,
    size_bytes: Option<u64>,
) -> bool {
    &&& existing.modified_at is Some
    &&& modified_at is Some
    &&& existing.modified_at->0.unix_seconds == modified_at->0.unix_seconds
    &&& existing.modified_at->0.nanosecond == modified_at->0.nanosecond
    &&& existing.size_bytes is Some
    &&& size_bytes is Some
    &&& existing.size_bytes->0 == size_bytes->0
}

/// Whether a file looks unchanged since its fingerprint was stored.
pub fn fingerprint_matches(
    existing: &RolloutFingerprint,
    modified_at: Option<Timestamp>,
    size_bytes: Option<u64>,
) -> (same: bool)
    ensures
        same == looks_unchanged(existing@, modified_at, size_bytes),
{
    match (existing.modified_at, modified_at) {
        (Some(stored), Some(current)) => {
            if !stored.same_instant(&current) {
                return false;
            }
        },
        _ => {
            return false;
        },
    }
    match (existing.size_bytes, size_bytes) {
        (Some(stored), Some(current)) => stored == current,
        _ => false,
    }
}

/// What the incremental update does with a file.
#[derive(Clone, Copy, Debug, PartialEq, Eq, Structural)]
pub enum UpdateDecision {
    /// The file looks unchanged and is passed over.
    Skip,
    /// The file is read and ingested.
    Ingest,
}

/// What the incremental update does with a file: it is passed over exactly
/// when a fingerprint is stored for its path and the file looks unchanged.
pub fn decide_update(
    existing: Option<&RolloutFingerprint>,
    modified_at: Option<Timestamp>,
    size_bytes: Option<u64>,
) -> (decision: UpdateDecision)
    ensures
        decision == if existing is Some && looks_unchanged(
            existing->0@,
            modified_at,
            size_bytes,
        ) {
            UpdateDecision::Skip
        } else {
            UpdateDecision::Ingest
        },
{
    match existing {
        Some(stored) => if fingerprint_matches(stored, modified_at, size_bytes) {
            UpdateDecision::Skip
        } else {
            UpdateDecision::Ingest
        },
        None => UpdateDecision::Ingest,
    }
}

/// How many files an incremental update ingested and how many it passed
/// over.
#[derive(Clone, Copy, Debug, PartialEq, Eq, Structural)]
pub struct UpdateStats {
    pub processed: usize,
    pub skipped: usize,
}

impl Default for UpdateStats {
    fn default() -> (out: Self)
        ensures
            out == (UpdateStats { processed: 0, skipped: 0 }),
    {
        UpdateStats { processed: 0, skipped: 0 }
    }
}

/// A count and one more, at most `usize::MAX`.
pub open spec fn one_more(count: usize) -> usize {
    if count < usize::MAX {
        (count + 1) as usize
    } else {
        count
    }
}

impl UpdateStats {
    /// Counts one file by what was done with it.
    pub fn record(&mut self, decision: UpdateDecision)
        ensures
            *final(self) == match decision {
                UpdateDecision::Skip => UpdateStats {
                    skipped: one_more(old(self).skipped),
                    ..*old(self)
                },
                UpdateDecision::Ingest => UpdateStats {
                    processed: one_more(old(self).processed),
                    ..*old(self)
                },
            },
    {
        match decision {
            UpdateDecision::Skip => {
                if self.skipped < usize::MAX {
                    self.skipped = self.skipped + 1;
                }
            },
            UpdateDecision::Ingest => {
                if self.processed < usize::MAX {
                    self.processed = self.processed + 1;
                }
            },
        }
    }
}

/// Whether a file name follows the naming of transcript files: it starts
/// with `rollout-` and ends with `.jsonl`.
pub open spec fn rollout_name(name: Seq<char>) -> bool {
    "rollout-"@.is_prefix_of(name) && ".jsonl"@.is_suffix_of(name)
}

/// Whether a file name follows the naming of transcript files.
pub fn is_rollout_file_name(name: &str) -> (yes: bool)
    ensures
        yes == rollout_name(name@),
{
    starts_with(name, "rollout-") && ends_with(name, ".jsonl")
}

/// How many summaries are handed to the embedding backend at once.
pub const EMBED_BATCH_SIZE: usize = 32;

/// What is asked of the embedding backend next.
#[derive(Clone, Copy, Debug, PartialEq, Eq, Structural)]
pub enum EmbedStep {
    /// The summaries from `start` up to `end` are embedded in one call.
    Batch { start: usize, end: usize },
    /// The summary at `index` is embedded by itself.
    Single { index: usize },
    /// Every summary has its vector.
    Done,
}

/// How far the embedding of the summaries of a conversation has come.
///
/// The summaries are embedded in order. The backend is asked for a batch at a
/// time; where it answers a batch with another number of vectors than it was
/// asked for, the answer is dropped and each summary of that batch is
/// embedded by itself.
#[derive(Clone, Copy, Debug, PartialEq, Eq, Structural)]
pub struct EmbedPlan {
    /// How many summaries there are.
    pub total: usize,
    /// How many summaries have their vector: the first `embedded` ones.
    pub embedded: usize,
    /// The end of the batch that is embedded one by one; no such batch is
    /// under way where this is not above `embedded`.
    pub single_until: usize,
}

impl EmbedPlan {
    /// No more vectors are counted than there are summaries, and the batch
    /// that is embedded one by one ends within them.
    pub open spec fn wf(self) -> bool {
        self.embedded <= self.total && self.single_until <= self.total
    }

    /// The end of the batch that starts at `embedded`.
    pub open spec fn batch_end(self) -> usize {
        if self.total - self.embedded > EMBED_BATCH_SIZE {
            (self.embedded + EMBED_BATCH_SIZE) as usize
        } else {
            self.total
        }
    }

    /// What is asked of the backend next.
    pub open spec fn step(self) -> EmbedStep {
        if self.embedded >= self.total {
            EmbedStep::Done
        } else if self.embedded < self.single_until {
            EmbedStep::Single { index: self.embedded }
        } else {
            EmbedStep::Batch { start: self.embedded, end: self.batch_end() }
        }
    }

    /// The plan after the backend answered the batch with `returned` vectors:
    /// with as many as were asked for the batch is embedded, with any other
    /// number it is embedded one by one. Where no batch was asked for, the
    /// plan stays as it is.
    pub open spec fn after_batch(self, returned: usize) -> EmbedPlan {
        match self.step() {
            EmbedStep::Batch { start, end } => if returned == end - start {
                EmbedPlan { embedded: end, ..self }
            } else {
                EmbedPlan { single_until: end, ..self }
            },
            _ => self,
        }
    }

    /// The plan after the backend embedded the single summary that was asked
    /// for. Where none was asked for, the plan stays as it is.
    pub open spec fn after_single(self) -> EmbedPlan {
        match self.step() {
            EmbedStep::Single { index } => EmbedPlan { embedded: (index + 1) as usize, ..self },
            _ => self,
        }
    }

    /// The plan after `count` summaries were embedded one by one.
    pub open spec fn after_singles(self, count: nat) -> EmbedPlan
        decreases count,
    {
        if count == 0 {
            self
        } else {
            self.after_singles((count - 1) as nat).after_single()
        }
    }

    /// How many calls of the backend the plan is away from its end, at most.
    pub open spec fn remaining(self) -> nat {
        if self.embedded >= self.total {
            0
        } else {
            (2 * (self.total - self.embedded) - if self.embedded < self.single_until {
                1int
            } else {
                0int
            }) as nat
        }
    }

    /// The plan for `total` summaries, none of them embedded.
    pub fn new(total: usize) -> (out: Self)
        ensures
            out == (EmbedPlan { total, embedded: 0, single_until: 0 }),
            out.wf(),
    {
        EmbedPlan { total, embedded: 0, single_until: 0 }
    }

    /// What is asked of the backend next.
    pub fn next_step(&self) -> (out: EmbedStep)
        ensures
            out == self.step(),
    {
        if self.embedded >= self.total {
            EmbedStep::Done
        } else if self.embedded < self.single_until {
            EmbedStep::Single { index: self.embedded }
        } else {
            let end = if self.total - self.embedded > EMBED_BATCH_SIZE {
                self.embedded + EMBED_BATCH_SIZE
            } else {
                self.total
            };
            EmbedStep::Batch { start: self.embedded, end }
        }
    }

    /// Takes note of the backend's answer to the batch that was asked for.
    /// Returns whether the vectors of the answer are kept.
    pub fn batch_returned(&mut self, returned: usize) -> (kept: bool)
        ensures
            *final(self) == old(self).after_batch(returned),
            kept == (final(self).embedded != old(self).embedded),
            old(self).wf() ==> final(self).wf(),
    {
        match self.next_step() {
            EmbedStep::Batch { start, end } => {
                if returned == end - start {
                    self.embedded = end;
                    true
                } else {
                    self.single_until = end;
                    false
                }
            },
            _ => false,
        }
    }

    /// Takes note that the backend embedded the single summary that was asked
    /// for.
    pub fn single_returned(&mut self)
        ensures
            *final(self) == old(self).after_single(),
            old(self).wf() ==> final(self).wf(),
    {
        match self.next_step() {
            EmbedStep::Single { index } => {
                self.embedded = index + 1;
            },
            _ => {},
        }
    }

    /// A plan is at its end exactly when every summary has its vector.
    pub proof fn lemma_done_is_complete(self)
        requires
            self.wf(),
        ensures
            self.step() is Done <==> self.embedded == self.total,
    {
    }

    /// A batch that the backend answered short is embedded one by one:
    /// after the short answer the next steps ask for its summaries singly, in
    /// order, and once all of them are embedded the plan stands where the
    /// accepted batch would have left it.
    pub proof fn lemma_short_batch_retried_singly(self, returned: usize, count: nat)
        requires
            self.wf(),
            self.step() is Batch,
            returned != self.step()->end - self.step()->start,
            count <= self.step()->end - self.step()->start,
        ensures
            ({
                let retried = self.after_batch(returned).after_singles(count);
                &&& retried.wf()
                &&& retried.total == self.total
                &&& retried.single_until == self.step()->end
                &&& retried.embedded == self.embedded + count
                &&& count < self.step()->end - self.step()->start ==> retried.step() == (
                EmbedStep::Single { index: (self.embedded + count) as usize })
                &&& count == self.step()->end - self.step()->start ==> retried.embedded
                    == self.step()->end
            }),
        decreases count,
    {
        if count > 0 {
            self.lemma_short_batch_retried_singly(returned, (count - 1) as nat);
        }
    }

    /// Every answer of the backend brings the plan nearer to its end.
    pub proof fn lemma_progress(self, returned: usize)
        requires
            self.wf(),
        ensures
            self.step() is Batch ==> self.after_batch(returned).remaining() < self.remaining(),
            self.step() is Single ==> self.after_single().remaining() < self.remaining(),
            self.step() is Done ==> self.remaining() == 0,
    {
    }
}

/// Why a transcript could not be ingested.
#[derive(Debug)]
pub enum PipelineError {
    /// The transcript could not be read.
    Parse(ParseError),
    /// The turns could not be embedded.
    Embedding(EmbeddingError),
    /// The rows of the transcript could not be computed.
    Storage(StorageError),
}

/// The kind of a [`PipelineError`].
pub enum PipelineFailure {
    Parse(ParseFailure),
    Embedding(EmbeddingError),
    Storage(StorageFailure),
}

impl View for PipelineError {
    type V = PipelineFailure;

    open spec fn view(&self) -> PipelineFailure {
        match self {
            PipelineError::Parse(e) => PipelineFailure::Parse(e@),
            PipelineError::Embedding(e) => PipelineFailure::Embedding(*e),
            PipelineError::Storage(e) => PipelineFailure::Storage(e@),
        }
    }
}

/// Checks that every turn has its vector: with any other number of vectors
/// the ingestion fails for missing output.
pub fn check_embedding_count(vectors: usize, turns: usize) -> (out: Result<(), PipelineError>)
    ensures
        out is Ok <==> vectors == turns,
        out is Err ==> out->Err_0@ == PipelineFailure::Embedding(EmbeddingError::MissingOutput),
{
    if vectors != turns {
        Err(PipelineError::Embedding(EmbeddingError::MissingOutput))
    } else {
        Ok(())
    }
}

/// What is stored of a transcript: its record, the statistics and the row of
/// the conversation, and one row for each turn.
#[derive(Debug)]
pub struct IngestPlan {
    pub record: ConversationRecord,
    pub stats: ConversationStats,
    pub conversation: ConversationRow,
    pub turns: Vec<TurnRow>,
}

/// The mathematical value of an [`IngestPlan`].
pub struct IngestPlanModel {
    pub record: ConversationModel,
    pub stats: ConversationStatsModel,
    pub conversation: ConversationRowModel,
    pub turns: Seq<TurnRowModel>,
}

impl View for IngestPlan {
    type V = IngestPlanModel;

    open spec fn view(&self) -> IngestPlanModel {
        IngestPlanModel {
            record: self.record@,
            stats: self.stats@,
            conversation: self.conversation@,
            turns: self.turns.deep_view(),
        }
    }
}

/// The rows of the turns, in order.
pub open spec fn turn_rows_of(turns: Seq<TurnModel>) -> Seq<TurnRowModel> {
    Seq::new(turns.len(), |i: int| turn_row_of(turns[i]))
}

/// What is stored of a conversation record that was read from the
/// transcript at `path`, or the failure to compute its row.
pub open spec fn ingest_plan_of(
    path: Seq<char>,
    record: ConversationModel,
    fingerprint: RolloutFingerprintModel,
    id_override: Option<Seq<char>>,
) -> Result<IngestPlanModel, PipelineFailure> {
    match conversation_row_of(path, record, fingerprint, stats_of(record), id_override) {
        Ok(conversation) => Ok(
            IngestPlanModel {
                record,
                stats: stats_of(record),
                conversation,
                turns: turn_rows_of(record.turns),
            },
        ),
        Err(e) => Err(PipelineFailure::Storage(e)),
    }
}

/// What is stored of a transcript with the given text: nothing where the
/// transcript cannot be read.
pub open spec fn ingested(
    path: Seq<char>,
    text: Seq<char>,
    fingerprint: RolloutFingerprintModel,
    id_override: Option<Seq<char>>,
) -> Result<IngestPlanModel, PipelineFailure> {
    match parsed_rollout(text) {
        Ok(record) => ingest_plan_of(path, record, fingerprint, id_override),
        Err(e) => Err(PipelineFailure::Parse(e)),
    }
}

/// What is stored of a conversation record.
pub fn ingest_record(
    rollout_path: &str,
    record: ConversationRecord,
    fingerprint: &RolloutFingerprint,
    conversation_id_override: Option<&str>,
) -> (out: Result<IngestPlan, PipelineError>)
    ensures
        match out {
            Ok(plan) => ingest_plan_of(
                rollout_path@,
                record@,
                fingerprint@,
                conversation_id_override.deep_view(),
            ) == Ok::<IngestPlanModel, PipelineFailure>(plan@),
            Err(e) => ingest_plan_of(
                rollout_path@,
                record@,
                fingerprint@,
                conversation_id_override.deep_view(),
            ) == Err::<IngestPlanModel, PipelineFailure>(e@),
        },
{
    let stats = compute_conversation_stats(&record);
    let conversation = match conversation_row(
        rollout_path,
        &record,
        fingerprint,
        &stats,
        conversation_id_override,
    ) {
        Ok(row) => row,
        Err(e) => {
            return Err(PipelineError::Storage(e));
        },
    };
    let mut turns: Vec<TurnRow> = Vec::new();
    let mut i: usize = 0;
    while i < record.turns.len()
        invariant
            i <= record.turns@.len(),
            turns@.len() == i,
            forall|j: int| 0 <= j < i ==> (#[trigger] turns@[j])@ == turn_row_of(record.turns@[j]@),
        decreases record.turns@.len() - i,
    {
        turns.push(turn_row(&record.turns[i]));
        i = i + 1;
    }
    proof {
        assert(turns.deep_view() =~= turn_rows_of(record@.turns));
    }
    Ok(IngestPlan { record, stats, conversation, turns })
}

/// Reads a transcript and computes what is stored of it. Nothing is stored
/// of a transcript that cannot be read.
pub fn plan_ingest(
    rollout_path: &str,
    text: &str,
    fingerprint: &RolloutFingerprint,
    conversation_id_override: Option<&str>,
) -> (out: Result<IngestPlan, PipelineError>)
    ensures
        match out {
            Ok(plan) => ingested(
                rollout_path@,
                text@,
                fingerprint@,
                conversation_id_override.deep_view(),
            ) == Ok::<IngestPlanModel, PipelineFailure>(plan@) && plan@.record.well_formed(),
            Err(e) => ingested(
                rollout_path@,
                text@,
                fingerprint@,
                conversation_id_override.deep_view(),
            ) == Err::<IngestPlanModel, PipelineFailure>(e@),
        },
{
    match parse_rollout(text) {
        Ok(record) => ingest_record(rollout_path, record, fingerprint, conversation_id_override),
        Err(e) => Err(PipelineError::Parse(e)),
    }
}

/// A file whose modification time and size are those of its stored
/// fingerprint is passed over, whatever its contents; a file of another size
/// is ingested.
pub proof fn lemma_skip_follows_time_and_size(
    stored: RolloutFingerprintModel,
    modified_at: Timestamp,
    size_bytes: u64,
    other_size: u64,
)
    requires
        stored.modified_at == Some(modified_at),
        stored.size_bytes == Some(size_bytes),
        other_size != size_bytes,
    ensures
        looks_unchanged(stored, Some(modified_at), Some(size_bytes)),
        !looks_unchanged(stored, Some(modified_at), Some(other_size)),
{
}

/// The rows of the turns of a well-formed record are keyed apart: there is
/// one row for each turn, and no two turns share an index.
pub proof fn lemma_turn_rows_keyed_apart(record: ConversationModel)
    requires
        record.well_formed(),
    ensures
        turn_rows_of(record.turns).len() == record.turns.len(),
        forall|i: int, j: int|
            0 <= i < j < record.turns.len() ==> (#[trigger] record.turns[i]).index != (
            #[trigger] record.turns[j]).index,
{
}

/// What is stored of a transcript depends on its text, its path, its
/// fingerprint and the identity override alone: two ingestions of the same
/// file compute the same record and the same rows, under the same keys.
pub proof fn lemma_ingest_is_repeatable(
    path: Seq<char>,
    text: Seq<char>,
    fingerprint: RolloutFingerprintModel,
    id_override: Option<Seq<char>>,
    first: IngestPlanModel,
    second: IngestPlanModel,
)
    requires
        ingested(path, text, fingerprint, id_override) == Ok::<IngestPlanModel, PipelineFailure>(
            first,
        ),
        ingested(path, text, fingerprint, id_override) == Ok::<IngestPlanModel, PipelineFailure>(
            second,
        ),
    ensures
        first == second,
        first.conversation.conversation_id == second.conversation.conversation_id,
        first.turns == second.turns,
{
}

} // verus!
