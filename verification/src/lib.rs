//! Reads transcripts of agent sessions into conversation records, derives
//! what is stored and searched of them, and ranks stored turns against a
//! query.

pub mod builder;
pub mod embedding;
pub mod extractor;
pub mod json;
pub mod pipeline;
pub mod search;
pub mod stats;
pub mod storage;
pub mod summary;
pub mod text;
pub mod text_set;
pub mod timestamp;
pub mod types;
pub mod views;

pub use builder::{ActionRecordBuilder, ConversationBuilder, TurnBuilder};
pub use embedding::{EmbeddingError, EmbeddingModelConfig};
pub use extractor::{parse_rollout, ParseError};
pub use json::{JsonNumber, JsonValue};
pub use pipeline::{
    plan_ingest, EmbedPlan, EmbedStep, IngestPlan, PipelineError, UpdateDecision, UpdateStats,
};
pub use search::{
    plan_search, rank_results, SearchError, SearchParams, SearchPlan, SearchQuery, SearchResult,
};
pub use stats::compute_conversation_stats;
pub use storage::{
    ConversationRow, ConversationStats, RolloutFingerprint, StorageError, TurnRow,
};
pub use summary::render_turn_summary;
pub use timestamp::Timestamp;
pub use types::{
    ActionEvent, ActionKind, ActionOutput, ActionRecord, ActionStatus, ConversationRecord,
    FallbackSource, FallbackSummary, Timed, TokenUsageBreakdown, TokenUsageSummary,
    TurnContextInfo, TurnRecord, TurnResult, TurnTelemetry, UserInputRecord,
};
