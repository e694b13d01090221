//! Tracing field names for distributed events.

use vstd::prelude::*;

verus! {

/// Generation identifier (string).
pub const GENERATION_ID: &'static str = "generation_id";

/// Commit sequence number for snapshot reads.
pub const AS_OF_COMMIT_SEQ: &'static str = "as_of_commit_seq";

/// Activation sequence number (monotonic).
pub const ACTIVATION_SEQ: &'static str = "activation_seq";

/// Commit range low bound.
pub const COMMIT_LOW: &'static str = "commit_low";

/// Commit range high bound.
pub const COMMIT_HIGH: &'static str = "commit_high";

/// Artifact path (manifest-relative).
pub const ARTIFACT_PATH: &'static str = "artifact_path";

/// Number of repair symbols used.
pub const SYMBOLS_USED: &'static str = "symbols_used";

/// Total document count.
pub const TOTAL_DOCUMENTS: &'static str = "total_documents";

/// Duration in milliseconds.
pub const DURATION_MS: &'static str = "duration_ms";

/// Number of unrepaired artifacts.
pub const UNREPAIRED_COUNT: &'static str = "unrepaired_count";

/// Current service state label.
pub const SERVICE_STATE: &'static str = "service_state";

/// Failure reason (human-readable).
pub const FAILURE_REASON: &'static str = "failure_reason";

/// Node or replica identifier.
pub const NODE_ID: &'static str = "node_id";

} // verus!
