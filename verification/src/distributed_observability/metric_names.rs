//! Metric names of the `distributed.*` namespace.

use vstd::prelude::*;

verus! {

/// Lag between latest committed sequence and latest activated generation (ms).
pub const COMMIT_LAG_MS: &'static str = "distributed.commit.lag_ms";

/// Time taken to activate a new generation (ms).
pub const GENERATION_ACTIVATE_MS: &'static str = "distributed.generation.activate_ms";

/// Ratio of repaired artifacts to total artifacts.
pub const ARTIFACT_REPAIR_RATIO: &'static str = "distributed.artifact.repair_ratio";

/// Time taken to bootstrap a new node from manifest and symbols (ms).
pub const SNAPSHOT_BOOTSTRAP_MS: &'static str = "distributed.snapshot.bootstrap_ms";

/// Generation skew across nodes in a cluster (max `activation_seq` delta).
pub const QUERY_GENERATION_SKEW: &'static str = "distributed.query.generation_skew";

/// Cumulative count of failed repair attempts.
pub const REPAIR_FAILURES_TOTAL: &'static str = "distributed.repair.failures_total";

} // verus!
