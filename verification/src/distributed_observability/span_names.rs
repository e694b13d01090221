//! Tracing span names for the distributed generation lifecycle.

use vstd::prelude::*;

verus! {

/// Root span for a full generation lifecycle (build, transfer, verify, activate).
pub const GENERATION_LIFECYCLE: &'static str = "frankensearch::generation_lifecycle";

/// Child span for artifact encoding (symbol generation).
pub const ARTIFACT_ENCODE: &'static str = "frankensearch::artifact_encode";

/// Child span for artifact transfer to replica.
pub const ARTIFACT_TRANSFER: &'static str = "frankensearch::artifact_transfer";

/// Child span for artifact decoding on replica.
pub const ARTIFACT_DECODE: &'static str = "frankensearch::artifact_decode";

/// Child span for artifact verification (checksum and invariant checks).
pub const ARTIFACT_VERIFY: &'static str = "frankensearch::artifact_verify";

/// Child span for generation activation (pointer swap).
pub const GENERATION_ACTIVATE: &'static str = "frankensearch::generation_activate";

/// Root span for a repair cycle.
pub const REPAIR_CYCLE: &'static str = "frankensearch::repair_cycle";

/// Child span for a single artifact repair attempt.
pub const ARTIFACT_REPAIR: &'static str = "frankensearch::artifact_repair";

/// Root span for bootstrap (new node catch-up).
pub const BOOTSTRAP: &'static str = "frankensearch::bootstrap";

} // verus!
