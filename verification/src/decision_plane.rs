//! Evidence records emitted by the adaptive decision plane, with their event
//! types, severities and registered reason codes.

use vstd::prelude::*;

verus! {

/// Kind of an evidence event.
#[derive(Debug, Clone, Copy, PartialEq, Eq, Structural)]
pub enum EvidenceEventType {
    /// A decision was taken.
    Decision,
    /// A state transition happened.
    Transition,
    /// A marker for replaying a stream.
    ReplayMarker,
    /// The pipeline degraded.
    Degradation,
    /// An alert was raised.
    Alert,
}

/// Machine-stable label of an event type.
pub open spec fn event_type_label(t: EvidenceEventType) -> Seq<char> {
    match t {
        EvidenceEventType::Decision => "decision"@,
        EvidenceEventType::Transition => "transition"@,
        EvidenceEventType::ReplayMarker => "replay_marker"@,
        EvidenceEventType::Degradation => "degradation"@,
        EvidenceEventType::Alert => "alert"@,
    }
}

impl EvidenceEventType {
    /// Machine-stable label of the event type.
    pub fn as_str(&self) -> (s: &'static str)
        ensures
            s@ == event_type_label(*self),
    {
        match self {
            EvidenceEventType::Decision => "decision",
            EvidenceEventType::Transition => "transition",
            EvidenceEventType::ReplayMarker => "replay_marker",
            EvidenceEventType::Degradation => "degradation",
            EvidenceEventType::Alert => "alert",
        }
    }
}

/// Severity of an evidence event.
#[derive(Debug, Clone, Copy, PartialEq, Eq, Structural)]
pub enum Severity {
    /// Informational.
    Info,
    /// Warning.
    Warn,
    /// Error.
    Error,
}

/// Machine-stable label of a severity.
pub open spec fn severity_label(s: Severity) -> Seq<char> {
    match s {
        Severity::Info => "info"@,
        Severity::Warn => "warn"@,
        Severity::Error => "error"@,
    }
}

/// Rank of a severity: info < warn < error.
pub open spec fn severity_rank(s: Severity) -> int {
    match s {
        Severity::Info => 0,
        Severity::Warn => 1,
        Severity::Error => 2,
    }
}

impl Severity {
    /// Machine-stable label of the severity.
    pub fn as_str(&self) -> (s: &'static str)
        ensures
            s@ == severity_label(*self),
    {
        match self {
            Severity::Info => "info",
            Severity::Warn => "warn",
            Severity::Error => "error",
        }
    }
}

/// Coarse health state of the search pipeline when an event was recorded.
#[derive(Debug, Clone, Copy, PartialEq, Eq, Structural)]
pub enum PipelineState {
    /// Everything nominal.
    Nominal,
    /// Quality refinement is being skipped.
    Degraded,
    /// The circuit breaker is open.
    CircuitOpen,
    /// Probing whether the circuit can close.
    Probing,
}

/// A namespaced reason code, `namespace.subject.detail`.
#[derive(Debug, Clone, PartialEq, Eq)]
pub struct ReasonCode(pub String);

impl ReasonCode {
    pub const DECISION_SKIP_FAST_ONLY: &'static str = "decision.skip.fast_only";
    pub const DECISION_SKIP_CIRCUIT_OPEN: &'static str = "decision.skip.circuit_open";
    pub const DECISION_SKIP_BUDGET_EXHAUSTED: &'static str = "decision.skip.budget_exhausted";
    pub const DECISION_SKIP_HIGH_LOSS: &'static str = "decision.skip.high_loss";
    pub const DECISION_SKIP_EMPTY_QUERY: &'static str = "decision.skip.empty_query";
    pub const DECISION_REFINE_NOMINAL: &'static str = "decision.refine.nominal";
    pub const DECISION_PROBE_SENT: &'static str = "decision.probe.sent";
    pub const DECISION_PROBE_SUCCESS: &'static str = "decision.probe.success";
    pub const DECISION_PROBE_FAILURE: &'static str = "decision.probe.failure";
    pub const CIRCUIT_OPEN_FAILURES: &'static str = "circuit.open.failures";
    pub const CIRCUIT_OPEN_LATENCY: &'static str = "circuit.open.latency";
    pub const CIRCUIT_CLOSE_RECOVERY: &'static str = "circuit.close.recovery";
    pub const CALIBRATION_FALLBACK_DATA: &'static str = "calibration.fallback.insufficient_data";
    pub const CALIBRATION_FALLBACK_DRIFT: &'static str = "calibration.fallback.drift";
    pub const CALIBRATION_FALLBACK_ERROR: &'static str = "calibration.fallback.error";
    pub const CALIBRATION_FALLBACK_MODEL: &'static str = "calibration.fallback.model";
    pub const CALIBRATION_TRAINED: &'static str = "calibration.model.trained";
    pub const CALIBRATION_RESET: &'static str = "calibration.model.reset";
    pub const FUSION_BLEND_ADJUSTED: &'static str = "fusion.blend.adjusted";
    pub const FUSION_RRF_K_ADJUSTED: &'static str = "fusion.rrf_k.adjusted";
    pub const FUSION_FALLBACK_DEFAULT: &'static str = "fusion.fallback.default";
    pub const TESTING_REJECT: &'static str = "testing.decision.reject";
    pub const TESTING_CONTINUE: &'static str = "testing.decision.continue";
    pub const TESTING_RESET: &'static str = "testing.decision.reset";
    pub const CONFORMAL_VALID: &'static str = "conformal.coverage.valid";
    pub const CONFORMAL_VIOLATION: &'static str = "conformal.coverage.violation";
    pub const CONFORMAL_UPDATE: &'static str = "conformal.coverage.update";
    pub const FEEDBACK_BOOST_UPDATED: &'static str = "feedback.boost.updated";
    pub const FEEDBACK_BOOST_DECAYED: &'static str = "feedback.boost.decayed";

    /// A reason code holding `code`.
    pub fn new(code: &str) -> (r: Self)
        ensures
            r.0@ == code@,
    {
        ReasonCode(code.to_owned())
    }

    /// The code as a string slice.
    pub fn as_str(&self) -> (s: &str)
        ensures
            s@ == self.0@,
    {
        self.0.as_str()
    }
}

/// One evidence record of the decision plane.
#[derive(Debug)]
pub struct EvidenceRecord {
    /// Kind of event.
    pub event_type: EvidenceEventType,
    /// Machine-readable reason.
    pub reason_code: ReasonCode,
    /// Human-readable reason.
    pub reason_human: String,
    /// Severity of the event.
    pub severity: Severity,
    /// Pipeline state when the event was recorded.
    pub pipeline_state: PipelineState,
    /// Whether the decision recorded its expected loss vector.
    pub has_expected_loss: bool,
    /// Component that emitted the record.
    pub source_component: String,
}

} // verus!
