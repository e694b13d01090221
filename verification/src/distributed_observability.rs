//! Distributed observability for the generation lifecycle: the structured
//! lifecycle events, their names and the level each is emitted at, the
//! service state labels, and the span, field and metric names.

pub mod field_names;
pub mod metric_names;
pub mod span_names;

use vstd::prelude::*;
use crate::repair::{DegradedReason, DetectionMethod, RepairOutcome, ServiceState};

verus! {

/// Every distributed lifecycle event, with its structured data.
#[derive(Debug, Clone, PartialEq, Eq)]
pub enum DistributedEvent {
    /// A generation build process has started.
    GenerationBuildStarted { generation_id: String, commit_low: u64, commit_high: u64, started_at: u64 },
    /// A generation build process has completed.
    GenerationBuildCompleted {
        generation_id: String,
        total_documents: u64,
        vector_artifact_count: usize,
        lexical_artifact_count: usize,
        build_duration_ms: u64,
    },
    /// A generation was successfully activated for serving.
    GenerationActivationSucceeded {
        generation_id: String,
        activation_seq: u64,
        activation_duration_ms: u64,
        commit_low: u64,
        commit_high: u64,
    },
    /// A generation activation attempt failed.
    GenerationActivationFailed { generation_id: String, failure_reason: String, failed_invariant_count: usize },
    /// A repair attempt has started for an artifact.
    ArtifactRepairStarted { artifact_path: String, detection_method: DetectionMethod, attempt_number: u32 },
    /// A repair attempt completed successfully.
    ArtifactRepairCompleted { artifact_path: String, symbols_used: u32, repair_duration_ms: u64 },
    /// A repair attempt failed.
    ArtifactRepairFailed { artifact_path: String, outcome: RepairOutcome, retries_remaining: u32 },
    /// The service entered read-degraded mode.
    ReadDegradedModeEntered { entered_at: u64, reason: DegradedReason, unrepaired_count: usize },
    /// The service exited read-degraded mode (recovered to healthy).
    ReadDegradedModeExited { recovered_at: u64, degraded_duration_ms: u64 },
}

/// Machine-readable name of an event.
pub open spec fn event_name_of(e: DistributedEvent) -> Seq<char> {
    match e {
        DistributedEvent::GenerationBuildStarted { .. } => "generation_build_started"@,
        DistributedEvent::GenerationBuildCompleted { .. } => "generation_build_completed"@,
        DistributedEvent::GenerationActivationSucceeded { .. } => "generation_activation_succeeded"@,
        DistributedEvent::GenerationActivationFailed { .. } => "generation_activation_failed"@,
        DistributedEvent::ArtifactRepairStarted { .. } => "artifact_repair_started"@,
        DistributedEvent::ArtifactRepairCompleted { .. } => "artifact_repair_completed"@,
        DistributedEvent::ArtifactRepairFailed { .. } => "artifact_repair_failed"@,
        DistributedEvent::ReadDegradedModeEntered { .. } => "read_degraded_mode_entered"@,
        DistributedEvent::ReadDegradedModeExited { .. } => "read_degraded_mode_exited"@,
    }
}

impl DistributedEvent {
    /// Machine-readable event name.
    pub fn event_name(&self) -> (s: &'static str)
        ensures
            s@ == event_name_of(*self),
    {
        match self {
            DistributedEvent::GenerationBuildStarted { .. } => "generation_build_started",
            DistributedEvent::GenerationBuildCompleted { .. } => "generation_build_completed",
            DistributedEvent::GenerationActivationSucceeded { .. } => "generation_activation_succeeded",
            DistributedEvent::GenerationActivationFailed { .. } => "generation_activation_failed",
            DistributedEvent::ArtifactRepairStarted { .. } => "artifact_repair_started",
            DistributedEvent::ArtifactRepairCompleted { .. } => "artifact_repair_completed",
            DistributedEvent::ArtifactRepairFailed { .. } => "artifact_repair_failed",
            DistributedEvent::ReadDegradedModeEntered { .. } => "read_degraded_mode_entered",
            DistributedEvent::ReadDegradedModeExited { .. } => "read_degraded_mode_exited",
        }
    }
}

/// Severity at which an event is emitted.
#[derive(Debug, Clone, Copy, PartialEq, Eq, Structural)]
pub enum EventLevel {
    /// Repair starts.
    Debug,
    /// Successful operations.
    Info,
    /// Failures and degraded-mode transitions.
    Warn,
}

/// The level of an event: failures and degraded-mode entry at warn, repair
/// starts at debug, everything else at info.
pub open spec fn level_of(e: DistributedEvent) -> EventLevel {
    match e {
        DistributedEvent::GenerationActivationFailed { .. } | DistributedEvent::ArtifactRepairFailed { .. }
        | DistributedEvent::ReadDegradedModeEntered { .. } => EventLevel::Warn,
        DistributedEvent::ArtifactRepairStarted { .. } => EventLevel::Debug,
        _ => EventLevel::Info,
    }
}

/// The human-readable message an event is emitted with.
pub open spec fn message_of(e: DistributedEvent) -> Seq<char> {
    match e {
        DistributedEvent::GenerationBuildStarted { .. } => "generation build started"@,
        DistributedEvent::GenerationBuildCompleted { .. } => "generation build completed"@,
        DistributedEvent::GenerationActivationSucceeded { .. } => "generation activated successfully"@,
        DistributedEvent::GenerationActivationFailed { .. } => "generation activation failed"@,
        DistributedEvent::ArtifactRepairStarted { .. } => "artifact repair started"@,
        DistributedEvent::ArtifactRepairCompleted { .. } => "artifact repair completed"@,
        DistributedEvent::ArtifactRepairFailed { .. } => "artifact repair failed"@,
        DistributedEvent::ReadDegradedModeEntered { .. } => "entered read-degraded mode"@,
        DistributedEvent::ReadDegradedModeExited { .. } => "exited read-degraded mode"@,
    }
}

/// The tracing target every distributed event is emitted under.
pub const EVENT_TARGET: &'static str = "frankensearch::distributed";

/// How an event is emitted: level, target, name and message. The tracing
/// layer records it together with the event's own fields.
#[derive(Debug, Clone, Copy, PartialEq, Eq)]
pub struct EventEmission {
    /// Severity level.
    pub level: EventLevel,
    /// Tracing target.
    pub target: &'static str,
    /// Machine-readable event name.
    pub event_name: &'static str,
    /// Human-readable message.
    pub message: &'static str,
}

/// Decide how a distributed event is emitted: at warn for failures and
/// degraded-mode entry, at debug for repair starts, at info otherwise, under
/// the distributed target, with the event's name and message.
pub fn emit_event(event: &DistributedEvent) -> (e: EventEmission)
    ensures
        e.level == level_of(*event),
        e.target@ == EVENT_TARGET@,
        e.event_name@ == event_name_of(*event),
        e.message@ == message_of(*event),
{
    let (level, message) = match event {
        DistributedEvent::GenerationBuildStarted { .. } => (EventLevel::Info, "generation build started"),
        DistributedEvent::GenerationBuildCompleted { .. } => (EventLevel::Info, "generation build completed"),
        DistributedEvent::GenerationActivationSucceeded { .. } => (
            EventLevel::Info,
            "generation activated successfully",
        ),
        DistributedEvent::GenerationActivationFailed { .. } => (EventLevel::Warn, "generation activation failed"),
        DistributedEvent::ArtifactRepairStarted { .. } => (EventLevel::Debug, "artifact repair started"),
        DistributedEvent::ArtifactRepairCompleted { .. } => (EventLevel::Info, "artifact repair completed"),
        DistributedEvent::ArtifactRepairFailed { .. } => (EventLevel::Warn, "artifact repair failed"),
        DistributedEvent::ReadDegradedModeEntered { .. } => (EventLevel::Warn, "entered read-degraded mode"),
        DistributedEvent::ReadDegradedModeExited { .. } => (EventLevel::Info, "exited read-degraded mode"),
    };
    EventEmission { level, target: EVENT_TARGET, event_name: event.event_name(), message }
}

/// Label of a service state for metrics and tracing.
pub open spec fn state_label(s: ServiceState) -> Seq<char> {
    match s {
        ServiceState::Healthy => "healthy"@,
        ServiceState::Degraded { .. } => "degraded"@,
        ServiceState::Suspended { .. } => "suspended"@,
    }
}

/// Derive the service state label for metrics and tracing.
pub fn service_state_label(state: &ServiceState) -> (s: &'static str)
    ensures
        s@ == state_label(*state),
{
    match state {
        ServiceState::Healthy => "healthy",
        ServiceState::Degraded { .. } => "degraded",
        ServiceState::Suspended { .. } => "suspended",
    }
}

} // verus!
