use frankensearch::distributed_observability::{
    emit_event, field_names, metric_names, service_state_label, span_names, DistributedEvent,
};
use frankensearch::repair::{DegradedReason, DetectionMethod, RepairOutcome, ServiceState};
#[test]
fn event_names_match_design_doc() {
    let events = [
        (
            DistributedEvent::GenerationBuildStarted {
                generation_id: "g1".into(),
                commit_low: 1,
                commit_high: 100,
                started_at: 1000,
            },
            "generation_build_started",
        ),
        (
            DistributedEvent::GenerationBuildCompleted {
                generation_id: "g1".into(),
                total_documents: 100,
                vector_artifact_count: 2,
                lexical_artifact_count: 1,
                build_duration_ms: 5000,
            },
            "generation_build_completed",
        ),
        (
            DistributedEvent::GenerationActivationSucceeded {
                generation_id: "g1".into(),
                activation_seq: 1,
                activation_duration_ms: 50,
                commit_low: 1,
                commit_high: 100,
            },
            "generation_activation_succeeded",
        ),
        (
            DistributedEvent::GenerationActivationFailed {
                generation_id: "g1".into(),
                failure_reason: "invariant failed".into(),
                failed_invariant_count: 2,
            },
            "generation_activation_failed",
        ),
        (
            DistributedEvent::ArtifactRepairStarted {
                artifact_path: "v.fsvi".into(),
                detection_method: DetectionMethod::PeriodicScan,
                attempt_number: 1,
            },
            "artifact_repair_started",
        ),
        (
            DistributedEvent::ArtifactRepairCompleted {
                artifact_path: "v.fsvi".into(),
                symbols_used: 5,
                repair_duration_ms: 200,
            },
            "artifact_repair_completed",
        ),
        (
            DistributedEvent::ArtifactRepairFailed {
                artifact_path: "v.fsvi".into(),
                outcome: RepairOutcome::SidecarMissing,
                retries_remaining: 2,
            },
            "artifact_repair_failed",
        ),
        (
            DistributedEvent::ReadDegradedModeEntered {
                entered_at: 1000,
                reason: DegradedReason::ActivationFailure {
                    detail: "test".into(),
                },
                unrepaired_count: 3,
            },
            "read_degraded_mode_entered",
        ),
        (
            DistributedEvent::ReadDegradedModeExited {
                recovered_at: 2000,
                degraded_duration_ms: 1000,
            },
            "read_degraded_mode_exited",
        ),
    ];

    for (event, expected_name) in &events {
        assert_eq!(event.event_name(), *expected_name);
    }
}

#[test]
fn all_nine_event_types_defined() {
    // Verify we cover all 9 events from design doc Section 9.
    let event_names = [
        "generation_build_started",
        "generation_build_completed",
        "generation_activation_succeeded",
        "generation_activation_failed",
        "artifact_repair_started",
        "artifact_repair_completed",
        "artifact_repair_failed",
        "read_degraded_mode_entered",
        "read_degraded_mode_exited",
    ];
    assert_eq!(event_names.len(), 9);
}

#[test]
fn all_six_metrics_defined() {
    // Verify we cover all 6 metrics from design doc Section 9.
    let metrics = [
        metric_names::COMMIT_LAG_MS,
        metric_names::GENERATION_ACTIVATE_MS,
        metric_names::ARTIFACT_REPAIR_RATIO,
        metric_names::SNAPSHOT_BOOTSTRAP_MS,
        metric_names::QUERY_GENERATION_SKEW,
        metric_names::REPAIR_FAILURES_TOTAL,
    ];
    assert_eq!(metrics.len(), 6);
    for metric in &metrics {
        assert!(metric.starts_with("distributed."));
    }
}

#[test]
fn metric_names_match_design_doc() {
    assert_eq!(metric_names::COMMIT_LAG_MS, "distributed.commit.lag_ms");
    assert_eq!(
        metric_names::GENERATION_ACTIVATE_MS,
        "distributed.generation.activate_ms"
    );
    assert_eq!(
        metric_names::ARTIFACT_REPAIR_RATIO,
        "distributed.artifact.repair_ratio"
    );
    assert_eq!(
        metric_names::SNAPSHOT_BOOTSTRAP_MS,
        "distributed.snapshot.bootstrap_ms"
    );
    assert_eq!(
        metric_names::QUERY_GENERATION_SKEW,
        "distributed.query.generation_skew"
    );
    assert_eq!(
        metric_names::REPAIR_FAILURES_TOTAL,
        "distributed.repair.failures_total"
    );
}

#[test]
fn service_state_labels() {
    assert_eq!(service_state_label(&ServiceState::Healthy), "healthy");
    assert_eq!(
        service_state_label(&ServiceState::Degraded {
            entered_at: 0,
            reason: DegradedReason::ActivationFailure {
                detail: String::new()
            },
        }),
        "degraded"
    );
    assert_eq!(
        service_state_label(&ServiceState::Suspended {
            entered_at: 0,
            reason: String::new(),
        }),
        "suspended"
    );
}

#[test]
fn emit_event_does_not_panic() {
    // Verify all event variants can be emitted without panicking.
    // (No subscriber installed, so events are silently dropped.)
    let events = vec![
        DistributedEvent::GenerationBuildStarted {
            generation_id: "g1".into(),
            commit_low: 1,
            commit_high: 100,
            started_at: 1000,
        },
        DistributedEvent::GenerationBuildCompleted {
            generation_id: "g1".into(),
            total_documents: 100,
            vector_artifact_count: 2,
            lexical_artifact_count: 1,
            build_duration_ms: 5000,
        },
        DistributedEvent::GenerationActivationSucceeded {
            generation_id: "g1".into(),
            activation_seq: 1,
            activation_duration_ms: 50,
            commit_low: 1,
            commit_high: 100,
        },
        DistributedEvent::GenerationActivationFailed {
            generation_id: "g1".into(),
            failure_reason: "test".into(),
            failed_invariant_count: 1,
        },
        DistributedEvent::ArtifactRepairStarted {
            artifact_path: "v.fsvi".into(),
            detection_method: DetectionMethod::ChecksumMismatch,
            attempt_number: 1,
        },
        DistributedEvent::ArtifactRepairCompleted {
            artifact_path: "v.fsvi".into(),
            symbols_used: 5,
            repair_duration_ms: 200,
        },
        DistributedEvent::ArtifactRepairFailed {
            artifact_path: "v.fsvi".into(),
            outcome: RepairOutcome::Failed {
                reason: "disk".into(),
            },
            retries_remaining: 0,
        },
        DistributedEvent::ReadDegradedModeEntered {
            entered_at: 1000,
            reason: DegradedReason::ExcessiveCorruptionRate {
                event_count: 5,
                threshold: 3,
            },
            unrepaired_count: 5,
        },
        DistributedEvent::ReadDegradedModeExited {
            recovered_at: 2000,
            degraded_duration_ms: 1000,
        },
    ];
    for event in &events {
        emit_event(event);
    }
}

#[test]
fn span_names_follow_convention() {
    let spans = [
        span_names::GENERATION_LIFECYCLE,
        span_names::ARTIFACT_ENCODE,
        span_names::ARTIFACT_TRANSFER,
        span_names::ARTIFACT_DECODE,
        span_names::ARTIFACT_VERIFY,
        span_names::GENERATION_ACTIVATE,
        span_names::REPAIR_CYCLE,
        span_names::ARTIFACT_REPAIR,
        span_names::BOOTSTRAP,
    ];
    for span in &spans {
        assert!(
            span.starts_with("frankensearch::"),
            "span '{span}' should start with 'frankensearch::'"
        );
    }
}

#[test]
fn field_names_are_non_empty() {
    let fields = [
        field_names::GENERATION_ID,
        field_names::AS_OF_COMMIT_SEQ,
        field_names::ACTIVATION_SEQ,
        field_names::COMMIT_LOW,
        field_names::COMMIT_HIGH,
        field_names::ARTIFACT_PATH,
        field_names::SYMBOLS_USED,
        field_names::TOTAL_DOCUMENTS,
        field_names::DURATION_MS,
        field_names::UNREPAIRED_COUNT,
        field_names::SERVICE_STATE,
        field_names::FAILURE_REASON,
        field_names::NODE_ID,
    ];
    for field in &fields {
        assert!(!field.is_empty());
    }
}

#[test]
fn distributed_event_debug() {
    let event = DistributedEvent::GenerationBuildStarted {
        generation_id: "g1".into(),
        commit_low: 1,
        commit_high: 100,
        started_at: 1000,
    };
    let debug_str = format!("{event:?}");
    assert!(debug_str.contains("GenerationBuildStarted"));
    assert!(debug_str.contains("g1"));
}

#[test]
fn distributed_event_clone_produces_equal() {
    let event = DistributedEvent::ArtifactRepairCompleted {
        artifact_path: "vector.fsvi".into(),
        symbols_used: 12,
        repair_duration_ms: 450,
    };
    let cloned = event.clone();
    assert_eq!(event, cloned);
}

#[test]
fn distributed_event_equality_and_inequality() {
    let a = DistributedEvent::GenerationActivationSucceeded {
        generation_id: "g1".into(),
        activation_seq: 1,
        activation_duration_ms: 50,
        commit_low: 1,
        commit_high: 100,
    };
    let b = DistributedEvent::GenerationActivationSucceeded {
        generation_id: "g1".into(),
        activation_seq: 1,
        activation_duration_ms: 50,
        commit_low: 1,
        commit_high: 100,
    };
    let c = DistributedEvent::GenerationActivationSucceeded {
        generation_id: "g2".into(),
        activation_seq: 2,
        activation_duration_ms: 50,
        commit_low: 1,
        commit_high: 200,
    };
    assert_eq!(a, b);
    assert_ne!(a, c);
}

#[test]
fn distributed_event_different_variants_are_not_equal() {
    let build = DistributedEvent::GenerationBuildStarted {
        generation_id: "g1".into(),
        commit_low: 1,
        commit_high: 100,
        started_at: 1000,
    };
    let complete = DistributedEvent::GenerationBuildCompleted {
        generation_id: "g1".into(),
        total_documents: 100,
        vector_artifact_count: 2,
        lexical_artifact_count: 1,
        build_duration_ms: 5000,
    };
    assert_ne!(build, complete);
}

#[test]
fn field_name_values_match_expected() {
    assert_eq!(field_names::GENERATION_ID, "generation_id");
    assert_eq!(field_names::AS_OF_COMMIT_SEQ, "as_of_commit_seq");
    assert_eq!(field_names::ACTIVATION_SEQ, "activation_seq");
    assert_eq!(field_names::COMMIT_LOW, "commit_low");
    assert_eq!(field_names::COMMIT_HIGH, "commit_high");
    assert_eq!(field_names::ARTIFACT_PATH, "artifact_path");
    assert_eq!(field_names::SYMBOLS_USED, "symbols_used");
    assert_eq!(field_names::TOTAL_DOCUMENTS, "total_documents");
    assert_eq!(field_names::DURATION_MS, "duration_ms");
    assert_eq!(field_names::UNREPAIRED_COUNT, "unrepaired_count");
    assert_eq!(field_names::SERVICE_STATE, "service_state");
    assert_eq!(field_names::FAILURE_REASON, "failure_reason");
    assert_eq!(field_names::NODE_ID, "node_id");
}

#[test]
fn span_names_count_is_nine() {
    let spans = [
        span_names::GENERATION_LIFECYCLE,
        span_names::ARTIFACT_ENCODE,
        span_names::ARTIFACT_TRANSFER,
        span_names::ARTIFACT_DECODE,
        span_names::ARTIFACT_VERIFY,
        span_names::GENERATION_ACTIVATE,
        span_names::REPAIR_CYCLE,
        span_names::ARTIFACT_REPAIR,
        span_names::BOOTSTRAP,
    ];
    assert_eq!(spans.len(), 9);
}

#[test]
fn service_state_label_degraded_variants() {
    // UnrepairableCorruption
    assert_eq!(
        service_state_label(&ServiceState::Degraded {
            entered_at: 100,
            reason: DegradedReason::UnrepairableCorruption {
                failed_artifacts: vec!["a.fsvi".into()],
            },
        }),
        "degraded"
    );
    // ExcessiveCorruptionRate
    assert_eq!(
        service_state_label(&ServiceState::Degraded {
            entered_at: 200,
            reason: DegradedReason::ExcessiveCorruptionRate {
                event_count: 10,
                threshold: 5,
            },
        }),
        "degraded"
    );
}
