use frankensearch::generation::{
    CommitRange, EmbedderRevision, EmbedderTierTag, GenerationManifest, LexicalArtifact,
    QuantizationFormat, RepairDescriptor, VectorArtifact,
};
use frankensearch::repair::{
    CorruptionEvent, CorruptionPolicy, DegradedReason, DetectionMethod, RepairAttempt,
    RepairOrchestrator, RepairOutcome, RepairProvider, ServiceState,
};
fn sample_manifest() -> GenerationManifest {
    let embedders = vec![(
        "fast".to_owned(),
        EmbedderRevision {
            model_name: "potion-128M".into(),
            weights_hash: "abcdef1234567890".into(),
            dimension: 256,
            quantization: QuantizationFormat::F16,
        },
    )];
    let manifest = GenerationManifest {
        schema_version: 1,
        generation_id: "gen-001".into(),
        manifest_hash: "hash-gen-001".into(),
        commit_range: CommitRange { low: 1, high: 100 },
        build_started_at: 1_700_000_000_000,
        build_completed_at: 1_700_000_060_000,
        embedders,
        vector_artifacts: vec![
            VectorArtifact {
                path: "vectors/shard_0.fsvi".into(),
                size_bytes: 1024,
                checksum: "deadbeef".into(),
                vector_count: 50,
                dimension: 256,
                embedder_tier: EmbedderTierTag::Fast,
            },
            VectorArtifact {
                path: "vectors/shard_1.fsvi".into(),
                size_bytes: 1024,
                checksum: "beefdead".into(),
                vector_count: 50,
                dimension: 256,
                embedder_tier: EmbedderTierTag::Fast,
            },
        ],
        lexical_artifacts: vec![LexicalArtifact {
            path: "lexical/segment_0".into(),
            size_bytes: 2048,
            checksum: "cafebabe".into(),
            document_count: 100,
        }],
        repair_descriptors: vec![
            RepairDescriptor {
                protected_artifact: "vectors/shard_0.fsvi".into(),
                sidecar_path: "vectors/shard_0.fsvi.fec".into(),
                source_symbols: 64,
                repair_symbols: 13,
            },
            RepairDescriptor {
                protected_artifact: "vectors/shard_1.fsvi".into(),
                sidecar_path: "vectors/shard_1.fsvi.fec".into(),
                source_symbols: 64,
                repair_symbols: 13,
            },
        ],
        activation_invariants: vec![],
        total_documents: 100,
        metadata: vec![],
    };
    manifest
}

fn corruption_event(path: &str, at: u64) -> CorruptionEvent {
    CorruptionEvent {
        artifact_path: path.into(),
        detection_method: DetectionMethod::PeriodicScan,
        detected_at: at,
        detail: format!("checksum mismatch for {path}"),
    }
}

/// Mock provider that always succeeds.
struct AlwaysSucceedProvider;

impl RepairProvider for AlwaysSucceedProvider {
    fn attempt_repair(
        &self,
        artifact_path: &str,
        _descriptor: &RepairDescriptor,
        now_millis: u64,
    ) -> RepairAttempt {
        RepairAttempt {
            artifact_path: artifact_path.into(),
            started_at: now_millis,
            completed_at: now_millis + 10,
            outcome: RepairOutcome::Success { symbols_used: 5 },
        }
    }

    fn verify_after_repair(&self, _artifact_path: &str, _expected_checksum: &str) -> bool {
        true
    }
}

/// Mock provider that always fails.
struct AlwaysFailProvider;

impl RepairProvider for AlwaysFailProvider {
    fn attempt_repair(
        &self,
        artifact_path: &str,
        _descriptor: &RepairDescriptor,
        now_millis: u64,
    ) -> RepairAttempt {
        RepairAttempt {
            artifact_path: artifact_path.into(),
            started_at: now_millis,
            completed_at: now_millis + 10,
            outcome: RepairOutcome::Failed {
                reason: "mock failure".into(),
            },
        }
    }

    fn verify_after_repair(&self, _artifact_path: &str, _expected_checksum: &str) -> bool {
        false
    }
}

#[test]
fn starts_healthy() {
    let mut orch = RepairOrchestrator::default();
    assert!(orch.state().is_healthy());
    assert!(!orch.state().is_suspended());
    assert_eq!(orch.corruption_count(), 0);
    assert_eq!(orch.repair_attempt_count(), 0);
    assert_eq!(orch.unrepaired_artifact_count(), 0);
}

#[test]
fn report_corruption_logs_event() {
    let mut orch = RepairOrchestrator::default();
    orch.report_corruption(corruption_event("vectors/shard_0.fsvi", 1000));

    assert_eq!(orch.corruption_count(), 1);
    assert_eq!(orch.unrepaired_artifact_count(), 1);

    let events = orch.corruption_events();
    assert_eq!(events[0].artifact_path, "vectors/shard_0.fsvi");
    assert_eq!(events[0].detection_method, DetectionMethod::PeriodicScan);
}

#[test]
fn single_corruption_stays_healthy() {
    let policy = CorruptionPolicy {
        max_corrupted_artifacts: 3,
        ..Default::default()
    };
    let mut orch = RepairOrchestrator::new(policy);
    orch.report_corruption(corruption_event("vectors/shard_0.fsvi", 1000));

    // 1 < threshold of 3 — should stay healthy.
    assert!(orch.state().is_healthy());
}

#[test]
fn exceeding_corruption_threshold_enters_degraded() {
    let policy = CorruptionPolicy {
        max_corrupted_artifacts: 2,
        suspension_threshold: 5,
        ..Default::default()
    };
    let mut orch = RepairOrchestrator::new(policy);

    orch.report_corruption(corruption_event("a.fsvi", 1000));
    assert!(orch.state().is_healthy());

    orch.report_corruption(corruption_event("b.fsvi", 1001));
    assert!(!orch.state().is_healthy());
    assert!(matches!(orch.state(), ServiceState::Degraded { .. }));
}

#[test]
fn exceeding_suspension_threshold_enters_suspended() {
    let policy = CorruptionPolicy {
        max_corrupted_artifacts: 2,
        suspension_threshold: 3,
        ..Default::default()
    };
    let mut orch = RepairOrchestrator::new(policy);

    orch.report_corruption(corruption_event("a.fsvi", 1000));
    orch.report_corruption(corruption_event("b.fsvi", 1001));
    orch.report_corruption(corruption_event("c.fsvi", 1002));

    assert!(orch.state().is_suspended());
}

#[test]
fn successful_repair_reduces_unrepaired_count() {
    let mut orch = RepairOrchestrator::default();
    let manifest = sample_manifest();

    orch.report_corruption(corruption_event("vectors/shard_0.fsvi", 1000));
    assert_eq!(orch.unrepaired_artifact_count(), 1);

    let provider = AlwaysSucceedProvider;
    let attempts = orch.run_repair_cycle(&manifest, &provider, 2000);

    assert_eq!(attempts.len(), 1);
    assert!(attempts[0].outcome.is_success());
    assert_eq!(orch.unrepaired_artifact_count(), 0);
}

#[test]
fn successful_repair_restores_healthy() {
    let policy = CorruptionPolicy {
        max_corrupted_artifacts: 1,
        suspension_threshold: 5,
        ..Default::default()
    };
    let mut orch = RepairOrchestrator::new(policy);
    let manifest = sample_manifest();

    orch.report_corruption(corruption_event("vectors/shard_0.fsvi", 1000));
    assert!(matches!(orch.state(), ServiceState::Degraded { .. }));

    let provider = AlwaysSucceedProvider;
    orch.run_repair_cycle(&manifest, &provider, 2000);

    assert!(orch.state().is_healthy());
}

#[test]
fn failed_repair_keeps_degraded() {
    let policy = CorruptionPolicy {
        max_corrupted_artifacts: 1,
        max_repair_attempts_per_artifact: 3,
        suspension_threshold: 5,
        ..Default::default()
    };
    let mut orch = RepairOrchestrator::new(policy);
    let manifest = sample_manifest();

    orch.report_corruption(corruption_event("vectors/shard_0.fsvi", 1000));

    let provider = AlwaysFailProvider;
    orch.run_repair_cycle(&manifest, &provider, 2000);

    assert!(!orch.state().is_healthy());
    assert_eq!(orch.unrepaired_artifact_count(), 1);
}

#[test]
fn retry_budget_exhausted() {
    let policy = CorruptionPolicy {
        max_repair_attempts_per_artifact: 2,
        ..Default::default()
    };
    let mut orch = RepairOrchestrator::new(policy);
    let manifest = sample_manifest();
    let provider = AlwaysFailProvider;

    orch.report_corruption(corruption_event("vectors/shard_0.fsvi", 1000));

    // First two attempts should proceed.
    let attempts1 = orch.run_repair_cycle(&manifest, &provider, 2000);
    assert_eq!(attempts1.len(), 1);
    let attempts2 = orch.run_repair_cycle(&manifest, &provider, 3000);
    assert_eq!(attempts2.len(), 1);

    // Third attempt should be skipped (budget exhausted).
    let attempts3 = orch.run_repair_cycle(&manifest, &provider, 4000);
    assert_eq!(attempts3.len(), 0);

    assert_eq!(orch.repair_attempt_count(), 2);
}

#[test]
fn retry_budget_resets_after_successful_repair() {
    let policy = CorruptionPolicy {
        max_repair_attempts_per_artifact: 2,
        ..Default::default()
    };
    let mut orch = RepairOrchestrator::new(policy);
    let manifest = sample_manifest();

    orch.report_corruption(corruption_event("vectors/shard_0.fsvi", 1000));
    let fail_provider = AlwaysFailProvider;
    let success_provider = AlwaysSucceedProvider;

    // First corruption: fail once, then succeed.
    assert_eq!(
        orch.run_repair_cycle(&manifest, &fail_provider, 2000).len(),
        1
    );
    assert_eq!(
        orch.run_repair_cycle(&manifest, &success_provider, 3000)
            .len(),
        1
    );
    assert_eq!(orch.unrepaired_artifact_count(), 0);

    // New corruption on same artifact should start with a fresh retry budget.
    orch.report_corruption(corruption_event("vectors/shard_0.fsvi", 4000));
    assert_eq!(
        orch.run_repair_cycle(&manifest, &fail_provider, 5000).len(),
        1
    );
    assert_eq!(
        orch.run_repair_cycle(&manifest, &fail_provider, 6000).len(),
        1
    );
    assert_eq!(
        orch.run_repair_cycle(&manifest, &fail_provider, 7000).len(),
        0
    );
}

#[test]
fn no_repair_descriptor_records_sidecar_missing() {
    let mut orch = RepairOrchestrator::default();
    let mut manifest = sample_manifest();
    manifest.repair_descriptors.clear();
    let provider = AlwaysSucceedProvider;

    orch.report_corruption(corruption_event("vectors/shard_0.fsvi", 1000));
    let attempts = orch.run_repair_cycle(&manifest, &provider, 2000);

    assert_eq!(attempts.len(), 1);
    assert!(matches!(attempts[0].outcome, RepairOutcome::SidecarMissing));
}

#[test]
fn manual_degraded_and_recovery() {
    let mut orch = RepairOrchestrator::default();

    orch.enter_degraded(
        DegradedReason::ActivationFailure {
            detail: "manifest hash mismatch".into(),
        },
        1000,
    );
    assert!(matches!(orch.state(), ServiceState::Degraded { .. }));

    // Recovery succeeds since there are no unrepaired artifacts.
    assert!(orch.try_recover(2000));
    assert!(orch.state().is_healthy());
}

#[test]
fn recovery_blocked_by_unrepaired_artifacts() {
    let mut orch = RepairOrchestrator::default();

    orch.report_corruption(corruption_event("vectors/shard_0.fsvi", 1000));
    orch.enter_degraded(
        DegradedReason::UnrepairableCorruption {
            failed_artifacts: vec!["vectors/shard_0.fsvi".into()],
        },
        1000,
    );

    assert!(!orch.try_recover(2000));
    assert!(!orch.state().is_healthy());
}

#[test]
fn suspension_cooldown_enforced() {
    let policy = CorruptionPolicy {
        cooldown_after_suspension_ms: 10_000,
        ..Default::default()
    };
    let mut orch = RepairOrchestrator::new(policy);

    orch.suspend("test suspension".into(), 1000);

    // Too early — cooldown hasn't elapsed.
    assert!(!orch.try_recover(5000));

    // After cooldown — should recover.
    assert!(orch.try_recover(11_001));
    assert!(orch.state().is_healthy());
}

#[test]
fn reset_clears_everything() {
    let policy = CorruptionPolicy {
        max_corrupted_artifacts: 1,
        suspension_threshold: 5,
        ..Default::default()
    };
    let mut orch = RepairOrchestrator::new(policy);

    orch.report_corruption(corruption_event("a.fsvi", 1000));
    assert!(!orch.state().is_healthy());

    orch.reset();

    assert!(orch.state().is_healthy());
    assert_eq!(orch.corruption_count(), 0);
    assert_eq!(orch.repair_attempt_count(), 0);
    assert_eq!(orch.unrepaired_artifact_count(), 0);
}

#[test]
fn multiple_corruptions_same_artifact_counted_once() {
    let mut orch = RepairOrchestrator::default();

    // Same artifact corrupted twice — still counts as 1 unrepaired.
    orch.report_corruption(corruption_event("vectors/shard_0.fsvi", 1000));
    orch.report_corruption(corruption_event("vectors/shard_0.fsvi", 1001));

    assert_eq!(orch.corruption_count(), 2);
    assert_eq!(orch.unrepaired_artifact_count(), 1);
}

#[test]
fn repair_cycle_handles_multiple_corrupted_artifacts() {
    let mut orch = RepairOrchestrator::default();
    let manifest = sample_manifest();
    let provider = AlwaysSucceedProvider;

    orch.report_corruption(corruption_event("vectors/shard_0.fsvi", 1000));
    orch.report_corruption(corruption_event("vectors/shard_1.fsvi", 1001));

    let attempts = orch.run_repair_cycle(&manifest, &provider, 2000);
    assert_eq!(attempts.len(), 2);
    assert!(attempts.iter().all(|a| a.outcome.is_success()));
    assert_eq!(orch.unrepaired_artifact_count(), 0);
}

#[test]
fn corruption_policy_default_is_reasonable() {
    let policy = CorruptionPolicy::default();
    assert!(policy.max_corrupted_artifacts > 0);
    assert!(policy.max_repair_attempts_per_artifact > 0);
    assert!(policy.suspension_threshold > policy.max_corrupted_artifacts);
    assert!(policy.cooldown_after_suspension_ms > 0);
}

#[test]
fn repair_after_successful_repair_clears_corruption() {
    let mut orch = RepairOrchestrator::default();
    let manifest = sample_manifest();
    let provider = AlwaysSucceedProvider;

    // Corrupt, repair, then corrupt again.
    orch.report_corruption(corruption_event("vectors/shard_0.fsvi", 1000));
    orch.run_repair_cycle(&manifest, &provider, 2000);
    assert_eq!(orch.unrepaired_artifact_count(), 0);

    // New corruption on same artifact after repair.
    orch.report_corruption(corruption_event("vectors/shard_0.fsvi", 3000));
    assert_eq!(orch.unrepaired_artifact_count(), 1);
}

// ─── bd-mxcb tests begin ───

#[test]
fn repair_outcome_is_success_for_all_variants() {
    assert!(RepairOutcome::Success { symbols_used: 1 }.is_success());
    assert!(
        !RepairOutcome::InsufficientSymbols {
            available: 1,
            required: 5
        }
        .is_success()
    );
    assert!(!RepairOutcome::SidecarMissing.is_success());
    assert!(!RepairOutcome::SidecarCorrupted.is_success());
    assert!(
        !RepairOutcome::Failed {
            reason: "test".into()
        }
        .is_success()
    );
}

#[test]
fn service_state_is_healthy_for_all_variants() {
    assert!(ServiceState::Healthy.is_healthy());
    assert!(
        !ServiceState::Degraded {
            entered_at: 0,
            reason: DegradedReason::ActivationFailure {
                detail: String::new()
            },
        }
        .is_healthy()
    );
    assert!(
        !ServiceState::Suspended {
            entered_at: 0,
            reason: String::new(),
        }
        .is_healthy()
    );
}

#[test]
fn service_state_is_suspended_for_all_variants() {
    assert!(!ServiceState::Healthy.is_suspended());
    assert!(
        !ServiceState::Degraded {
            entered_at: 0,
            reason: DegradedReason::ActivationFailure {
                detail: String::new()
            },
        }
        .is_suspended()
    );
    assert!(
        ServiceState::Suspended {
            entered_at: 0,
            reason: String::new(),
        }
        .is_suspended()
    );
}

#[test]
fn corruption_policy_debug_and_clone() {
    let policy = CorruptionPolicy::default();
    let debug_str = format!("{policy:?}");
    assert!(debug_str.contains("CorruptionPolicy"));
    let cloned = policy.clone();
    assert_eq!(policy, cloned);
}

#[test]
fn detection_method_copy() {
    let method = DetectionMethod::PeriodicScan;
    let copied = method; // Copy
    assert_eq!(method, copied);
}

#[test]
fn try_recover_when_already_healthy_returns_true() {
    let mut orch = RepairOrchestrator::default();
    assert!(orch.try_recover(1000));
    assert!(orch.state().is_healthy());
}

#[test]
fn degraded_to_suspended_transition() {
    let policy = CorruptionPolicy {
        max_corrupted_artifacts: 1,
        suspension_threshold: 3,
        ..Default::default()
    };
    let mut orch = RepairOrchestrator::new(policy);

    // First: enter degraded via single corruption
    orch.report_corruption(corruption_event("a.fsvi", 1000));
    assert!(matches!(orch.state(), ServiceState::Degraded { .. }));

    // Then: more corruptions push to suspended
    orch.report_corruption(corruption_event("b.fsvi", 1001));
    orch.report_corruption(corruption_event("c.fsvi", 1002));
    assert!(orch.state().is_suspended());
}

#[test]
fn reset_while_suspended_restores_healthy() {
    let mut orch = RepairOrchestrator::default();
    orch.suspend("emergency".into(), 1000);
    assert!(orch.state().is_suspended());

    orch.reset();
    assert!(orch.state().is_healthy());
    assert_eq!(orch.corruption_count(), 0);
    assert_eq!(orch.repair_attempt_count(), 0);
}

#[test]
fn repair_attempts_accessor_returns_history() {
    let mut orch = RepairOrchestrator::default();
    let manifest = sample_manifest();
    let provider = AlwaysSucceedProvider;

    orch.report_corruption(corruption_event("vectors/shard_0.fsvi", 1000));
    orch.run_repair_cycle(&manifest, &provider, 2000);

    let attempts = orch.repair_attempts();
    assert_eq!(attempts.len(), 1);
    assert_eq!(attempts[0].artifact_path, "vectors/shard_0.fsvi");
    assert!(attempts[0].outcome.is_success());
}

#[test]
fn default_orchestrator_uses_default_policy() {
    let mut orch = RepairOrchestrator::default();
    assert!(orch.state().is_healthy());

    // Verify default policy thresholds by testing behavior
    // Default: max_corrupted_artifacts=3, so 3 corruptions should trigger degraded
    orch.report_corruption(corruption_event("a.fsvi", 1000));
    orch.report_corruption(corruption_event("b.fsvi", 1001));
    assert!(orch.state().is_healthy()); // 2 < 3
    orch.report_corruption(corruption_event("c.fsvi", 1002));
    assert!(!orch.state().is_healthy()); // 3 >= 3 → degraded
}

#[test]
fn suspension_reason_contains_threshold() {
    let policy = CorruptionPolicy {
        max_corrupted_artifacts: 1,
        suspension_threshold: 2,
        ..Default::default()
    };
    let mut orch = RepairOrchestrator::new(policy);

    orch.report_corruption(corruption_event("a.fsvi", 1000));
    orch.report_corruption(corruption_event("b.fsvi", 1001));

    if let ServiceState::Suspended { reason, .. } = orch.state() {
        assert!(
            reason.contains('2'),
            "suspension reason should contain threshold: {reason}"
        );
    } else {
        panic!("expected Suspended state");
    }
}

#[test]
fn corruption_event_debug_and_clone() {
    let event = corruption_event("test.fsvi", 5000);
    let debug_str = format!("{event:?}");
    assert!(debug_str.contains("CorruptionEvent"));
    let cloned = event.clone();
    assert_eq!(event, cloned);
}

#[test]
fn repair_attempt_debug_and_clone() {
    let attempt = RepairAttempt {
        artifact_path: "test.fsvi".into(),
        started_at: 100,
        completed_at: 200,
        outcome: RepairOutcome::SidecarCorrupted,
    };
    let debug_str = format!("{attempt:?}");
    assert!(debug_str.contains("RepairAttempt"));
    let cloned = attempt.clone();
    assert_eq!(attempt, cloned);
}

#[test]
fn enter_degraded_overrides_current_state() {
    let mut orch = RepairOrchestrator::default();

    // Start suspended
    orch.suspend("initial".into(), 1000);
    assert!(orch.state().is_suspended());

    // Enter degraded overrides suspended
    orch.enter_degraded(
        DegradedReason::ActivationFailure {
            detail: "test".into(),
        },
        2000,
    );
    assert!(matches!(orch.state(), ServiceState::Degraded { .. }));
}

// ─── bd-mxcb tests end ───
