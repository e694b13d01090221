use std::sync::Arc;

use frankensearch::activation::{
    activation_error, check_invariants, ActiveGeneration, ArtifactVerification, ArtifactVerifier,
    GenerationController, InvariantCheck, SearchError,
};
use frankensearch::generation::{
    ActivationInvariant, CommitRange, EmbedderRevision, EmbedderTierTag, GenerationManifest,
    validate_manifest, InvariantKind, LexicalArtifact, QuantizationFormat, RepairDescriptor,
    VectorArtifact,
};
fn sample_embedder() -> EmbedderRevision {
    EmbedderRevision {
        model_name: "potion-128M".into(),
        weights_hash: "abcdef1234567890".into(),
        dimension: 256,
        quantization: QuantizationFormat::F16,
    }
}

/// Test verifier that always passes.
struct AlwaysPassVerifier {
    base_dir: String,
    runtime_embedders: Vec<(String, EmbedderRevision)>,
}

impl AlwaysPassVerifier {
    fn new(base: &str) -> Self {
        let runtime_embedders = vec![("fast".to_owned(), sample_embedder())];
        Self {
            base_dir: base.into(),
            runtime_embedders,
        }
    }
}

impl ArtifactVerifier for AlwaysPassVerifier {
    fn verify(
        &self,
        manifest_path: &str,
        _checksum: &str,
        _expected_size: u64,
    ) -> ArtifactVerification {
        ArtifactVerification {
            path: manifest_path.into(),
            passed: true,
            detail: "mock: always passes".into(),
        }
    }

    fn resolve_path(&self, manifest_path: &str) -> String {
        format!("{}/{manifest_path}", self.base_dir)
    }

    fn runtime_embedder(&self, tier: &str) -> Option<EmbedderRevision> {
        self.runtime_embedders
            .iter()
            .find(|(k, _)| k == tier)
            .map(|(_, v)| v.clone())
    }
}

/// Test verifier that fails specific paths.
struct FailingVerifier {
    fail_paths: Vec<String>,
}

impl ArtifactVerifier for FailingVerifier {
    fn verify(
        &self,
        manifest_path: &str,
        _checksum: &str,
        _expected_size: u64,
    ) -> ArtifactVerification {
        let passed = !self.fail_paths.iter().any(|p| p == manifest_path);
        ArtifactVerification {
            path: manifest_path.into(),
            passed,
            detail: if passed {
                "ok".into()
            } else {
                "checksum mismatch".into()
            },
        }
    }

    fn resolve_path(&self, manifest_path: &str) -> String {
        format!("/data/{manifest_path}")
    }
}

struct CustomHookVerifier {
    base: AlwaysPassVerifier,
    allowed_check: String,
}

impl CustomHookVerifier {
    fn new(base_dir: &str, allowed_check: &str) -> Self {
        Self {
            base: AlwaysPassVerifier::new(base_dir),
            allowed_check: allowed_check.to_owned(),
        }
    }
}

impl ArtifactVerifier for CustomHookVerifier {
    fn verify(
        &self,
        manifest_path: &str,
        checksum: &str,
        expected_size: u64,
    ) -> ArtifactVerification {
        self.base.verify(manifest_path, checksum, expected_size)
    }

    fn resolve_path(&self, manifest_path: &str) -> String {
        self.base.resolve_path(manifest_path)
    }

    fn runtime_embedder(&self, tier: &str) -> Option<EmbedderRevision> {
        self.base.runtime_embedder(tier)
    }

    fn check_custom_invariant(
        &self,
        check_name: &str,
        _manifest: &GenerationManifest,
        _previous: Option<&ActiveGeneration>,
    ) -> Option<(bool, String)> {
        Some((
            check_name == self.allowed_check,
            format!("custom check '{check_name}' evaluated by test verifier"),
        ))
    }
}

fn sample_manifest() -> GenerationManifest {
    let embedders = vec![("fast".to_owned(), sample_embedder())];

    let manifest = GenerationManifest {
        schema_version: 1,
        generation_id: "gen-001".into(),
        manifest_hash: "hash-gen".into(),
        commit_range: CommitRange { low: 1, high: 100 },
        build_started_at: 1_700_000_000_000,
        build_completed_at: 1_700_000_060_000,
        embedders,
        vector_artifacts: vec![VectorArtifact {
            path: "vectors/shard_0.fsvi".into(),
            size_bytes: 1024,
            checksum: "deadbeef".into(),
            vector_count: 100,
            dimension: 256,
            embedder_tier: EmbedderTierTag::Fast,
        }],
        lexical_artifacts: vec![LexicalArtifact {
            path: "lexical/segment_0".into(),
            size_bytes: 2048,
            checksum: "cafebabe".into(),
            document_count: 100,
        }],
        repair_descriptors: vec![RepairDescriptor {
            protected_artifact: "vectors/shard_0.fsvi".into(),
            sidecar_path: "vectors/shard_0.fsvi.fec".into(),
            source_symbols: 64,
            repair_symbols: 13,
        }],
        activation_invariants: vec![ActivationInvariant {
            id: "all_artifacts".into(),
            description: "All artifacts verified".into(),
            kind: InvariantKind::AllArtifactsVerified,
        }],
        total_documents: 100,
        metadata: vec![],
    };
    manifest
}

#[test]
fn controller_starts_degraded() {
    let mut ctrl = GenerationController::new();
    assert!(ctrl.is_degraded());
    assert!(ctrl.active().is_none());
    assert_eq!(ctrl.activation_seq(), 0);
}

#[test]
fn successful_activation() {
    let mut ctrl = GenerationController::new();
    let verifier = AlwaysPassVerifier::new("/data/gen");
    let manifest = sample_manifest();

    let active_gen = ctrl
        .activate(manifest, &verifier, 1_700_000_100_000)
        .unwrap();
    assert_eq!(active_gen.activation_seq, 1);
    assert_eq!(active_gen.manifest.generation_id, "gen-001");
    assert!(!ctrl.is_degraded());
    assert_eq!(ctrl.activation_seq(), 1);

    // Resolved paths should include base dir.
    assert_eq!(
        active_gen.vector_path("vectors/shard_0.fsvi").unwrap(),
        "/data/gen/vectors/shard_0.fsvi"
    );
}

#[test]
fn activation_increments_seq() {
    let mut ctrl = GenerationController::new();
    let verifier = AlwaysPassVerifier::new("/data");

    let mut m1 = sample_manifest();
    m1.generation_id = "gen-001".into();
    m1.manifest_hash = format!("hash-{}", m1.generation_id);
    ctrl.activate(m1, &verifier, 100).unwrap();
    assert_eq!(ctrl.activation_seq(), 1);

    let mut m2 = sample_manifest();
    m2.generation_id = "gen-002".into();
    m2.manifest_hash = format!("hash-{}", m2.generation_id);
    ctrl.activate(m2, &verifier, 200).unwrap();
    assert_eq!(ctrl.activation_seq(), 2);

    let active = ctrl.active().unwrap();
    assert_eq!(active.manifest.generation_id, "gen-002");
}

#[test]
fn invalid_manifest_rejected() {
    let mut ctrl = GenerationController::new();
    let verifier = AlwaysPassVerifier::new("/data");

    let mut bad = sample_manifest();
    bad.generation_id = String::new(); // Invalid.
    let err = ctrl.activate(bad, &verifier, 100).unwrap_err();
    assert!(matches!(err, SearchError::InvalidConfig { .. }));
    assert!(ctrl.is_degraded()); // No activation happened.
}

#[test]
fn artifact_verification_failure_blocks_activation() {
    let mut ctrl = GenerationController::new();
    let verifier = FailingVerifier {
        fail_paths: vec!["vectors/shard_0.fsvi".into()],
    };
    let manifest = sample_manifest();

    let err = ctrl.activate(manifest, &verifier, 100).unwrap_err();
    assert!(matches!(err, SearchError::SubsystemError { .. }));
    assert!(ctrl.is_degraded());
}

#[test]
fn rollback_restores_previous() {
    let mut ctrl = GenerationController::new();
    let verifier = AlwaysPassVerifier::new("/data");

    // Activate gen-001.
    let mut m1 = sample_manifest();
    m1.generation_id = "gen-001".into();
    m1.manifest_hash = format!("hash-{}", m1.generation_id);
    ctrl.activate(m1, &verifier, 100).unwrap();

    // Activate gen-002.
    let mut m2 = sample_manifest();
    m2.generation_id = "gen-002".into();
    m2.manifest_hash = format!("hash-{}", m2.generation_id);
    ctrl.activate(m2, &verifier, 200).unwrap();
    assert_eq!(ctrl.active().unwrap().manifest.generation_id, "gen-002");

    // Rollback to gen-001.
    assert!(ctrl.rollback());
    assert_eq!(ctrl.active().unwrap().manifest.generation_id, "gen-001");
    assert!(
        !ctrl.rollback(),
        "rollback slot should be consumed after a successful rollback"
    );
}

#[test]
fn rollback_with_no_previous_returns_false() {
    let mut ctrl = GenerationController::new();
    assert!(!ctrl.rollback());
}

#[test]
fn failed_activation_preserves_current() {
    let mut ctrl = GenerationController::new();
    let good_verifier = AlwaysPassVerifier::new("/data");
    let bad_verifier = FailingVerifier {
        fail_paths: vec!["vectors/shard_0.fsvi".into()],
    };

    // First successful activation.
    let m1 = sample_manifest();
    ctrl.activate(m1, &good_verifier, 100).unwrap();
    assert_eq!(ctrl.active().unwrap().manifest.generation_id, "gen-001");

    // Second activation fails — gen-001 should still be active.
    let mut m2 = sample_manifest();
    m2.generation_id = "gen-002".into();
    assert!(ctrl.activate(m2, &bad_verifier, 200).is_err());
    assert_eq!(ctrl.active().unwrap().manifest.generation_id, "gen-001");
}

#[test]
fn invariant_all_artifacts_pass() {
    let manifest = sample_manifest();
    let verifier = AlwaysPassVerifier::new("/data");
    let checks = check_invariants(&manifest, &verifier, None);
    assert!(checks.iter().all(|c| c.passed));
}

#[test]
fn invariant_all_artifacts_fail() {
    let manifest = sample_manifest();
    let verifier = FailingVerifier {
        fail_paths: vec!["vectors/shard_0.fsvi".into()],
    };
    let checks = check_invariants(&manifest, &verifier, None);
    assert!(checks.iter().any(|c| !c.passed));
}

#[test]
fn invariant_vector_count_consistency() {
    let mut manifest = sample_manifest();
    manifest.activation_invariants = vec![ActivationInvariant {
        id: "vec_count".into(),
        description: "Vector count check".into(),
        kind: InvariantKind::VectorCountConsistency {
            expected_total: 100,
        },
    }];
    let verifier = AlwaysPassVerifier::new("/data");

    // Should pass: 100 vectors = 100 expected.
    let checks = check_invariants(&manifest, &verifier, None);
    assert!(checks[0].passed);

    // Should fail: expect 200 but only have 100.
    manifest.activation_invariants[0].kind = InvariantKind::VectorCountConsistency {
        expected_total: 200,
    };
    let checks = check_invariants(&manifest, &verifier, None);
    assert!(!checks[0].passed);
}

#[test]
fn invariant_commit_continuity() {
    let mut manifest = sample_manifest();
    manifest.commit_range = CommitRange { low: 51, high: 100 };
    manifest.activation_invariants = vec![ActivationInvariant {
        id: "continuity".into(),
        description: "Commit continuity".into(),
        kind: InvariantKind::CommitContinuity { previous_high: 50 },
    }];
    let verifier = AlwaysPassVerifier::new("/data");

    // No previous generation: always passes.
    let checks = check_invariants(&manifest, &verifier, None);
    assert!(checks[0].passed);

    // Previous with matching high: passes.
    let mut prev_manifest = sample_manifest();
    prev_manifest.commit_range = CommitRange { low: 1, high: 50 };
    let prev = ActiveGeneration {
        manifest: prev_manifest,
        activation_seq: 1,
        activated_at: 100,
        vector_paths: vec![],
        lexical_paths: vec![],
    };
    let checks = check_invariants(&manifest, &verifier, Some(&prev));
    assert!(checks[0].passed);

    // Previous with different high: fails.
    let mut prev2 = prev.clone();
    prev2.manifest.commit_range.high = 49;
    let checks = check_invariants(&manifest, &verifier, Some(&prev2));
    assert!(!checks[0].passed);

    // Previous high matches but current low is not contiguous: fails.
    let mut non_contiguous = manifest;
    non_contiguous.commit_range = CommitRange { low: 60, high: 100 };
    let checks = check_invariants(&non_contiguous, &verifier, Some(&prev));
    assert!(!checks[0].passed);
}

#[test]
fn invariant_custom_fails_without_verifier_hook() {
    let mut manifest = sample_manifest();
    manifest.activation_invariants = vec![ActivationInvariant {
        id: "custom_1".into(),
        description: "Custom check".into(),
        kind: InvariantKind::Custom {
            check_name: "my_check".into(),
        },
    }];
    let verifier = AlwaysPassVerifier::new("/data");
    let checks = check_invariants(&manifest, &verifier, None);
    assert!(!checks[0].passed);
    assert!(checks[0].reason.contains("not implemented"));
}

#[test]
fn invariant_custom_uses_verifier_hook() {
    let mut manifest = sample_manifest();
    manifest.activation_invariants = vec![ActivationInvariant {
        id: "custom_1".into(),
        description: "Custom check".into(),
        kind: InvariantKind::Custom {
            check_name: "my_check".into(),
        },
    }];
    let verifier = CustomHookVerifier::new("/data", "my_check");
    let checks = check_invariants(&manifest, &verifier, None);
    assert!(checks[0].passed);
    assert!(checks[0].reason.contains("evaluated by test verifier"));
}

#[test]
fn default_controller_is_degraded() {
    let mut ctrl = GenerationController::default();
    assert!(ctrl.is_degraded());
}

#[test]
fn multiple_invariants_all_checked() {
    let mut manifest = sample_manifest();
    manifest.activation_invariants = vec![
        ActivationInvariant {
            id: "inv_1".into(),
            description: "Check 1".into(),
            kind: InvariantKind::AllArtifactsVerified,
        },
        ActivationInvariant {
            id: "inv_2".into(),
            description: "Check 2".into(),
            kind: InvariantKind::EmbedderRevisionMatch,
        },
        ActivationInvariant {
            id: "inv_3".into(),
            description: "Check 3".into(),
            kind: InvariantKind::VectorCountConsistency {
                expected_total: 100,
            },
        },
    ];
    let verifier = AlwaysPassVerifier::new("/data");
    let checks = check_invariants(&manifest, &verifier, None);
    assert_eq!(checks.len(), 3);
    assert!(checks.iter().all(|c| c.passed));
}

// ─── bd-2cz8 tests begin ───

#[test]
fn artifact_verification_debug_clone_eq() {
    let v = ArtifactVerification {
        path: "a.fsvi".into(),
        passed: true,
        detail: "ok".into(),
    };
    let v2 = v.clone();
    assert_eq!(v, v2);
    assert_eq!(format!("{v:?}"), format!("{v2:?}"));
}

#[test]
fn artifact_verification_not_equal_different_passed() {
    let v1 = ArtifactVerification {
        path: "a.fsvi".into(),
        passed: true,
        detail: "ok".into(),
    };
    let v2 = ArtifactVerification {
        path: "a.fsvi".into(),
        passed: false,
        detail: "ok".into(),
    };
    assert_ne!(v1, v2);
}

#[test]
fn invariant_check_debug_clone_eq() {
    let c = InvariantCheck {
        invariant_id: "inv_1".into(),
        passed: true,
        reason: "ok".into(),
    };
    let c2 = c.clone();
    assert_eq!(c, c2);
    assert_eq!(format!("{c:?}"), format!("{c2:?}"));
}

#[test]
fn invariant_check_not_equal_different_reason() {
    let c1 = InvariantCheck {
        invariant_id: "inv_1".into(),
        passed: true,
        reason: "ok".into(),
    };
    let c2 = InvariantCheck {
        invariant_id: "inv_1".into(),
        passed: true,
        reason: "different".into(),
    };
    assert_ne!(c1, c2);
}

#[test]
fn active_generation_debug_clone() {
    let ag = ActiveGeneration {
        manifest: sample_manifest(),
        activation_seq: 1,
        activated_at: 100,
        vector_paths: vec![],
        lexical_paths: vec![],
    };
    let ag2 = ag.clone();
    assert_eq!(ag.activation_seq, ag2.activation_seq);
    assert_eq!(ag.activated_at, ag2.activated_at);
    assert_eq!(ag.manifest.generation_id, ag2.manifest.generation_id);
    let dbg = format!("{ag:?}");
    assert!(dbg.contains("ActiveGeneration"));
}

#[test]
fn embedder_revision_mismatch_fails() {
    let mut manifest = sample_manifest();
    manifest.activation_invariants = vec![ActivationInvariant {
        id: "emb_rev".into(),
        description: "Embedder revision match".into(),
        kind: InvariantKind::EmbedderRevisionMatch,
    }];
    // Use a verifier whose runtime embedder has different model name.
    let mut verifier = AlwaysPassVerifier::new("/data");
    verifier.runtime_embedders = vec![(
        "fast".to_owned(),
        EmbedderRevision {
            model_name: "different-model".into(),
            weights_hash: "abcdef1234567890".into(),
            dimension: 256,
            quantization: QuantizationFormat::F16,
        },
    )];
    let checks = check_invariants(&manifest, &verifier, None);
    assert_eq!(checks.len(), 1);
    assert!(!checks[0].passed);
    assert!(checks[0].reason.contains("mismatch"));
}

#[test]
fn embedder_revision_match_passes() {
    let mut manifest = sample_manifest();
    manifest.activation_invariants = vec![ActivationInvariant {
        id: "emb_rev".into(),
        description: "Embedder revision match".into(),
        kind: InvariantKind::EmbedderRevisionMatch,
    }];
    let verifier = AlwaysPassVerifier::new("/data");
    let checks = check_invariants(&manifest, &verifier, None);
    assert_eq!(checks.len(), 1);
    assert!(checks[0].passed);
    assert!(checks[0].reason.contains("match manifest"));
}

#[test]
fn embedder_revision_missing_runtime_fails() {
    let mut manifest = sample_manifest();
    manifest.activation_invariants = vec![ActivationInvariant {
        id: "emb_rev".into(),
        description: "Embedder revision match".into(),
        kind: InvariantKind::EmbedderRevisionMatch,
    }];
    // Use a verifier with no runtime embedders.
    let mut verifier = AlwaysPassVerifier::new("/data");
    verifier.runtime_embedders.clear();
    let checks = check_invariants(&manifest, &verifier, None);
    assert!(!checks[0].passed);
    assert!(checks[0].reason.contains("missing"));
}

#[test]
fn custom_invariant_failing_check_name() {
    let mut manifest = sample_manifest();
    manifest.activation_invariants = vec![ActivationInvariant {
        id: "custom_fail".into(),
        description: "Custom check".into(),
        kind: InvariantKind::Custom {
            check_name: "wrong_check".into(),
        },
    }];
    // CustomHookVerifier only passes "my_check", so "wrong_check" should fail.
    let verifier = CustomHookVerifier::new("/data", "my_check");
    let checks = check_invariants(&manifest, &verifier, None);
    assert!(!checks[0].passed);
}

#[test]
fn lexical_artifact_verification_failure() {
    let mut manifest = sample_manifest();
    manifest.activation_invariants = vec![ActivationInvariant {
        id: "all_art".into(),
        description: "All artifacts verified".into(),
        kind: InvariantKind::AllArtifactsVerified,
    }];
    // Fail on lexical artifact path.
    let verifier = FailingVerifier {
        fail_paths: vec!["lexical/segment_0".into()],
    };
    let checks = check_invariants(&manifest, &verifier, None);
    assert!(!checks[0].passed);
    assert!(checks[0].reason.contains("lexical/segment_0"));
}

#[test]
fn both_vector_and_lexical_failures_reported() {
    let mut manifest = sample_manifest();
    manifest.activation_invariants = vec![ActivationInvariant {
        id: "all_art".into(),
        description: "All artifacts verified".into(),
        kind: InvariantKind::AllArtifactsVerified,
    }];
    let verifier = FailingVerifier {
        fail_paths: vec!["vectors/shard_0.fsvi".into(), "lexical/segment_0".into()],
    };
    let checks = check_invariants(&manifest, &verifier, None);
    assert!(!checks[0].passed);
    assert!(checks[0].reason.contains("2 artifact(s) failed"));
}

/// Default `runtime_embedder` returns None.
struct MinimalVerifier;

impl ArtifactVerifier for MinimalVerifier {
    fn verify(
        &self,
        manifest_path: &str,
        _checksum: &str,
        _expected_size: u64,
    ) -> ArtifactVerification {
        ArtifactVerification {
            path: manifest_path.into(),
            passed: true,
            detail: "minimal".into(),
        }
    }

    fn resolve_path(&self, manifest_path: &str) -> String {
        manifest_path.into()
    }
}

#[test]
fn default_runtime_embedder_returns_none() {
    let v = MinimalVerifier;
    assert!(v.runtime_embedder("fast").is_none());
    assert!(v.runtime_embedder("quality").is_none());
}

#[test]
fn default_check_custom_invariant_returns_none() {
    let v = MinimalVerifier;
    let m = sample_manifest();
    assert!(v.check_custom_invariant("anything", &m, None).is_none());
}

#[test]
fn empty_invariants_returns_empty_checks() {
    let mut manifest = sample_manifest();
    manifest.activation_invariants.clear();
    let verifier = AlwaysPassVerifier::new("/data");
    let checks = check_invariants(&manifest, &verifier, None);
    assert!(checks.is_empty());
}

#[test]
fn vector_count_consistency_multiple_artifacts() {
    let mut manifest = sample_manifest();
    manifest.vector_artifacts = vec![
        VectorArtifact {
            path: "vectors/shard_0.fsvi".into(),
            size_bytes: 1024,
            checksum: "aaa".into(),
            vector_count: 60,
            dimension: 256,
            embedder_tier: EmbedderTierTag::Fast,
        },
        VectorArtifact {
            path: "vectors/shard_1.fsvi".into(),
            size_bytes: 1024,
            checksum: "bbb".into(),
            vector_count: 40,
            dimension: 256,
            embedder_tier: EmbedderTierTag::Fast,
        },
    ];
    manifest.activation_invariants = vec![ActivationInvariant {
        id: "vec_count".into(),
        description: "Vector count check".into(),
        kind: InvariantKind::VectorCountConsistency {
            expected_total: 100,
        },
    }];
    let verifier = AlwaysPassVerifier::new("/data");
    let checks = check_invariants(&manifest, &verifier, None);
    assert!(checks[0].passed);
    assert!(checks[0].reason.contains("100"));
}

#[test]
fn commit_continuity_saturating_add_at_max() {
    let mut manifest = sample_manifest();
    manifest.commit_range = CommitRange {
        low: u64::MAX,
        high: u64::MAX,
    };
    manifest.activation_invariants = vec![ActivationInvariant {
        id: "continuity".into(),
        description: "Commit continuity at max".into(),
        kind: InvariantKind::CommitContinuity {
            previous_high: u64::MAX - 1,
        },
    }];
    let prev_manifest_inner = {
        let mut m = sample_manifest();
        m.commit_range = CommitRange {
            low: 1,
            high: u64::MAX - 1,
        };
        m
    };
    let prev = ActiveGeneration {
        manifest: prev_manifest_inner,
        activation_seq: 1,
        activated_at: 100,
        vector_paths: vec![],
        lexical_paths: vec![],
    };
    let verifier = AlwaysPassVerifier::new("/data");
    // expected_low = (u64::MAX - 1).saturating_add(1) = u64::MAX
    // actual_low = u64::MAX → should pass
    let checks = check_invariants(&manifest, &verifier, Some(&prev));
    assert!(checks[0].passed);
}

#[test]
fn commit_continuity_saturating_add_overflow() {
    let mut manifest = sample_manifest();
    manifest.commit_range = CommitRange { low: 1, high: 100 };
    manifest.activation_invariants = vec![ActivationInvariant {
        id: "continuity".into(),
        description: "Commit continuity overflow".into(),
        kind: InvariantKind::CommitContinuity {
            previous_high: u64::MAX,
        },
    }];
    let prev_manifest_inner = {
        let mut m = sample_manifest();
        m.commit_range = CommitRange {
            low: 1,
            high: u64::MAX,
        };
        m
    };
    let prev = ActiveGeneration {
        manifest: prev_manifest_inner,
        activation_seq: 1,
        activated_at: 100,
        vector_paths: vec![],
        lexical_paths: vec![],
    };
    let verifier = AlwaysPassVerifier::new("/data");
    // expected_low = u64::MAX.saturating_add(1) = u64::MAX (saturated)
    // actual_low = 1 → should fail (1 != u64::MAX)
    let checks = check_invariants(&manifest, &verifier, Some(&prev));
    assert!(!checks[0].passed);
}

#[test]
fn rollback_after_three_activations_only_one_slot() {
    let mut ctrl = GenerationController::new();
    let verifier = AlwaysPassVerifier::new("/data");

    let mut m1 = sample_manifest();
    m1.generation_id = "gen-001".into();
    m1.manifest_hash = format!("hash-{}", m1.generation_id);
    ctrl.activate(m1, &verifier, 100).unwrap();

    let mut m2 = sample_manifest();
    m2.generation_id = "gen-002".into();
    m2.manifest_hash = format!("hash-{}", m2.generation_id);
    ctrl.activate(m2, &verifier, 200).unwrap();

    let mut m3 = sample_manifest();
    m3.generation_id = "gen-003".into();
    m3.manifest_hash = format!("hash-{}", m3.generation_id);
    ctrl.activate(m3, &verifier, 300).unwrap();
    assert_eq!(ctrl.active().unwrap().manifest.generation_id, "gen-003");

    // Rollback restores gen-002 (the one just before gen-003).
    assert!(ctrl.rollback());
    assert_eq!(ctrl.active().unwrap().manifest.generation_id, "gen-002");

    // No further rollback possible.
    assert!(!ctrl.rollback());
}

#[test]
fn activation_error_formats_validation_failures() {
    let mut manifest = sample_manifest();
    manifest.generation_id = String::new(); // triggers validation failure
    manifest.schema_version = 0; // triggers another validation failure
    let validation = validate_manifest(&manifest);
    assert!(!validation.is_valid());
    let err = activation_error(&validation);
    let msg = err.to_display_string();
    assert!(msg.contains("manifest validation failed"));
}

#[test]
fn activation_with_empty_invariants_succeeds() {
    let mut ctrl = GenerationController::new();
    let verifier = AlwaysPassVerifier::new("/data");
    let mut manifest = sample_manifest();
    manifest.activation_invariants.clear();
    let result = ctrl.activate(manifest, &verifier, 100).unwrap();
    assert_eq!(result.activation_seq, 1);
    assert!(!ctrl.is_degraded());
}

#[test]
fn active_generation_resolved_lexical_paths() {
    let mut ctrl = GenerationController::new();
    let verifier = AlwaysPassVerifier::new("/mnt/gen");
    let manifest = sample_manifest();
    let result = ctrl.activate(manifest, &verifier, 100).unwrap();
    assert_eq!(
        result.lexical_path("lexical/segment_0").unwrap(),
        "/mnt/gen/lexical/segment_0"
    );
}

#[test]
fn activation_records_timestamp() {
    let mut ctrl = GenerationController::new();
    let verifier = AlwaysPassVerifier::new("/data");
    let manifest = sample_manifest();
    let timestamp = 1_700_555_000_000_u64;
    let result = ctrl.activate(manifest, &verifier, timestamp).unwrap();
    assert_eq!(result.activated_at, timestamp);
}

#[test]
fn is_degraded_after_single_activation_then_no_rollback() {
    let mut ctrl = GenerationController::new();
    let verifier = AlwaysPassVerifier::new("/data");
    let manifest = sample_manifest();
    ctrl.activate(manifest, &verifier, 100).unwrap();
    assert!(!ctrl.is_degraded());
    // No rollback slot yet (no previous gen), so rollback returns false.
    assert!(!ctrl.rollback());
    // Controller still has the activated generation.
    assert!(!ctrl.is_degraded());
}

#[test]
fn concurrent_arc_snapshot_isolation() {
    let mut ctrl = GenerationController::new();
    let verifier = AlwaysPassVerifier::new("/data");

    let mut m1 = sample_manifest();
    m1.generation_id = "gen-001".into();
    m1.manifest_hash = format!("hash-{}", m1.generation_id);
    ctrl.activate(m1, &verifier, 100).unwrap();

    // Acquire snapshot before second activation.
    let snapshot = ctrl.active().unwrap();
    assert_eq!(snapshot.manifest.generation_id, "gen-001");

    // Activate gen-002.
    let mut m2 = sample_manifest();
    m2.generation_id = "gen-002".into();
    m2.manifest_hash = format!("hash-{}", m2.generation_id);
    ctrl.activate(m2, &verifier, 200).unwrap();

    // Snapshot still sees gen-001 (Arc isolation).
    assert_eq!(snapshot.manifest.generation_id, "gen-001");
    // Current sees gen-002.
    assert_eq!(ctrl.active().unwrap().manifest.generation_id, "gen-002");
}

#[test]
fn vector_count_consistency_zero_expected_and_empty() {
    let mut manifest = sample_manifest();
    manifest.vector_artifacts.clear();
    manifest.activation_invariants = vec![ActivationInvariant {
        id: "vec_count".into(),
        description: "Zero vectors".into(),
        kind: InvariantKind::VectorCountConsistency { expected_total: 0 },
    }];
    let verifier = AlwaysPassVerifier::new("/data");
    let checks = check_invariants(&manifest, &verifier, None);
    assert!(checks[0].passed);
    assert!(checks[0].reason.contains('0'));
}

// ─── bd-2cz8 tests end ───

#[test]
fn resolved_paths_are_sorted_by_manifest_path() {
    let mut ctrl = GenerationController::new();
    let verifier = AlwaysPassVerifier::new("/mnt/gen");
    let mut manifest = sample_manifest();
    let second = VectorArtifact {
        path: "vectors/a_first.fsvi".into(),
        size_bytes: 1024,
        checksum: "deadbeef".into(),
        vector_count: 0,
        dimension: 256,
        embedder_tier: EmbedderTierTag::Fast,
    };
    manifest.vector_artifacts.push(second);
    let result = ctrl.activate(manifest, &verifier, 100).unwrap();
    let keys: Vec<&str> = result.vector_paths.iter().map(|(k, _)| k.as_str()).collect();
    assert_eq!(keys, vec!["vectors/a_first.fsvi", "vectors/shard_0.fsvi"]);
    assert_eq!(
        result.vector_path("vectors/a_first.fsvi").unwrap(),
        "/mnt/gen/vectors/a_first.fsvi"
    );
}

#[test]
fn failed_invariant_check_refuses_activation() {
    let mut ctrl = GenerationController::new();
    let verifier = FailingVerifier {
        fail_paths: vec!["vectors/shard_0.fsvi".to_owned()],
    };
    let result = ctrl.activate(sample_manifest(), &verifier, 100);
    match result {
        Err(SearchError::SubsystemError { subsystem, source }) => {
            assert_eq!(subsystem, "generation_activation");
            assert!(source.starts_with("all_artifacts: "));
        }
        _ => panic!("expected the activation gate to refuse"),
    }
    assert!(ctrl.active().is_none());
    assert_eq!(ctrl.activation_seq(), 0);
}

#[test]
fn invalid_manifest_error_lists_every_finding() {
    let mut ctrl = GenerationController::new();
    let verifier = AlwaysPassVerifier::new("/data");
    let mut manifest = sample_manifest();
    manifest.generation_id = String::new();
    manifest.commit_range = CommitRange { low: 10, high: 5 };
    match ctrl.activate(manifest, &verifier, 100) {
        Err(SearchError::InvalidConfig { field, value, reason }) => {
            assert_eq!(field, "generation_manifest");
            assert_eq!(value, "");
            assert_eq!(
                reason,
                "manifest validation failed: generation_id must not be empty; \
                 commit_range.low must not exceed commit_range.high"
            );
        }
        _ => panic!("expected an invalid-config error"),
    }
    assert_eq!(ctrl.activation_seq(), 0);
}
