use frankensearch::decision_plane::{
    EvidenceEventType, EvidenceRecord, PipelineState, ReasonCode, Severity,
};
use frankensearch::observability_lint::{
    lint_component_coverage, lint_record, lint_stream, registered_reason_codes,
    validate_reason_code_format, LintFinding, LintReport, LintRuleId, LintSeverity,
};
fn make_record(
    event_type: EvidenceEventType,
    reason_code: &str,
    severity: Severity,
    source: &str,
) -> EvidenceRecord {
    EvidenceRecord {
        event_type,
        reason_code: ReasonCode::new(reason_code),
        reason_human: "test reason".to_owned(),
        severity,
        pipeline_state: PipelineState::Nominal,
        has_expected_loss: false,
        source_component: source.to_owned(),
    }
}

#[test]
fn obs001_empty_source_component() {
    let record = make_record(
        EvidenceEventType::Decision,
        ReasonCode::DECISION_REFINE_NOMINAL,
        Severity::Info,
        "",
    );
    let findings = lint_record(&record, "test");
    assert!(findings.iter().any(|f| f.rule_id == LintRuleId::Obs001));
}

#[test]
fn obs001_empty_reason_human() {
    let mut record = make_record(
        EvidenceEventType::Decision,
        ReasonCode::DECISION_REFINE_NOMINAL,
        Severity::Info,
        "decision_plane",
    );
    record.reason_human = String::new();
    let findings = lint_record(&record, "test");
    assert!(findings.iter().any(|f| f.rule_id == LintRuleId::Obs001));
}

#[test]
fn obs002_invalid_format() {
    let record = make_record(
        EvidenceEventType::Decision,
        "bad_format",
        Severity::Info,
        "decision_plane",
    );
    let findings = lint_record(&record, "test");
    assert!(findings.iter().any(|f| f.rule_id == LintRuleId::Obs002));
}

#[test]
fn obs002_valid_format_passes() {
    let record = make_record(
        EvidenceEventType::Decision,
        ReasonCode::DECISION_REFINE_NOMINAL,
        Severity::Info,
        "decision_plane",
    );
    let findings = lint_record(&record, "test");
    assert!(!findings.iter().any(|f| f.rule_id == LintRuleId::Obs002));
}

#[test]
fn obs003_unregistered_code() {
    let record = make_record(
        EvidenceEventType::Decision,
        "custom.made_up.code",
        Severity::Info,
        "decision_plane",
    );
    let findings = lint_record(&record, "test");
    assert!(findings.iter().any(|f| f.rule_id == LintRuleId::Obs003));
}

#[test]
fn obs003_registered_code_passes() {
    let record = make_record(
        EvidenceEventType::Decision,
        ReasonCode::CIRCUIT_OPEN_FAILURES,
        Severity::Info,
        "circuit_breaker",
    );
    let findings = lint_record(&record, "test");
    assert!(!findings.iter().any(|f| f.rule_id == LintRuleId::Obs003));
}

#[test]
fn obs004_missing_component_coverage() {
    let records = vec![(
        "evt1".to_owned(),
        make_record(
            EvidenceEventType::Decision,
            ReasonCode::DECISION_REFINE_NOMINAL,
            Severity::Info,
            "decision_plane",
        ),
    )];
    let report = lint_component_coverage(
        &records,
        &["decision_plane", "circuit_breaker", "calibrator"],
    );
    let obs004: Vec<_> = report
        .findings
        .iter()
        .filter(|f| f.rule_id == LintRuleId::Obs004)
        .collect();
    assert_eq!(obs004.len(), 2);
    assert!(obs004.iter().any(|f| f.source == "circuit_breaker"));
    assert!(obs004.iter().any(|f| f.source == "calibrator"));
}

#[test]
fn obs005_decision_without_expected_loss() {
    let record = make_record(
        EvidenceEventType::Decision,
        ReasonCode::DECISION_REFINE_NOMINAL,
        Severity::Info,
        "decision_plane",
    );
    let findings = lint_record(&record, "test");
    assert!(findings.iter().any(|f| f.rule_id == LintRuleId::Obs005));
}

#[test]
fn obs005_decision_with_expected_loss_passes() {
    let mut record = make_record(
        EvidenceEventType::Decision,
        ReasonCode::DECISION_REFINE_NOMINAL,
        Severity::Info,
        "decision_plane",
    );
    record.has_expected_loss = true;
    let findings = lint_record(&record, "test");
    assert!(!findings.iter().any(|f| f.rule_id == LintRuleId::Obs005));
}

#[test]
fn obs007_long_reason_text() {
    let mut record = make_record(
        EvidenceEventType::Decision,
        ReasonCode::DECISION_REFINE_NOMINAL,
        Severity::Info,
        "decision_plane",
    );
    record.reason_human = "a".repeat(201);
    let findings = lint_record(&record, "test");
    assert!(findings.iter().any(|f| f.rule_id == LintRuleId::Obs007));
}

#[test]
fn obs007_max_length_passes() {
    let mut record = make_record(
        EvidenceEventType::Decision,
        ReasonCode::DECISION_REFINE_NOMINAL,
        Severity::Info,
        "decision_plane",
    );
    record.reason_human = "a".repeat(200);
    let findings = lint_record(&record, "test");
    assert!(!findings.iter().any(|f| f.rule_id == LintRuleId::Obs007));
}

#[test]
fn obs008_degradation_with_info_severity() {
    let record = make_record(
        EvidenceEventType::Degradation,
        ReasonCode::DECISION_SKIP_CIRCUIT_OPEN,
        Severity::Info,
        "decision_plane",
    );
    let findings = lint_record(&record, "test");
    assert!(findings.iter().any(|f| f.rule_id == LintRuleId::Obs008));
}

#[test]
fn obs008_degradation_with_warn_passes() {
    let record = make_record(
        EvidenceEventType::Degradation,
        ReasonCode::DECISION_SKIP_CIRCUIT_OPEN,
        Severity::Warn,
        "decision_plane",
    );
    let findings = lint_record(&record, "test");
    assert!(!findings.iter().any(|f| f.rule_id == LintRuleId::Obs008));
}

#[test]
fn obs008_alert_with_error_passes() {
    let record = make_record(
        EvidenceEventType::Alert,
        ReasonCode::CIRCUIT_OPEN_FAILURES,
        Severity::Error,
        "circuit_breaker",
    );
    let findings = lint_record(&record, "test");
    assert!(!findings.iter().any(|f| f.rule_id == LintRuleId::Obs008));
}

#[test]
fn obs009_duplicate_event_ids() {
    let records = vec![
        (
            "dup123".to_owned(),
            make_record(
                EvidenceEventType::Decision,
                ReasonCode::DECISION_REFINE_NOMINAL,
                Severity::Info,
                "decision_plane",
            ),
        ),
        (
            "dup123".to_owned(),
            make_record(
                EvidenceEventType::Transition,
                ReasonCode::CIRCUIT_CLOSE_RECOVERY,
                Severity::Info,
                "circuit_breaker",
            ),
        ),
    ];
    let report = lint_stream(&records);
    assert!(
        report
            .findings
            .iter()
            .any(|f| f.rule_id == LintRuleId::Obs009)
    );
}

#[test]
fn obs009_unique_event_ids_pass() {
    let records = vec![
        (
            "evt1".to_owned(),
            make_record(
                EvidenceEventType::Decision,
                ReasonCode::DECISION_REFINE_NOMINAL,
                Severity::Info,
                "decision_plane",
            ),
        ),
        (
            "evt2".to_owned(),
            make_record(
                EvidenceEventType::Transition,
                ReasonCode::CIRCUIT_CLOSE_RECOVERY,
                Severity::Info,
                "circuit_breaker",
            ),
        ),
    ];
    let report = lint_stream(&records);
    assert!(
        !report
            .findings
            .iter()
            .any(|f| f.rule_id == LintRuleId::Obs009)
    );
}

#[test]
fn lint_report_display_format() {
    let mut report = LintReport::new();
    report.add(LintFinding {
        rule_id: LintRuleId::Obs001,
        severity: LintSeverity::Error,
        message: "test error".to_owned(),
        source: "test".to_owned(),
    });
    report.add(LintFinding {
        rule_id: LintRuleId::Obs007,
        severity: LintSeverity::Info,
        message: "test info".to_owned(),
        source: "test".to_owned(),
    });
    let output = report.to_display_string();
    assert!(output.contains("FAIL"));
    assert!(output.contains("OBS-001"));
    assert!(output.contains("OBS-007"));
}

#[test]
fn empty_report_displays_pass() {
    let report = LintReport::new();
    let output = report.to_display_string();
    assert!(output.contains("PASS"));
    assert!(output.contains("0 findings"));
}

#[test]
fn valid_record_produces_no_errors() {
    let mut record = make_record(
        EvidenceEventType::Decision,
        ReasonCode::DECISION_REFINE_NOMINAL,
        Severity::Info,
        "decision_plane",
    );
    record.has_expected_loss = true;
    let findings = lint_record(&record, "test");
    let errors: Vec<_> = findings
        .iter()
        .filter(|f| f.severity == LintSeverity::Error)
        .collect();
    assert!(errors.is_empty(), "expected no errors, got: {errors:?}");
}

#[test]
fn all_registered_codes_have_valid_format() {
    for code in registered_reason_codes() {
        assert!(
            validate_reason_code_format(code),
            "registered code '{code}' fails format validation"
        );
    }
}

#[test]
fn reason_code_format_rejects_bad_inputs() {
    assert!(!validate_reason_code_format(""));
    assert!(!validate_reason_code_format("single"));
    assert!(!validate_reason_code_format("two.parts"));
    assert!(!validate_reason_code_format("four.parts.too.many"));
    assert!(!validate_reason_code_format("UPPER.case.bad"));
    assert!(!validate_reason_code_format("has space.in.code"));
}

#[test]
fn lint_stream_aggregates_findings() {
    let records = vec![
        (
            "evt1".to_owned(),
            make_record(
                EvidenceEventType::Degradation,
                ReasonCode::DECISION_SKIP_CIRCUIT_OPEN,
                Severity::Info,
                "decision_plane",
            ),
        ),
        (
            "evt2".to_owned(),
            make_record(
                EvidenceEventType::Decision,
                "invalid_code",
                Severity::Info,
                "",
            ),
        ),
    ];
    let report = lint_stream(&records);
    assert!(report.has_errors());
    assert!(report.findings.len() >= 3);
}

#[test]
fn count_at_severity_works() {
    let mut report = LintReport::new();
    report.add(LintFinding {
        rule_id: LintRuleId::Obs001,
        severity: LintSeverity::Error,
        message: "err".to_owned(),
        source: "t".to_owned(),
    });
    report.add(LintFinding {
        rule_id: LintRuleId::Obs005,
        severity: LintSeverity::Warning,
        message: "warn".to_owned(),
        source: "t".to_owned(),
    });
    report.add(LintFinding {
        rule_id: LintRuleId::Obs007,
        severity: LintSeverity::Info,
        message: "info".to_owned(),
        source: "t".to_owned(),
    });
    assert_eq!(report.count_at_severity(LintSeverity::Error), 1);
    assert_eq!(report.count_at_severity(LintSeverity::Warning), 2);
    assert_eq!(report.count_at_severity(LintSeverity::Info), 3);
}
