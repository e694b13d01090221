//! Observability contract lint rules.
//!
//! Validates evidence records and streams against the evidence-ledger schema
//! checklist: required fields, reason code format and registry, expected loss
//! on decisions, reason text length, severity consistency, duplicate event ids
//! and component coverage.

use vstd::prelude::*;
use crate::decision_plane::{
    event_type_label, severity_label, severity_rank, EvidenceEventType, EvidenceRecord, ReasonCode,
    Severity,
};
use crate::text::{decimal, push_decimal, push_str, str_eq};

verus! {

// ---------------------------------------------------------------------------
// Rules, severities, findings
// ---------------------------------------------------------------------------
/// Lint rule identifier.
#[derive(Debug, Clone, Copy, PartialEq, Eq, Hash, Structural)]
pub enum LintRuleId {
    /// Evidence record missing required field.
    Obs001,
    /// Reason code format violation.
    Obs002,
    /// Reason code not in registry.
    Obs003,
    /// Component emits no evidence records.
    Obs004,
    /// Decision event missing `expected_loss`.
    Obs005,
    /// State transition without evidence context.
    Obs006,
    /// Reason human text too long.
    Obs007,
    /// Severity contradicts event type.
    Obs008,
    /// Duplicate `event_id` in stream.
    Obs009,
    /// Evidence stream not timestamp-ordered.
    Obs010,
}

/// Machine-stable string of a rule id.
pub open spec fn rule_label(r: LintRuleId) -> Seq<char> {
    match r {
        LintRuleId::Obs001 => "OBS-001"@,
        LintRuleId::Obs002 => "OBS-002"@,
        LintRuleId::Obs003 => "OBS-003"@,
        LintRuleId::Obs004 => "OBS-004"@,
        LintRuleId::Obs005 => "OBS-005"@,
        LintRuleId::Obs006 => "OBS-006"@,
        LintRuleId::Obs007 => "OBS-007"@,
        LintRuleId::Obs008 => "OBS-008"@,
        LintRuleId::Obs009 => "OBS-009"@,
        LintRuleId::Obs010 => "OBS-010"@,
    }
}

impl LintRuleId {
    /// Machine-stable string for the rule ID.
    pub fn as_str(self) -> (s: &'static str)
        ensures
            s@ == rule_label(self),
    {
        match self {
            LintRuleId::Obs001 => "OBS-001",
            LintRuleId::Obs002 => "OBS-002",
            LintRuleId::Obs003 => "OBS-003",
            LintRuleId::Obs004 => "OBS-004",
            LintRuleId::Obs005 => "OBS-005",
            LintRuleId::Obs006 => "OBS-006",
            LintRuleId::Obs007 => "OBS-007",
            LintRuleId::Obs008 => "OBS-008",
            LintRuleId::Obs009 => "OBS-009",
            LintRuleId::Obs010 => "OBS-010",
        }
    }
}

/// Severity of a lint finding.
#[derive(Debug, Clone, Copy, PartialEq, Eq, PartialOrd, Ord, Hash, Structural)]
pub enum LintSeverity {
    Info,
    Warning,
    Error,
}

/// Rank of a lint severity: info < warning < error.
pub open spec fn lint_rank(s: LintSeverity) -> int {
    match s {
        LintSeverity::Info => 0,
        LintSeverity::Warning => 1,
        LintSeverity::Error => 2,
    }
}

/// Lower-case name of a lint severity.
pub open spec fn lint_severity_label(s: LintSeverity) -> Seq<char> {
    match s {
        LintSeverity::Info => "info"@,
        LintSeverity::Warning => "warning"@,
        LintSeverity::Error => "error"@,
    }
}

impl LintSeverity {
    /// Lower-case name of the severity.
    pub fn as_str(self) -> (s: &'static str)
        ensures
            s@ == lint_severity_label(self),
    {
        match self {
            LintSeverity::Info => "info",
            LintSeverity::Warning => "warning",
            LintSeverity::Error => "error",
        }
    }

    /// Whether this severity is at or above `min`.
    pub fn at_least(self, min: LintSeverity) -> (b: bool)
        ensures
            b == (lint_rank(self) >= lint_rank(min)),
    {
        let a: u8 = match self {
            LintSeverity::Info => 0,
            LintSeverity::Warning => 1,
            LintSeverity::Error => 2,
        };
        let m: u8 = match min {
            LintSeverity::Info => 0,
            LintSeverity::Warning => 1,
            LintSeverity::Error => 2,
        };
        a >= m
    }
}

/// A single lint finding.
#[derive(Debug)]
pub struct LintFinding {
    pub rule_id: LintRuleId,
    pub severity: LintSeverity,
    pub message: String,
    /// Source component or context.
    pub source: String,
}

impl Clone for LintFinding {
    fn clone(&self) -> (r: Self)
        ensures
            r == *self,
    {
        LintFinding {
            rule_id: self.rule_id,
            severity: self.severity,
            message: self.message.clone(),
            source: self.source.clone(),
        }
    }
}

/// A finding as plain values: rule, severity, message, source.
pub type FindingView = (LintRuleId, LintSeverity, Seq<char>, Seq<char>);

/// The plain values of a finding.
pub open spec fn finding_view(f: LintFinding) -> FindingView {
    (f.rule_id, f.severity, f.message@, f.source@)
}

/// The plain values of a sequence of findings.
pub open spec fn findings_view(s: Seq<LintFinding>) -> Seq<FindingView> {
    s.map_values(|f: LintFinding| finding_view(f))
}

/// How a finding is displayed: `[rule] severity (source): message`.
pub open spec fn finding_text(f: FindingView) -> Seq<char> {
    "["@ + rule_label(f.0) + "] "@ + lint_severity_label(f.1) + " ("@ + f.3 + "): "@ + f.2
}

impl LintFinding {
    /// The display text of the finding: `[rule] severity (source): message`.
    pub fn to_display_string(&self) -> (s: String)
        ensures
            s@ == finding_text(finding_view(*self)),
    {
        let mut s = String::new();
        push_str(&mut s, "[");
        push_str(&mut s, self.rule_id.as_str());
        push_str(&mut s, "] ");
        push_str(&mut s, self.severity.as_str());
        push_str(&mut s, " (");
        push_str(&mut s, self.source.as_str());
        push_str(&mut s, "): ");
        push_str(&mut s, self.message.as_str());
        proof {
            assert(s@ =~= finding_text(finding_view(*self)));
        }
        s
    }
}

/// Number of findings at or above `min`.
pub open spec fn count_at_least(s: Seq<FindingView>, min: LintSeverity) -> nat
    decreases s.len(),
{
    if s.len() == 0 {
        0
    } else {
        count_at_least(s.drop_last(), min) + if lint_rank(s.last().1) >= lint_rank(min) {
            1nat
        } else {
            0nat
        }
    }
}

/// Whether some finding is error-level.
pub open spec fn has_error(s: Seq<FindingView>) -> bool {
    exists|i: int| 0 <= i < s.len() && (#[trigger] s[i]).1 == LintSeverity::Error
}

/// The lines of a report's findings, each indented and ended by a newline.
pub open spec fn finding_lines(s: Seq<FindingView>) -> Seq<char>
    decreases s.len(),
{
    if s.len() == 0 {
        Seq::empty()
    } else {
        finding_lines(s.drop_last()) + "  "@ + finding_text(s.last()) + "\n"@
    }
}

/// The display text of a report.
pub open spec fn report_text(s: Seq<FindingView>) -> Seq<char> {
    if s.len() == 0 {
        "Observability lint: 0 findings (PASS)"@
    } else {
        let errors = count_at_least(s, LintSeverity::Error);
        let warnings = (count_at_least(s, LintSeverity::Warning) - errors) as nat;
        "Observability lint: "@ + decimal(s.len()) + " findings ("@ + decimal(errors) + " errors, "@ + decimal(
            warnings,
        ) + " warnings) ("@ + (if has_error(s) {
            "FAIL"@
        } else {
            "PASS"@
        }) + ")\n"@ + finding_lines(s)
    }
}

/// Error-level findings are among the warning-level-or-above ones, those among
/// all findings; a report has errors exactly when its error count is positive.
pub proof fn law_severity_counts(s: Seq<FindingView>)
    ensures
        count_at_least(s, LintSeverity::Error) <= count_at_least(s, LintSeverity::Warning),
        count_at_least(s, LintSeverity::Warning) <= count_at_least(s, LintSeverity::Info),
        count_at_least(s, LintSeverity::Info) == s.len(),
        count_at_least(s, LintSeverity::Error) > 0 <==> has_error(s),
    decreases s.len(),
{
    if s.len() > 0 {
        law_severity_counts(s.drop_last());
        let p = s.drop_last();
        if has_error(s) && !(s.last().1 == LintSeverity::Error) {
            let i = choose|i: int| 0 <= i < s.len() && (#[trigger] s[i]).1 == LintSeverity::Error;
            assert(p[i].1 == LintSeverity::Error);
        }
        if has_error(p) {
            let i = choose|i: int| 0 <= i < p.len() && (#[trigger] p[i]).1 == LintSeverity::Error;
            assert(s[i].1 == LintSeverity::Error);
        }
        if s.last().1 == LintSeverity::Error {
            assert(s[s.len() - 1].1 == LintSeverity::Error);
        }
    }
}

/// Aggregated lint report.
#[derive(Debug, Clone)]
pub struct LintReport {
    pub findings: Vec<LintFinding>,
}

impl LintReport {
    /// Create an empty report.
    pub fn new() -> (r: Self)
        ensures
            r.findings@.len() == 0,
    {
        LintReport { findings: Vec::new() }
    }

    /// Whether the report has any error-level findings.
    pub fn has_errors(&self) -> (b: bool)
        ensures
            b == has_error(findings_view(self.findings@)),
    {
        let ghost v = findings_view(self.findings@);
        let mut i: usize = 0;
        while i < self.findings.len()
            invariant
                i <= self.findings@.len(),
                v == findings_view(self.findings@),
                forall|j: int| 0 <= j < i ==> (#[trigger] v[j]).1 != LintSeverity::Error,
            decreases self.findings@.len() - i,
        {
            if self.findings[i].severity == LintSeverity::Error {
                assert(v[i as int].1 == LintSeverity::Error);
                return true;
            }
            i = i + 1;
        }
        false
    }

    /// Count of findings at or above a given severity.
    pub fn count_at_severity(&self, min_severity: LintSeverity) -> (n: usize)
        ensures
            n == count_at_least(findings_view(self.findings@), min_severity),
    {
        let ghost v = findings_view(self.findings@);
        let mut n: usize = 0;
        let mut i: usize = 0;
        while i < self.findings.len()
            invariant
                i <= self.findings@.len(),
                v == findings_view(self.findings@),
                n == count_at_least(v.take(i as int), min_severity),
                n <= i,
            decreases self.findings@.len() - i,
        {
            proof {
                assert(v.take(i + 1).drop_last() =~= v.take(i as int));
            }
            if self.findings[i].severity.at_least(min_severity) {
                n = n + 1;
            }
            i = i + 1;
        }
        assert(v.take(v.len() as int) =~= v);
        n
    }

    /// All findings pass (no errors).
    pub fn all_pass(&self) -> (b: bool)
        ensures
            b == !has_error(findings_view(self.findings@)),
    {
        !self.has_errors()
    }

    /// Append a finding.
    pub fn add(&mut self, finding: LintFinding)
        ensures
            final(self).findings@ == old(self).findings@.push(finding),
    {
        self.findings.push(finding);
    }

    /// The display text of the report: a summary line, then one line per finding.
    pub fn to_display_string(&self) -> (s: String)
        ensures
            s@ == report_text(findings_view(self.findings@)),
    {
        let ghost v = findings_view(self.findings@);
        if self.findings.len() == 0 {
            return String::from_str("Observability lint: 0 findings (PASS)");
        }
        proof {
            law_severity_counts(v);
        }
        let errors = self.count_at_severity(LintSeverity::Error);
        let warnings = self.count_at_severity(LintSeverity::Warning) - errors;
        let status = if self.has_errors() {
            "FAIL"
        } else {
            "PASS"
        };
        let mut s = String::new();
        push_str(&mut s, "Observability lint: ");
        push_decimal(&mut s, self.findings.len() as u64);
        push_str(&mut s, " findings (");
        push_decimal(&mut s, errors as u64);
        push_str(&mut s, " errors, ");
        push_decimal(&mut s, warnings as u64);
        push_str(&mut s, " warnings) (");
        push_str(&mut s, status);
        push_str(&mut s, ")\n");
        let ghost head = s@;
        let mut i: usize = 0;
        while i < self.findings.len()
            invariant
                i <= self.findings@.len(),
                v == findings_view(self.findings@),
                s@ == head + finding_lines(v.take(i as int)),
            decreases self.findings@.len() - i,
        {
            proof {
                assert(v.take(i + 1).drop_last() =~= v.take(i as int));
            }
            let line = self.findings[i].to_display_string();
            push_str(&mut s, "  ");
            push_str(&mut s, line.as_str());
            push_str(&mut s, "\n");
            i = i + 1;
        }
        proof {
            assert(v.take(v.len() as int) =~= v);
            assert(s@ =~= report_text(v));
        }
        s
    }
}

impl Default for LintReport {
    fn default() -> (r: Self)
        ensures
            r.findings@.len() == 0,
    {
        LintReport::new()
    }
}

// ---------------------------------------------------------------------------
// Reason codes
// ---------------------------------------------------------------------------
/// The registered reason codes, in registry order.
pub open spec fn registered_codes() -> Seq<Seq<char>> {
    seq![
        ReasonCode::DECISION_SKIP_FAST_ONLY@,
        ReasonCode::DECISION_SKIP_CIRCUIT_OPEN@,
        ReasonCode::DECISION_SKIP_BUDGET_EXHAUSTED@,
        ReasonCode::DECISION_SKIP_HIGH_LOSS@,
        ReasonCode::DECISION_SKIP_EMPTY_QUERY@,
        ReasonCode::DECISION_REFINE_NOMINAL@,
        ReasonCode::DECISION_PROBE_SENT@,
        ReasonCode::DECISION_PROBE_SUCCESS@,
        ReasonCode::DECISION_PROBE_FAILURE@,
        ReasonCode::CIRCUIT_OPEN_FAILURES@,
        ReasonCode::CIRCUIT_OPEN_LATENCY@,
        ReasonCode::CIRCUIT_CLOSE_RECOVERY@,
        ReasonCode::CALIBRATION_FALLBACK_DATA@,
        ReasonCode::CALIBRATION_FALLBACK_DRIFT@,
        ReasonCode::CALIBRATION_FALLBACK_ERROR@,
        ReasonCode::CALIBRATION_FALLBACK_MODEL@,
        ReasonCode::CALIBRATION_TRAINED@,
        ReasonCode::CALIBRATION_RESET@,
        ReasonCode::FUSION_BLEND_ADJUSTED@,
        ReasonCode::FUSION_RRF_K_ADJUSTED@,
        ReasonCode::FUSION_FALLBACK_DEFAULT@,
        ReasonCode::TESTING_REJECT@,
        ReasonCode::TESTING_CONTINUE@,
        ReasonCode::TESTING_RESET@,
        ReasonCode::CONFORMAL_VALID@,
        ReasonCode::CONFORMAL_VIOLATION@,
        ReasonCode::CONFORMAL_UPDATE@,
        ReasonCode::FEEDBACK_BOOST_UPDATED@,
        ReasonCode::FEEDBACK_BOOST_DECAYED@,
    ]
}

/// The views of a sequence of string slices.
pub open spec fn strs_view(v: Seq<&str>) -> Seq<Seq<char>> {
    v.map_values(|s: &str| s@)
}

/// All reason codes in the registry.
pub fn registered_reason_codes() -> (codes: Vec<&'static str>)
    ensures
        strs_view(codes@) == registered_codes(),
{
    let codes = vec![
        ReasonCode::DECISION_SKIP_FAST_ONLY,
        ReasonCode::DECISION_SKIP_CIRCUIT_OPEN,
        ReasonCode::DECISION_SKIP_BUDGET_EXHAUSTED,
        ReasonCode::DECISION_SKIP_HIGH_LOSS,
        ReasonCode::DECISION_SKIP_EMPTY_QUERY,
        ReasonCode::DECISION_REFINE_NOMINAL,
        ReasonCode::DECISION_PROBE_SENT,
        ReasonCode::DECISION_PROBE_SUCCESS,
        ReasonCode::DECISION_PROBE_FAILURE,
        ReasonCode::CIRCUIT_OPEN_FAILURES,
        ReasonCode::CIRCUIT_OPEN_LATENCY,
        ReasonCode::CIRCUIT_CLOSE_RECOVERY,
        ReasonCode::CALIBRATION_FALLBACK_DATA,
        ReasonCode::CALIBRATION_FALLBACK_DRIFT,
        ReasonCode::CALIBRATION_FALLBACK_ERROR,
        ReasonCode::CALIBRATION_FALLBACK_MODEL,
        ReasonCode::CALIBRATION_TRAINED,
        ReasonCode::CALIBRATION_RESET,
        ReasonCode::FUSION_BLEND_ADJUSTED,
        ReasonCode::FUSION_RRF_K_ADJUSTED,
        ReasonCode::FUSION_FALLBACK_DEFAULT,
        ReasonCode::TESTING_REJECT,
        ReasonCode::TESTING_CONTINUE,
        ReasonCode::TESTING_RESET,
        ReasonCode::CONFORMAL_VALID,
        ReasonCode::CONFORMAL_VIOLATION,
        ReasonCode::CONFORMAL_UPDATE,
        ReasonCode::FEEDBACK_BOOST_UPDATED,
        ReasonCode::FEEDBACK_BOOST_DECAYED,
    ];
    assert(strs_view(codes@) =~= registered_codes());
    codes
}

/// Whether `code` is one of the registered reason codes.
pub fn is_registered_reason_code(code: &str) -> (b: bool)
    ensures
        b == registered_codes().contains(code@),
{
    let codes = registered_reason_codes();
    let ghost reg = registered_codes();
    let mut i: usize = 0;
    while i < codes.len()
        invariant
            i <= codes@.len(),
            strs_view(codes@) == reg,
            reg == registered_codes(),
            forall|j: int| 0 <= j < i ==> reg[j] != code@,
        decreases codes@.len() - i,
    {
        assert(reg[i as int] == codes@[i as int]@);
        if str_eq(codes[i], code) {
            assert(reg[i as int] == code@);
            return true;
        }
        i = i + 1;
    }
    false
}

/// Characters allowed inside a reason code segment.
pub open spec fn reason_char_ok(c: char) -> bool {
    ('a' <= c && c <= 'z') || ('0' <= c && c <= '9') || c == '_'
}

/// Number of occurrences of `c` in `s`.
pub open spec fn count_char(s: Seq<char>, c: char) -> nat
    decreases s.len(),
{
    if s.len() == 0 {
        0
    } else {
        count_char(s.drop_last(), c) + if s.last() == c {
            1nat
        } else {
            0nat
        }
    }
}

/// Whether `s` is `namespace.subject.detail`: exactly three non-empty
/// dot-separated segments of lower-case letters, digits and underscores.
pub open spec fn valid_reason_code(s: Seq<char>) -> bool {
    &&& s.len() > 0
    &&& count_char(s, '.') == 2
    &&& forall|i: int| 0 <= i < s.len() ==> s[i] == '.' || reason_char_ok(#[trigger] s[i])
    &&& s[0] != '.'
    &&& s[s.len() - 1] != '.'
    &&& forall|i: int| 0 <= i < s.len() - 1 ==> !(#[trigger] s[i] == '.' && s[i + 1] == '.')
}

/// Validate the format of a reason code string.
pub fn validate_reason_code_format(code: &str) -> (b: bool)
    ensures
        b == valid_reason_code(code@),
{
    let n = code.unicode_len();
    if n == 0 {
        return false;
    }
    let mut dots: usize = 0;
    let mut i: usize = 0;
    while i < n
        invariant
            n == code@.len(),
            0 < n,
            i <= n,
            dots <= i,
            dots == count_char(code@.subrange(0, i as int), '.'),
            forall|j: int| 0 <= j < i ==> code@[j] == '.' || reason_char_ok(#[trigger] code@[j]),
            i > 0 ==> code@[0] != '.',
            forall|j: int| 0 <= j < i - 1 ==> !(#[trigger] code@[j] == '.' && code@[j + 1] == '.'),
        decreases n - i,
    {
        let c = code.get_char(i);
        proof {
            assert(code@.subrange(0, i + 1).drop_last() =~= code@.subrange(0, i as int));
        }
        if c == '.' {
            if i == 0 {
                return false;
            }
            if code.get_char(i - 1) == '.' {
                assert(code@[i - 1] == '.' && code@[(i - 1) + 1] == '.');
                return false;
            }
            dots = dots + 1;
        } else if !(('a' <= c && c <= 'z') || ('0' <= c && c <= '9') || c == '_') {
            assert(!(code@[i as int] == '.' || reason_char_ok(code@[i as int])));
            return false;
        }
        i = i + 1;
    }
    assert(code@.subrange(0, n as int) =~= code@);
    dots == 2 && code.get_char(n - 1) != '.'
}

// ---------------------------------------------------------------------------
// Record lint
// ---------------------------------------------------------------------------
/// Minimum severity required for a given event type.
pub open spec fn minimum_severity(t: EvidenceEventType) -> Severity {
    match t {
        EvidenceEventType::Degradation | EvidenceEventType::Alert => Severity::Warn,
        _ => Severity::Info,
    }
}

fn minimum_severity_for(event_type: EvidenceEventType) -> (s: Severity)
    ensures
        s == minimum_severity(event_type),
{
    match event_type {
        EvidenceEventType::Degradation | EvidenceEventType::Alert => Severity::Warn,
        _ => Severity::Info,
    }
}

fn severity_meets_minimum(actual: Severity, minimum: Severity) -> (b: bool)
    ensures
        b == (severity_rank(actual) >= severity_rank(minimum)),
{
    let a: u8 = match actual {
        Severity::Info => 0,
        Severity::Warn => 1,
        Severity::Error => 2,
    };
    let m: u8 = match minimum {
        Severity::Info => 0,
        Severity::Warn => 1,
        Severity::Error => 2,
    };
    a >= m
}

/// Maximum allowed length in bytes of `reason_human` text.
pub const MAX_REASON_HUMAN_LEN: usize = 200;

/// Length in bytes of the UTF-8 encoding of `s`.
pub open spec fn utf8_len(s: Seq<char>) -> nat {
    vstd::utf8::encode_utf8(s).len()
}

/// `seq![f]` when `c` holds, else nothing.
pub open spec fn finding_if(c: bool, f: FindingView) -> Seq<FindingView> {
    if c {
        seq![f]
    } else {
        Seq::empty()
    }
}

/// The findings for one record, attributed to `source`, in rule order.
pub open spec fn record_findings(r: EvidenceRecord, source: Seq<char>) -> Seq<FindingView> {
    let code = r.reason_code.0@;
    let min = minimum_severity(r.event_type);
    finding_if(
        r.source_component@.len() == 0,
        (LintRuleId::Obs001, LintSeverity::Error, "source_component is empty"@, source),
    ) + finding_if(
        r.reason_human@.len() == 0,
        (LintRuleId::Obs001, LintSeverity::Error, "reason_human is empty"@, source),
    ) + finding_if(
        !valid_reason_code(code),
        (
            LintRuleId::Obs002,
            LintSeverity::Error,
            "reason code '"@ + code + "' does not match namespace.subject.detail pattern"@,
            source,
        ),
    ) + finding_if(
        !registered_codes().contains(code),
        (LintRuleId::Obs003, LintSeverity::Error, "reason code '"@ + code + "' not found in ReasonCode registry"@, source),
    ) + finding_if(
        r.event_type == EvidenceEventType::Decision && !r.has_expected_loss,
        (LintRuleId::Obs005, LintSeverity::Warning, "decision event without expected_loss field"@, source),
    ) + finding_if(
        utf8_len(r.reason_human@) > 200,
        (
            LintRuleId::Obs007,
            LintSeverity::Info,
            "reason_human text is "@ + decimal(utf8_len(r.reason_human@)) + " chars (max 200)"@,
            source,
        ),
    ) + finding_if(
        severity_rank(r.severity) < severity_rank(min),
        (
            LintRuleId::Obs008,
            LintSeverity::Error,
            event_type_label(r.event_type) + " event must have severity >= "@ + severity_label(min)
                + ", got "@ + severity_label(r.severity),
            source,
        ),
    )
}

fn make_finding(rule_id: LintRuleId, severity: LintSeverity, message: String, source: &str) -> (f: LintFinding)
    ensures
        finding_view(f) == (rule_id, severity, message@, source@),
{
    LintFinding { rule_id, severity, message, source: source.to_owned() }
}

fn push_finding(out: &mut Vec<LintFinding>, f: LintFinding)
    ensures
        findings_view(final(out)@) == findings_view(old(out)@) + seq![finding_view(f)],
{
    let ghost before = out@;
    out.push(f);
    assert(findings_view(out@) =~= findings_view(before) + seq![finding_view(f)]);
}

proof fn lemma_empty_append(v: Seq<FindingView>)
    ensures
        v + Seq::<FindingView>::empty() == v,
{
    assert(v + Seq::<FindingView>::empty() =~= v);
}

/// Lint a single evidence record; findings are attributed to `source`.
pub fn lint_record(record: &EvidenceRecord, source: &str) -> (findings: Vec<LintFinding>)
    ensures
        findings_view(findings@) == record_findings(*record, source@),
{
    let mut findings: Vec<LintFinding> = Vec::new();
    let ghost code = record.reason_code.0@;
    let ghost min = minimum_severity(record.event_type);
    let ghost f1 = finding_if(
        record.source_component@.len() == 0,
        (LintRuleId::Obs001, LintSeverity::Error, "source_component is empty"@, source@),
    );
    let ghost f2 = finding_if(
        record.reason_human@.len() == 0,
        (LintRuleId::Obs001, LintSeverity::Error, "reason_human is empty"@, source@),
    );
    let ghost f3 = finding_if(
        !valid_reason_code(code),
        (
            LintRuleId::Obs002,
            LintSeverity::Error,
            "reason code '"@ + code + "' does not match namespace.subject.detail pattern"@,
            source@,
        ),
    );
    let ghost f4 = finding_if(
        !registered_codes().contains(code),
        (LintRuleId::Obs003, LintSeverity::Error, "reason code '"@ + code + "' not found in ReasonCode registry"@, source@),
    );
    let ghost f5 = finding_if(
        record.event_type == EvidenceEventType::Decision && !record.has_expected_loss,
        (LintRuleId::Obs005, LintSeverity::Warning, "decision event without expected_loss field"@, source@),
    );
    let ghost f6 = finding_if(
        utf8_len(record.reason_human@) > 200,
        (
            LintRuleId::Obs007,
            LintSeverity::Info,
            "reason_human text is "@ + decimal(utf8_len(record.reason_human@)) + " chars (max 200)"@,
            source@,
        ),
    );
    let ghost f7 = finding_if(
        severity_rank(record.severity) < severity_rank(min),
        (
            LintRuleId::Obs008,
            LintSeverity::Error,
            event_type_label(record.event_type) + " event must have severity >= "@ + severity_label(min)
                + ", got "@ + severity_label(record.severity),
            source@,
        ),
    );

    // OBS-001: required fields
    if record.source_component.unicode_len() == 0 {
        push_finding(
            &mut findings,
            make_finding(LintRuleId::Obs001, LintSeverity::Error, String::from_str("source_component is empty"), source),
        );
    }
    proof {
        lemma_empty_append(findings_view(findings@));
        assert(findings_view(findings@) =~= f1);
    }
    if record.reason_human.unicode_len() == 0 {
        push_finding(
            &mut findings,
            make_finding(LintRuleId::Obs001, LintSeverity::Error, String::from_str("reason_human is empty"), source),
        );
    }
    proof {
        assert(findings_view(findings@) =~= f1 + f2);
    }
    // OBS-002: reason code format
    let code_str = record.reason_code.0.as_str();
    if !validate_reason_code_format(code_str) {
        let mut message = String::new();
        push_str(&mut message, "reason code '");
        push_str(&mut message, code_str);
        push_str(&mut message, "' does not match namespace.subject.detail pattern");
        push_finding(&mut findings, make_finding(LintRuleId::Obs002, LintSeverity::Error, message, source));
    }
    proof {
        assert(findings_view(findings@) =~= f1 + f2 + f3);
    }
    // OBS-003: reason code in registry
    if !is_registered_reason_code(code_str) {
        let mut message = String::new();
        push_str(&mut message, "reason code '");
        push_str(&mut message, code_str);
        push_str(&mut message, "' not found in ReasonCode registry");
        push_finding(&mut findings, make_finding(LintRuleId::Obs003, LintSeverity::Error, message, source));
    }
    proof {
        assert(findings_view(findings@) =~= f1 + f2 + f3 + f4);
    }
    // OBS-005: decision without expected loss
    if record.event_type == EvidenceEventType::Decision && !record.has_expected_loss {
        push_finding(
            &mut findings,
            make_finding(
                LintRuleId::Obs005,
                LintSeverity::Warning,
                String::from_str("decision event without expected_loss field"),
                source,
            ),
        );
    }
    proof {
        assert(findings_view(findings@) =~= f1 + f2 + f3 + f4 + f5);
    }
    // OBS-007: long reason text
    let human_len = record.reason_human.as_str().as_bytes().len();
    assert(human_len == utf8_len(record.reason_human@));
    if human_len > MAX_REASON_HUMAN_LEN {
        let mut message = String::new();
        push_str(&mut message, "reason_human text is ");
        push_decimal(&mut message, human_len as u64);
        push_str(&mut message, " chars (max 200)");
        push_finding(&mut findings, make_finding(LintRuleId::Obs007, LintSeverity::Info, message, source));
    }
    proof {
        assert(findings_view(findings@) =~= f1 + f2 + f3 + f4 + f5 + f6);
    }
    // OBS-008: severity consistency
    let min_severity = minimum_severity_for(record.event_type);
    if !severity_meets_minimum(record.severity, min_severity) {
        let mut message = String::new();
        push_str(&mut message, record.event_type.as_str());
        push_str(&mut message, " event must have severity >= ");
        push_str(&mut message, min_severity.as_str());
        push_str(&mut message, ", got ");
        push_str(&mut message, record.severity.as_str());
        push_finding(&mut findings, make_finding(LintRuleId::Obs008, LintSeverity::Error, message, source));
    }
    proof {
        assert(findings_view(findings@) =~= f1 + f2 + f3 + f4 + f5 + f6 + f7);
    }
    findings
}

// ---------------------------------------------------------------------------
// Stream lint
// ---------------------------------------------------------------------------
/// Whether the event id of record `i` occurs among the records before it.
pub open spec fn id_seen_before(rs: Seq<(String, EvidenceRecord)>, i: int) -> bool {
    exists|j: int| 0 <= j < i && (#[trigger] rs[j]).0@ == rs[i].0@
}

/// The findings for a stream: per record, a duplicate-id finding when its
/// event id occurred before, then the record's own findings attributed to its
/// source component.
pub open spec fn stream_findings(rs: Seq<(String, EvidenceRecord)>) -> Seq<FindingView>
    decreases rs.len(),
{
    if rs.len() == 0 {
        Seq::empty()
    } else {
        let i = rs.len() - 1;
        let (id, rec) = rs[i];
        stream_findings(rs.drop_last()) + finding_if(
            id_seen_before(rs, i),
            (LintRuleId::Obs009, LintSeverity::Error, "duplicate event_id: "@ + id@, rec.source_component@),
        ) + record_findings(rec, rec.source_component@)
    }
}

fn seen_before(records: &[(String, EvidenceRecord)], i: usize) -> (b: bool)
    requires
        i < records@.len(),
    ensures
        b == id_seen_before(records@, i as int),
{
    let mut j: usize = 0;
    while j < i
        invariant
            i < records@.len(),
            j <= i,
            forall|k: int| 0 <= k < j ==> (#[trigger] records@[k]).0@ != records@[i as int].0@,
        decreases i - j,
    {
        if str_eq(records[j].0.as_str(), records[i].0.as_str()) {
            assert(records@[j as int].0@ == records@[i as int].0@);
            return true;
        }
        j = j + 1;
    }
    false
}

/// Lint a stream of `(event_id, record)` pairs.
pub fn lint_stream(records: &[(String, EvidenceRecord)]) -> (report: LintReport)
    ensures
        findings_view(report.findings@) == stream_findings(records@),
{
    let mut report = LintReport::new();
    let mut i: usize = 0;
    while i < records.len()
        invariant
            i <= records@.len(),
            findings_view(report.findings@) == stream_findings(records@.take(i as int)),
        decreases records@.len() - i,
    {
        let ghost prefix = records@.take(i + 1);
        proof {
            assert(prefix.drop_last() =~= records@.take(i as int));
            assert(id_seen_before(prefix, i as int) == id_seen_before(records@, i as int)) by {
                if id_seen_before(records@, i as int) {
                    let j = choose|j: int| 0 <= j < i && (#[trigger] records@[j]).0@ == records@[i as int].0@;
                    assert(prefix[j] == records@[j]);
                }
                if id_seen_before(prefix, i as int) {
                    let j = choose|j: int| 0 <= j < i && (#[trigger] prefix[j]).0@ == prefix[i as int].0@;
                    assert(prefix[j] == records@[j]);
                }
            }
        }
        let (event_id, record) = &records[i];
        if seen_before(records, i) {
            let mut message = String::new();
            push_str(&mut message, "duplicate event_id: ");
            push_str(&mut message, event_id.as_str());
            push_finding(
                &mut report.findings,
                make_finding(LintRuleId::Obs009, LintSeverity::Error, message, record.source_component.as_str()),
            );
        }
        let mut own = lint_record(record, record.source_component.as_str());
        let ghost before = report.findings@;
        report.findings.append(&mut own);
        proof {
            assert(findings_view(report.findings@) =~= findings_view(before) + record_findings(
                *record,
                record.source_component@,
            ));
            lemma_empty_append(findings_view(before));
        }
        i = i + 1;
    }
    assert(records@.take(records@.len() as int) =~= records@);
    report
}

/// Whether some record comes from `component`.
pub open spec fn component_seen(rs: Seq<(String, EvidenceRecord)>, component: Seq<char>) -> bool {
    exists|j: int| 0 <= j < rs.len() && (#[trigger] rs[j]).1.source_component@ == component
}

/// A warning per expected component that emitted no records, in order.
pub open spec fn coverage_findings(rs: Seq<(String, EvidenceRecord)>, expected: Seq<Seq<char>>) -> Seq<
    FindingView,
>
    decreases expected.len(),
{
    if expected.len() == 0 {
        Seq::empty()
    } else {
        let c = expected.last();
        coverage_findings(rs, expected.drop_last()) + finding_if(
            !component_seen(rs, c),
            (LintRuleId::Obs004, LintSeverity::Warning, "component '"@ + c + "' emitted no evidence records"@, c),
        )
    }
}

fn has_component(records: &[(String, EvidenceRecord)], component: &str) -> (b: bool)
    ensures
        b == component_seen(records@, component@),
{
    let mut j: usize = 0;
    while j < records.len()
        invariant
            j <= records@.len(),
            forall|k: int| 0 <= k < j ==> (#[trigger] records@[k]).1.source_component@ != component@,
        decreases records@.len() - j,
    {
        if str_eq(records[j].1.source_component.as_str(), component) {
            assert(records@[j as int].1.source_component@ == component@);
            return true;
        }
        j = j + 1;
    }
    false
}

/// Check that each expected component appears in the evidence stream.
pub fn lint_component_coverage(records: &[(String, EvidenceRecord)], expected_components: &[&str]) -> (report:
    LintReport)
    ensures
        findings_view(report.findings@) == coverage_findings(records@, strs_view(expected_components@)),
{
    let mut report = LintReport::new();
    let ghost ex = strs_view(expected_components@);
    let mut i: usize = 0;
    while i < expected_components.len()
        invariant
            i <= expected_components@.len(),
            ex == strs_view(expected_components@),
            findings_view(report.findings@) == coverage_findings(records@, ex.take(i as int)),
        decreases expected_components@.len() - i,
    {
        proof {
            assert(ex.take(i + 1).drop_last() =~= ex.take(i as int));
            assert(ex.take(i + 1).last() == expected_components@[i as int]@);
        }
        let component = expected_components[i];
        if !has_component(records, component) {
            let mut message = String::new();
            push_str(&mut message, "component '");
            push_str(&mut message, component);
            push_str(&mut message, "' emitted no evidence records");
            push_finding(
                &mut report.findings,
                make_finding(LintRuleId::Obs004, LintSeverity::Warning, message, component),
            );
        } else {
            proof {
                lemma_empty_append(findings_view(report.findings@));
            }
        }
        i = i + 1;
    }
    assert(ex.take(ex.len() as int) =~= ex);
    report
}

/// A stream whose event ids are pairwise distinct draws no duplicate-id finding.
pub proof fn law_distinct_ids_no_duplicate_finding(rs: Seq<(String, EvidenceRecord)>)
    requires
        forall|i: int, j: int| 0 <= i < j < rs.len() ==> (#[trigger] rs[i]).0@ != (#[trigger] rs[j]).0@,
    ensures
        forall|k: int|
            0 <= k < stream_findings(rs).len() ==> (#[trigger] stream_findings(rs)[k]).0 != LintRuleId::Obs009,
    decreases rs.len(),
{
    if rs.len() > 0 {
        let p = rs.drop_last();
        assert forall|i: int, j: int| 0 <= i < j < p.len() implies (#[trigger] p[i]).0@ != (#[trigger] p[j]).0@ by {
            assert(p[i] == rs[i] && p[j] == rs[j]);
        }
        law_distinct_ids_no_duplicate_finding(p);
        let i = rs.len() - 1;
        assert(!id_seen_before(rs, i)) by {
            if id_seen_before(rs, i) {
                let j = choose|j: int| 0 <= j < i && (#[trigger] rs[j]).0@ == rs[i].0@;
                assert(rs[j].0@ != rs[i].0@);
            }
        }
        let rec = rs[i].1;
        let tail = record_findings(rec, rec.source_component@);
        assert forall|k: int| 0 <= k < tail.len() implies (#[trigger] tail[k]).0 != LintRuleId::Obs009 by {}
        let whole = stream_findings(rs);
        assert(whole == stream_findings(p) + Seq::<FindingView>::empty() + tail);
        assert forall|k: int| 0 <= k < whole.len() implies (#[trigger] whole[k]).0 != LintRuleId::Obs009 by {
            if k < stream_findings(p).len() {
                assert(whole[k] == stream_findings(p)[k]);
            } else {
                assert(whole[k] == tail[k - stream_findings(p).len()]);
            }
        }
    }
}


/// An alert or a degradation must be raised at least as a warning: such a
/// record raised as information gets a finding under OBS-008, an error; raised
/// as a warning or an error it gets none; and a record of any other event
/// type never gets one.
pub proof fn law_severity_floor(r: EvidenceRecord, source: Seq<char>)
    ensures
        (exists|i: int|
            0 <= i < record_findings(r, source).len() && (#[trigger] record_findings(r, source)[i]).0
                == LintRuleId::Obs008) <==> ((r.event_type == EvidenceEventType::Alert || r.event_type
            == EvidenceEventType::Degradation) && r.severity == Severity::Info),
        forall|i: int|
            0 <= i < record_findings(r, source).len() && (#[trigger] record_findings(r, source)[i]).0
                == LintRuleId::Obs008 ==> record_findings(r, source)[i].1 == LintSeverity::Error,
{
    let code = r.reason_code.0@;
    let min = minimum_severity(r.event_type);
    let head = finding_if(
        r.source_component@.len() == 0,
        (LintRuleId::Obs001, LintSeverity::Error, "source_component is empty"@, source),
    ) + finding_if(
        r.reason_human@.len() == 0,
        (LintRuleId::Obs001, LintSeverity::Error, "reason_human is empty"@, source),
    ) + finding_if(
        !valid_reason_code(code),
        (
            LintRuleId::Obs002,
            LintSeverity::Error,
            "reason code '"@ + code + "' does not match namespace.subject.detail pattern"@,
            source,
        ),
    ) + finding_if(
        !registered_codes().contains(code),
        (LintRuleId::Obs003, LintSeverity::Error, "reason code '"@ + code + "' not found in ReasonCode registry"@, source),
    ) + finding_if(
        r.event_type == EvidenceEventType::Decision && !r.has_expected_loss,
        (LintRuleId::Obs005, LintSeverity::Warning, "decision event without expected_loss field"@, source),
    ) + finding_if(
        utf8_len(r.reason_human@) > 200,
        (
            LintRuleId::Obs007,
            LintSeverity::Info,
            "reason_human text is "@ + decimal(utf8_len(r.reason_human@)) + " chars (max 200)"@,
            source,
        ),
    );
    let tail = finding_if(
        severity_rank(r.severity) < severity_rank(min),
        (
            LintRuleId::Obs008,
            LintSeverity::Error,
            event_type_label(r.event_type) + " event must have severity >= "@ + severity_label(min)
                + ", got "@ + severity_label(r.severity),
            source,
        ),
    );
    let all = record_findings(r, source);
    assert(all == head + tail);
    assert forall|i: int| 0 <= i < head.len() implies (#[trigger] head[i]).0 != LintRuleId::Obs008 by {}
    assert forall|i: int| 0 <= i < all.len() && (#[trigger] all[i]).0 == LintRuleId::Obs008 implies i >= head.len()
        && all[i] == tail[i - head.len()] by {
        if i < head.len() {
            assert(all[i] == head[i]);
        }
    }
    if (r.event_type == EvidenceEventType::Alert || r.event_type == EvidenceEventType::Degradation) && r.severity
        == Severity::Info {
        assert(tail.len() == 1);
        assert(all[head.len() as int] == tail[0]);
    }
}

} // verus!
