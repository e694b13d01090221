//! Interaction lane catalog for cross-feature composition testing.
//!
//! Each lane is a combination of ranking and control features that must be
//! tested together: its feature toggles, the corpus and query slices to
//! exercise, the phase behaviour to expect, its risk, and a deterministic
//! seed. The catalog is ordered by risk (high first), then by lane id.

use vstd::prelude::*;
use crate::text::{decimal, is_prefix, push_decimal, push_str, seq_lt, starts_with, str_eq, lemma_seq_lt_trans};

verus! {

// ---------------------------------------------------------------------------
// Query classes
// ---------------------------------------------------------------------------
/// Coarse class of a search query.
#[derive(Debug, Clone, Copy, PartialEq, Eq, Hash, Structural)]
pub enum QueryClass {
    /// Empty or whitespace-only query.
    Empty,
    /// Identifier-like query (symbols, paths, names).
    Identifier,
    /// A few keywords.
    ShortKeyword,
    /// A natural-language question or sentence.
    NaturalLanguage,
}

// ---------------------------------------------------------------------------
// Feature toggles
// ---------------------------------------------------------------------------
/// Which calibrator to activate for a lane.
#[derive(Debug, Clone, Copy, PartialEq, Eq, Hash, Structural)]
pub enum CalibratorChoice {
    /// No calibration (identity passthrough).
    Identity,
    /// Temperature scaling on raw scores.
    Temperature,
    /// Platt (logistic) scaling.
    Platt,
    /// Isotonic regression mapping.
    Isotonic,
}

/// Describes which ranking/control features are active for a given lane.
#[derive(Debug, Clone, Copy, PartialEq, Eq, Structural)]
pub struct FeatureToggles {
    /// Per-hit explanation generation.
    pub explain: bool,
    /// MMR diversified reranking.
    pub mmr: bool,
    /// Whether test queries contain negation syntax.
    pub negation_queries: bool,
    /// PRF query expansion.
    pub prf: bool,
    /// Adaptive fusion parameters.
    pub adaptive_fusion: bool,
    /// Score calibration variant.
    pub calibration: CalibratorChoice,
    /// Conformal prediction wrappers.
    pub conformal: bool,
    /// Quality-tier circuit breaker.
    pub circuit_breaker: bool,
    /// Implicit relevance feedback loop.
    pub feedback: bool,
}

/// Toggles from their values, in field order.
pub open spec fn toggles(
    explain: bool,
    mmr: bool,
    negation_queries: bool,
    prf: bool,
    adaptive_fusion: bool,
    calibration: CalibratorChoice,
    conformal: bool,
    circuit_breaker: bool,
    feedback: bool,
) -> FeatureToggles {
    FeatureToggles {
        explain,
        mmr,
        negation_queries,
        prf,
        adaptive_fusion,
        calibration,
        conformal,
        circuit_breaker,
        feedback,
    }
}

/// The production defaults: only the circuit breaker on.
pub open spec fn default_toggles() -> FeatureToggles {
    toggles(false, false, false, false, false, CalibratorChoice::Identity, false, true, false)
}

/// 1 when `differs`, else 0.
pub open spec fn indicator(differs: bool) -> nat {
    if differs {
        1
    } else {
        0
    }
}

/// Number of toggles that differ from the defaults.
pub open spec fn active_features(t: FeatureToggles) -> nat {
    let d = default_toggles();
    indicator(t.explain != d.explain) + indicator(t.mmr != d.mmr) + indicator(
        t.negation_queries != d.negation_queries,
    ) + indicator(t.prf != d.prf) + indicator(t.adaptive_fusion != d.adaptive_fusion) + indicator(
        t.calibration != d.calibration,
    ) + indicator(t.conformal != d.conformal) + indicator(t.circuit_breaker != d.circuit_breaker)
        + indicator(t.feedback != d.feedback)
}

impl Default for FeatureToggles {
    fn default() -> (t: Self)
        ensures
            t == default_toggles(),
    {
        FeatureToggles {
            explain: false,
            mmr: false,
            negation_queries: false,
            prf: false,
            adaptive_fusion: false,
            calibration: CalibratorChoice::Identity,
            conformal: false,
            circuit_breaker: true,
            feedback: false,
        }
    }
}

impl FeatureToggles {
    /// Count of non-default features active.
    pub fn active_count(&self) -> (n: usize)
        ensures
            n == active_features(*self),
    {
        let c1: usize = if self.explain {
            1
        } else {
            0
        };
        let c2: usize = if self.mmr {
            1
        } else {
            0
        };
        let c3: usize = if self.negation_queries {
            1
        } else {
            0
        };
        let c4: usize = if self.prf {
            1
        } else {
            0
        };
        let c5: usize = if self.adaptive_fusion {
            1
        } else {
            0
        };
        let c6: usize = if self.calibration != CalibratorChoice::Identity {
            1
        } else {
            0
        };
        let c7: usize = if self.conformal {
            1
        } else {
            0
        };
        let c8: usize = if !self.circuit_breaker {
            1
        } else {
            0
        };
        let c9: usize = if self.feedback {
            1
        } else {
            0
        };
        c1 + c2 + c3 + c4 + c5 + c6 + c7 + c8 + c9
    }
}

// ---------------------------------------------------------------------------
// Fixture slices
// ---------------------------------------------------------------------------
/// Which subset of the test corpus to use.
#[derive(Debug, Clone, Copy, PartialEq, Eq, Hash, Structural)]
pub enum CorpusSlice {
    /// All 120 documents (5 clusters + supplemental).
    Full,
    /// 20 Rust programming documents (`test-rust-*`).
    Rust,
    /// 20 ML/NLP documents (`test-ml-*`).
    Ml,
    /// 20 sysadmin/devops documents (`test-sysadmin-*`).
    Sysadmin,
    /// 20 cooking/recipe documents (`test-cooking-*`).
    Cooking,
    /// 20 cross-domain mixed documents (`test-mixed-*`).
    Mixed,
    /// Supplemental code/config/adversarial/log documents.
    Supplemental,
}

/// The primary doc id prefix of a slice.
pub open spec fn primary_prefix(s: CorpusSlice) -> Seq<char> {
    match s {
        CorpusSlice::Full => ""@,
        CorpusSlice::Rust => "test-rust-"@,
        CorpusSlice::Ml => "test-ml-"@,
        CorpusSlice::Sysadmin => "test-sysadmin-"@,
        CorpusSlice::Cooking => "test-cooking-"@,
        CorpusSlice::Mixed => "test-mixed-"@,
        CorpusSlice::Supplemental => "test-adversarial-"@,
    }
}

/// All doc id prefixes of a slice.
pub open spec fn slice_prefixes(s: CorpusSlice) -> Seq<Seq<char>> {
    match s {
        CorpusSlice::Full => Seq::empty(),
        CorpusSlice::Rust => seq!["test-rust-"@],
        CorpusSlice::Ml => seq!["test-ml-"@],
        CorpusSlice::Sysadmin => seq!["test-sysadmin-"@],
        CorpusSlice::Cooking => seq!["test-cooking-"@],
        CorpusSlice::Mixed => seq!["test-mixed-"@],
        CorpusSlice::Supplemental => seq!["test-code-"@, "test-config-"@, "test-adversarial-"@, "test-log-"@],
    }
}

/// Whether a document id belongs to a slice.
pub open spec fn slice_matches(s: CorpusSlice, doc_id: Seq<char>) -> bool {
    s == CorpusSlice::Full || exists|i: int|
        0 <= i < slice_prefixes(s).len() && is_prefix(#[trigger] slice_prefixes(s)[i], doc_id)
}

/// The views of a sequence of string slices.
pub open spec fn strs_view(v: Seq<&str>) -> Seq<Seq<char>> {
    v.map_values(|s: &str| s@)
}

impl CorpusSlice {
    /// Primary doc ID prefix for filtering the fixture corpus.
    pub fn id_prefix(self) -> (p: &'static str)
        ensures
            p@ == primary_prefix(self),
    {
        match self {
            CorpusSlice::Full => "",
            CorpusSlice::Rust => "test-rust-",
            CorpusSlice::Ml => "test-ml-",
            CorpusSlice::Sysadmin => "test-sysadmin-",
            CorpusSlice::Cooking => "test-cooking-",
            CorpusSlice::Mixed => "test-mixed-",
            CorpusSlice::Supplemental => "test-adversarial-",
        }
    }

    /// All doc ID prefixes included in this slice.
    pub fn id_prefixes(self) -> (ps: Vec<&'static str>)
        ensures
            strs_view(ps@) == slice_prefixes(self),
    {
        let ps = match self {
            CorpusSlice::Full => Vec::new(),
            CorpusSlice::Rust => vec!["test-rust-"],
            CorpusSlice::Ml => vec!["test-ml-"],
            CorpusSlice::Sysadmin => vec!["test-sysadmin-"],
            CorpusSlice::Cooking => vec!["test-cooking-"],
            CorpusSlice::Mixed => vec!["test-mixed-"],
            CorpusSlice::Supplemental => vec!["test-code-", "test-config-", "test-adversarial-", "test-log-"],
        };
        assert(strs_view(ps@) =~= slice_prefixes(self));
        ps
    }

    /// Whether a fixture document ID belongs to this slice.
    pub fn matches_doc_id(self, doc_id: &str) -> (b: bool)
        ensures
            b == slice_matches(self, doc_id@),
    {
        if self == CorpusSlice::Full {
            return true;
        }
        let ps = self.id_prefixes();
        let mut i: usize = 0;
        while i < ps.len()
            invariant
                i <= ps@.len(),
                strs_view(ps@) == slice_prefixes(self),
                forall|j: int| 0 <= j < i ==> !is_prefix(#[trigger] slice_prefixes(self)[j], doc_id@),
            decreases ps@.len() - i,
        {
            assert(slice_prefixes(self)[i as int] == ps@[i as int]@);
            if starts_with(doc_id, ps[i]) {
                return true;
            }
            i = i + 1;
        }
        false
    }

    /// Approximate document count in this slice.
    pub fn approx_count(self) -> (n: usize)
        ensures
            n == (if self == CorpusSlice::Full {
                120usize
            } else {
                20usize
            }),
    {
        match self {
            CorpusSlice::Full => 120,
            _ => 20,
        }
    }
}

/// The query classes exercised by default.
pub open spec fn default_classes() -> Seq<QueryClass> {
    seq![QueryClass::Identifier, QueryClass::ShortKeyword, QueryClass::NaturalLanguage]
}

/// Which query classes to exercise in a lane.
#[derive(Debug, Clone, PartialEq, Eq)]
pub struct QuerySlice {
    /// Query classes to include. Empty means all non-Empty classes.
    pub classes: Vec<QueryClass>,
    /// Whether to include negation-syntax variants of queries.
    pub include_negated: bool,
    /// Minimum number of queries per class to exercise.
    pub min_per_class: usize,
}

fn default_class_vec() -> (v: Vec<QueryClass>)
    ensures
        v@ == default_classes(),
{
    let v = vec![QueryClass::Identifier, QueryClass::ShortKeyword, QueryClass::NaturalLanguage];
    assert(v@ =~= default_classes());
    v
}

impl Default for QuerySlice {
    fn default() -> (q: Self)
        ensures
            q.classes@ == default_classes(),
            !q.include_negated,
            q.min_per_class == 2,
    {
        QuerySlice { classes: default_class_vec(), include_negated: false, min_per_class: 2 }
    }
}

// ---------------------------------------------------------------------------
// Expected phase behavior and risk
// ---------------------------------------------------------------------------
/// What phase behavior a lane expects from the progressive search iterator.
#[derive(Debug, Clone, Copy, PartialEq, Eq, Hash, Structural)]
pub enum ExpectedPhase {
    /// Phase 1 only.
    InitialOnly,
    /// Phase 1 then Phase 2 refinement.
    InitialThenRefined,
    /// Phase 2 may fail gracefully.
    InitialThenMaybeRefined,
}

/// How likely this interaction is to produce regressions.
#[derive(Debug, Clone, Copy, PartialEq, Eq, PartialOrd, Ord, Hash, Structural)]
pub enum RiskLevel {
    /// Features are mostly orthogonal.
    Low,
    /// Features share scoring paths or state.
    Medium,
    /// Features directly conflict or interfere.
    High,
}

/// Rank of a risk level: low < medium < high.
pub open spec fn risk_rank(r: RiskLevel) -> int {
    match r {
        RiskLevel::Low => 0,
        RiskLevel::Medium => 1,
        RiskLevel::High => 2,
    }
}

/// The name of a risk level as `Debug` prints it.
pub open spec fn risk_name(r: RiskLevel) -> Seq<char> {
    match r {
        RiskLevel::Low => "Low"@,
        RiskLevel::Medium => "Medium"@,
        RiskLevel::High => "High"@,
    }
}

impl RiskLevel {
    /// Whether this risk is at or above `min`.
    pub fn at_least(self, min: RiskLevel) -> (b: bool)
        ensures
            b == (risk_rank(self) >= risk_rank(min)),
    {
        let a: u8 = match self {
            RiskLevel::Low => 0,
            RiskLevel::Medium => 1,
            RiskLevel::High => 2,
        };
        let m: u8 = match min {
            RiskLevel::Low => 0,
            RiskLevel::Medium => 1,
            RiskLevel::High => 2,
        };
        a >= m
    }

    /// The name of the risk level as `Debug` prints it.
    pub fn name(self) -> (s: &'static str)
        ensures
            s@ == risk_name(self),
    {
        match self {
            RiskLevel::Low => "Low",
            RiskLevel::Medium => "Medium",
            RiskLevel::High => "High",
        }
    }
}

// ---------------------------------------------------------------------------
// Interaction lane
// ---------------------------------------------------------------------------
/// A single interaction lane in the regression matrix.
#[derive(Debug, Clone, PartialEq, Eq)]
pub struct InteractionLane {
    /// Stable lane identifier (e.g., `"explain_mmr"`).
    pub id: &'static str,
    /// Human-readable description of what this lane validates.
    pub description: &'static str,
    /// Bead IDs of the features being composed (for traceability).
    pub bead_refs: Vec<&'static str>,
    /// Which features are active.
    pub toggles: FeatureToggles,
    /// Which corpus slices to exercise.
    pub corpus_slices: Vec<CorpusSlice>,
    /// Query slice configuration.
    pub query_slice: QuerySlice,
    /// Expected phase behavior.
    pub expected_phase: ExpectedPhase,
    /// How risky is this composition.
    pub risk: RiskLevel,
    /// Deterministic seed for reproducible ordering.
    pub seed: u64,
}

/// A lane as plain values.
#[verifier::ext_equal]
pub struct LaneView {
    pub id: Seq<char>,
    pub description: Seq<char>,
    pub bead_refs: Seq<Seq<char>>,
    pub toggles: FeatureToggles,
    pub corpus_slices: Seq<CorpusSlice>,
    pub classes: Seq<QueryClass>,
    pub include_negated: bool,
    pub min_per_class: usize,
    pub expected_phase: ExpectedPhase,
    pub risk: RiskLevel,
    pub seed: u64,
}

/// The plain values of a lane.
pub open spec fn lane_view(l: InteractionLane) -> LaneView {
    LaneView {
        id: l.id@,
        description: l.description@,
        bead_refs: strs_view(l.bead_refs@),
        toggles: l.toggles,
        corpus_slices: l.corpus_slices@,
        classes: l.query_slice.classes@,
        include_negated: l.query_slice.include_negated,
        min_per_class: l.query_slice.min_per_class,
        expected_phase: l.expected_phase,
        risk: l.risk,
        seed: l.seed,
    }
}

/// The plain values of a sequence of lanes.
pub open spec fn lanes_view(s: Seq<InteractionLane>) -> Seq<LaneView> {
    s.map_values(|l: InteractionLane| lane_view(l))
}

/// The display text of a lane: `lane[id] risk=Risk features=n | description`.
pub open spec fn lane_text(v: LaneView) -> Seq<char> {
    "lane["@ + v.id + "] risk="@ + risk_name(v.risk) + " features="@ + decimal(active_features(v.toggles))
        + " | "@ + v.description
}

impl InteractionLane {
    /// The display text of the lane.
    pub fn to_display_string(&self) -> (s: String)
        ensures
            s@ == lane_text(lane_view(*self)),
    {
        let mut s = String::new();
        push_str(&mut s, "lane[");
        push_str(&mut s, self.id);
        push_str(&mut s, "] risk=");
        push_str(&mut s, self.risk.name());
        push_str(&mut s, " features=");
        push_decimal(&mut s, self.toggles.active_count() as u64);
        push_str(&mut s, " | ");
        push_str(&mut s, self.description);
        proof {
            assert(s@ =~= lane_text(lane_view(*self)));
        }
        s
    }
}

// ---------------------------------------------------------------------------
// Canonical lane catalog
// ---------------------------------------------------------------------------
/// A lane's plain values from its parts, with no query classes set.
pub open spec fn lane_spec(
    id: Seq<char>,
    description: Seq<char>,
    bead_refs: Seq<Seq<char>>,
    toggles: FeatureToggles,
    corpus_slices: Seq<CorpusSlice>,
    include_negated: bool,
    min_per_class: usize,
    expected_phase: ExpectedPhase,
    risk: RiskLevel,
    seed: u64,
) -> LaneView {
    LaneView {
        id,
        description,
        bead_refs,
        toggles,
        corpus_slices,
        classes: Seq::empty(),
        include_negated,
        min_per_class,
        expected_phase,
        risk,
        seed,
    }
}

fn make_lane(
    id: &'static str,
    description: &'static str,
    bead_refs: Vec<&'static str>,
    toggles: FeatureToggles,
    corpus_slices: Vec<CorpusSlice>,
    include_negated: bool,
    min_per_class: usize,
    expected_phase: ExpectedPhase,
    risk: RiskLevel,
    seed: u64,
) -> (l: InteractionLane)
    ensures
        lane_view(l) == lane_spec(
            id@,
            description@,
            strs_view(bead_refs@),
            toggles,
            corpus_slices@,
            include_negated,
            min_per_class,
            expected_phase,
            risk,
            seed,
        ),
{
    let l = InteractionLane {
        id,
        description,
        bead_refs,
        toggles,
        corpus_slices,
        query_slice: QuerySlice { classes: Vec::new(), include_negated, min_per_class },
        expected_phase,
        risk,
        seed,
    };
    assert(lane_view(l) =~= lane_spec(
        id@,
        description@,
        strs_view(l.bead_refs@),
        toggles,
        l.corpus_slices@,
        include_negated,
        min_per_class,
        expected_phase,
        risk,
        seed,
    ));
    l
}

/// Explanations + MMR diversity reranking.
pub open spec fn explain_mmr_spec() -> LaneView {
    lane_spec(
        "explain_mmr"@,
        "Explanations reflect MMR-reranked ordering and rank movements"@,
        seq!["bd-11n"@, "bd-z3j"@],
        toggles(true, true, false, false, false, CalibratorChoice::Identity, false, true, false),
        seq![CorpusSlice::Full],
        false,
        2,
        ExpectedPhase::InitialThenRefined,
        RiskLevel::High,
        0xCAFE_0001,
    )
}

/// Lane 1: Explanations + MMR diversity reranking.
#[allow(non_snake_case)]
pub fn LANE_EXPLAIN_MMR() -> (l: InteractionLane)
    ensures
        lane_view(l) == explain_mmr_spec(),
{
    let beads = vec!["bd-11n", "bd-z3j"];
    let slices = vec![CorpusSlice::Full];
    assert(strs_view(beads@) =~= seq!["bd-11n"@, "bd-z3j"@]);
    assert(slices@ =~= seq![CorpusSlice::Full]);
    make_lane(
        "explain_mmr",
        "Explanations reflect MMR-reranked ordering and rank movements",
        beads,
        FeatureToggles {
            explain: true,
            mmr: true,
            negation_queries: false,
            prf: false,
            adaptive_fusion: false,
            calibration: CalibratorChoice::Identity,
            conformal: false,
            circuit_breaker: true,
            feedback: false,
        },
        slices,
        false,
        2,
        ExpectedPhase::InitialThenRefined,
        RiskLevel::High,
        0xCAFE_0001,
    )
}

/// Explanations + exclusion query parsing.
pub open spec fn explain_negation_spec() -> LaneView {
    lane_spec(
        "explain_negation"@,
        "Explanations correctly handle excluded terms/phrases in queries"@,
        seq!["bd-11n"@, "bd-2n6"@],
        toggles(true, false, true, false, false, CalibratorChoice::Identity, false, true, false),
        seq![CorpusSlice::Rust, CorpusSlice::Mixed],
        true,
        3,
        ExpectedPhase::InitialThenRefined,
        RiskLevel::Medium,
        0xCAFE_0002,
    )
}

/// Lane 2: Explanations + exclusion query parsing.
#[allow(non_snake_case)]
pub fn LANE_EXPLAIN_NEGATION() -> (l: InteractionLane)
    ensures
        lane_view(l) == explain_negation_spec(),
{
    let beads = vec!["bd-11n", "bd-2n6"];
    let slices = vec![CorpusSlice::Rust, CorpusSlice::Mixed];
    assert(strs_view(beads@) =~= seq!["bd-11n"@, "bd-2n6"@]);
    assert(slices@ =~= seq![CorpusSlice::Rust, CorpusSlice::Mixed]);
    make_lane(
        "explain_negation",
        "Explanations correctly handle excluded terms/phrases in queries",
        beads,
        FeatureToggles {
            explain: true,
            mmr: false,
            negation_queries: true,
            prf: false,
            adaptive_fusion: false,
            calibration: CalibratorChoice::Identity,
            conformal: false,
            circuit_breaker: true,
            feedback: false,
        },
        slices,
        true,
        3,
        ExpectedPhase::InitialThenRefined,
        RiskLevel::Medium,
        0xCAFE_0002,
    )
}

/// PRF expansion + exclusion query parsing.
pub open spec fn prf_negation_spec() -> LaneView {
    lane_spec(
        "prf_negation"@,
        "PRF expansion respects negation — excludes negative hits from centroid"@,
        seq!["bd-3st"@, "bd-2n6"@],
        toggles(false, false, true, true, false, CalibratorChoice::Identity, false, true, false),
        seq![CorpusSlice::Full],
        true,
        2,
        ExpectedPhase::InitialThenRefined,
        RiskLevel::High,
        0xCAFE_0003,
    )
}

/// Lane 3: PRF expansion + exclusion query parsing.
#[allow(non_snake_case)]
pub fn LANE_PRF_NEGATION() -> (l: InteractionLane)
    ensures
        lane_view(l) == prf_negation_spec(),
{
    let beads = vec!["bd-3st", "bd-2n6"];
    let slices = vec![CorpusSlice::Full];
    assert(strs_view(beads@) =~= seq!["bd-3st"@, "bd-2n6"@]);
    assert(slices@ =~= seq![CorpusSlice::Full]);
    make_lane(
        "prf_negation",
        "PRF expansion respects negation — excludes negative hits from centroid",
        beads,
        FeatureToggles {
            explain: false,
            mmr: false,
            negation_queries: true,
            prf: true,
            adaptive_fusion: false,
            calibration: CalibratorChoice::Identity,
            conformal: false,
            circuit_breaker: true,
            feedback: false,
        },
        slices,
        true,
        2,
        ExpectedPhase::InitialThenRefined,
        RiskLevel::High,
        0xCAFE_0003,
    )
}

/// Adaptive fusion + score calibration + conformal wrappers.
pub open spec fn adaptive_calibration_conformal_spec() -> LaneView {
    lane_spec(
        "adaptive_calibration_conformal"@,
        "Calibrated scores feed adaptive posteriors; conformal coverage holds"@,
        seq!["bd-21g"@, "bd-22k"@, "bd-2yj"@],
        toggles(false, false, false, false, true, CalibratorChoice::Platt, true, true, false),
        seq![CorpusSlice::Full],
        false,
        3,
        ExpectedPhase::InitialThenRefined,
        RiskLevel::High,
        0xCAFE_0004,
    )
}

/// Lane 4: Adaptive fusion + score calibration + conformal wrappers.
#[allow(non_snake_case)]
pub fn LANE_ADAPTIVE_CALIBRATION_CONFORMAL() -> (l: InteractionLane)
    ensures
        lane_view(l) == adaptive_calibration_conformal_spec(),
{
    let beads = vec!["bd-21g", "bd-22k", "bd-2yj"];
    let slices = vec![CorpusSlice::Full];
    assert(strs_view(beads@) =~= seq!["bd-21g"@, "bd-22k"@, "bd-2yj"@]);
    assert(slices@ =~= seq![CorpusSlice::Full]);
    make_lane(
        "adaptive_calibration_conformal",
        "Calibrated scores feed adaptive posteriors; conformal coverage holds",
        beads,
        FeatureToggles {
            explain: false,
            mmr: false,
            negation_queries: false,
            prf: false,
            adaptive_fusion: true,
            calibration: CalibratorChoice::Platt,
            conformal: true,
            circuit_breaker: true,
            feedback: false,
        },
        slices,
        false,
        3,
        ExpectedPhase::InitialThenRefined,
        RiskLevel::High,
        0xCAFE_0004,
    )
}

/// Circuit breaker + adaptive fusion + implicit feedback.
pub open spec fn breaker_adaptive_feedback_spec() -> LaneView {
    lane_spec(
        "breaker_adaptive_feedback"@,
        "Circuit breaker trip degrades adaptive fusion; feedback still applies"@,
        seq!["bd-1do"@, "bd-21g"@, "bd-2tv"@],
        toggles(false, false, false, false, true, CalibratorChoice::Identity, false, true, true),
        seq![CorpusSlice::Ml, CorpusSlice::Mixed],
        false,
        2,
        ExpectedPhase::InitialThenMaybeRefined,
        RiskLevel::High,
        0xCAFE_0005,
    )
}

/// Lane 5: Circuit breaker + adaptive fusion + implicit feedback.
#[allow(non_snake_case)]
pub fn LANE_BREAKER_ADAPTIVE_FEEDBACK() -> (l: InteractionLane)
    ensures
        lane_view(l) == breaker_adaptive_feedback_spec(),
{
    let beads = vec!["bd-1do", "bd-21g", "bd-2tv"];
    let slices = vec![CorpusSlice::Ml, CorpusSlice::Mixed];
    assert(strs_view(beads@) =~= seq!["bd-1do"@, "bd-21g"@, "bd-2tv"@]);
    assert(slices@ =~= seq![CorpusSlice::Ml, CorpusSlice::Mixed]);
    make_lane(
        "breaker_adaptive_feedback",
        "Circuit breaker trip degrades adaptive fusion; feedback still applies",
        beads,
        FeatureToggles {
            explain: false,
            mmr: false,
            negation_queries: false,
            prf: false,
            adaptive_fusion: true,
            calibration: CalibratorChoice::Identity,
            conformal: false,
            circuit_breaker: true,
            feedback: true,
        },
        slices,
        false,
        2,
        ExpectedPhase::InitialThenMaybeRefined,
        RiskLevel::High,
        0xCAFE_0005,
    )
}

/// MMR + feedback: diversity vs boost conflict.
pub open spec fn mmr_feedback_spec() -> LaneView {
    lane_spec(
        "mmr_feedback"@,
        "MMR diversity and feedback boosts produce deterministic stable order"@,
        seq!["bd-z3j"@, "bd-2tv"@],
        toggles(false, true, false, false, false, CalibratorChoice::Identity, false, true, true),
        seq![CorpusSlice::Cooking, CorpusSlice::Mixed],
        false,
        2,
        ExpectedPhase::InitialThenRefined,
        RiskLevel::Medium,
        0xCAFE_0006,
    )
}

/// Lane 6: MMR + feedback: diversity vs boost conflict.
#[allow(non_snake_case)]
pub fn LANE_MMR_FEEDBACK() -> (l: InteractionLane)
    ensures
        lane_view(l) == mmr_feedback_spec(),
{
    let beads = vec!["bd-z3j", "bd-2tv"];
    let slices = vec![CorpusSlice::Cooking, CorpusSlice::Mixed];
    assert(strs_view(beads@) =~= seq!["bd-z3j"@, "bd-2tv"@]);
    assert(slices@ =~= seq![CorpusSlice::Cooking, CorpusSlice::Mixed]);
    make_lane(
        "mmr_feedback",
        "MMR diversity and feedback boosts produce deterministic stable order",
        beads,
        FeatureToggles {
            explain: false,
            mmr: true,
            negation_queries: false,
            prf: false,
            adaptive_fusion: false,
            calibration: CalibratorChoice::Identity,
            conformal: false,
            circuit_breaker: true,
            feedback: true,
        },
        slices,
        false,
        2,
        ExpectedPhase::InitialThenRefined,
        RiskLevel::Medium,
        0xCAFE_0006,
    )
}

/// PRF + adaptive fusion: expanded query meets learned parameters.
pub open spec fn prf_adaptive_spec() -> LaneView {
    lane_spec(
        "prf_adaptive"@,
        "PRF-expanded query uses adaptive blend/K; posterior updates on expanded results"@,
        seq!["bd-3st"@, "bd-21g"@],
        toggles(false, false, false, true, true, CalibratorChoice::Identity, false, true, false),
        seq![CorpusSlice::Full],
        false,
        2,
        ExpectedPhase::InitialThenRefined,
        RiskLevel::Medium,
        0xCAFE_0007,
    )
}

/// Lane 7: PRF + adaptive fusion: expanded query meets learned parameters.
#[allow(non_snake_case)]
pub fn LANE_PRF_ADAPTIVE() -> (l: InteractionLane)
    ensures
        lane_view(l) == prf_adaptive_spec(),
{
    let beads = vec!["bd-3st", "bd-21g"];
    let slices = vec![CorpusSlice::Full];
    assert(strs_view(beads@) =~= seq!["bd-3st"@, "bd-21g"@]);
    assert(slices@ =~= seq![CorpusSlice::Full]);
    make_lane(
        "prf_adaptive",
        "PRF-expanded query uses adaptive blend/K; posterior updates on expanded results",
        beads,
        FeatureToggles {
            explain: false,
            mmr: false,
            negation_queries: false,
            prf: true,
            adaptive_fusion: true,
            calibration: CalibratorChoice::Identity,
            conformal: false,
            circuit_breaker: true,
            feedback: false,
        },
        slices,
        false,
        2,
        ExpectedPhase::InitialThenRefined,
        RiskLevel::Medium,
        0xCAFE_0007,
    )
}

/// Calibration + conformal: distribution assumptions.
pub open spec fn calibration_conformal_spec() -> LaneView {
    lane_spec(
        "calibration_conformal"@,
        "Conformal coverage holds under Temperature, Platt, and Isotonic calibrators"@,
        seq!["bd-22k"@, "bd-2yj"@],
        toggles(false, false, false, false, false, CalibratorChoice::Temperature, true, true, false),
        seq![CorpusSlice::Full],
        false,
        2,
        ExpectedPhase::InitialThenRefined,
        RiskLevel::Medium,
        0xCAFE_0008,
    )
}

/// Lane 8: Calibration + conformal: distribution assumptions.
#[allow(non_snake_case)]
pub fn LANE_CALIBRATION_CONFORMAL() -> (l: InteractionLane)
    ensures
        lane_view(l) == calibration_conformal_spec(),
{
    let beads = vec!["bd-22k", "bd-2yj"];
    let slices = vec![CorpusSlice::Full];
    assert(strs_view(beads@) =~= seq!["bd-22k"@, "bd-2yj"@]);
    assert(slices@ =~= seq![CorpusSlice::Full]);
    make_lane(
        "calibration_conformal",
        "Conformal coverage holds under Temperature, Platt, and Isotonic calibrators",
        beads,
        FeatureToggles {
            explain: false,
            mmr: false,
            negation_queries: false,
            prf: false,
            adaptive_fusion: false,
            calibration: CalibratorChoice::Temperature,
            conformal: true,
            circuit_breaker: true,
            feedback: false,
        },
        slices,
        false,
        2,
        ExpectedPhase::InitialThenRefined,
        RiskLevel::Medium,
        0xCAFE_0008,
    )
}

/// Explain + calibration: explanation scores reflect calibrated values.
pub open spec fn explain_calibration_spec() -> LaneView {
    lane_spec(
        "explain_calibration"@,
        "Explanation normalized_score values reflect post-calibration scores"@,
        seq!["bd-11n"@, "bd-22k"@],
        toggles(true, false, false, false, false, CalibratorChoice::Platt, false, true, false),
        seq![CorpusSlice::Ml, CorpusSlice::Rust],
        false,
        2,
        ExpectedPhase::InitialThenRefined,
        RiskLevel::Medium,
        0xCAFE_0009,
    )
}

/// Lane 9: Explain + calibration: explanation scores reflect calibrated values.
#[allow(non_snake_case)]
pub fn LANE_EXPLAIN_CALIBRATION() -> (l: InteractionLane)
    ensures
        lane_view(l) == explain_calibration_spec(),
{
    let beads = vec!["bd-11n", "bd-22k"];
    let slices = vec![CorpusSlice::Ml, CorpusSlice::Rust];
    assert(strs_view(beads@) =~= seq!["bd-11n"@, "bd-22k"@]);
    assert(slices@ =~= seq![CorpusSlice::Ml, CorpusSlice::Rust]);
    make_lane(
        "explain_calibration",
        "Explanation normalized_score values reflect post-calibration scores",
        beads,
        FeatureToggles {
            explain: true,
            mmr: false,
            negation_queries: false,
            prf: false,
            adaptive_fusion: false,
            calibration: CalibratorChoice::Platt,
            conformal: false,
            circuit_breaker: true,
            feedback: false,
        },
        slices,
        false,
        2,
        ExpectedPhase::InitialThenRefined,
        RiskLevel::Medium,
        0xCAFE_0009,
    )
}

/// Circuit breaker tripped + explain: explanation in degraded mode.
pub open spec fn breaker_explain_spec() -> LaneView {
    lane_spec(
        "breaker_explain"@,
        "Explanations in degraded mode (circuit breaker tripped) are complete for Phase 1"@,
        seq!["bd-1do"@, "bd-11n"@],
        toggles(true, false, false, false, false, CalibratorChoice::Identity, false, true, false),
        seq![CorpusSlice::Full],
        false,
        2,
        ExpectedPhase::InitialThenMaybeRefined,
        RiskLevel::High,
        0xCAFE_000A,
    )
}

/// Lane 10: Circuit breaker tripped + explain: explanation in degraded mode.
#[allow(non_snake_case)]
pub fn LANE_BREAKER_EXPLAIN() -> (l: InteractionLane)
    ensures
        lane_view(l) == breaker_explain_spec(),
{
    let beads = vec!["bd-1do", "bd-11n"];
    let slices = vec![CorpusSlice::Full];
    assert(strs_view(beads@) =~= seq!["bd-1do"@, "bd-11n"@]);
    assert(slices@ =~= seq![CorpusSlice::Full]);
    make_lane(
        "breaker_explain",
        "Explanations in degraded mode (circuit breaker tripped) are complete for Phase 1",
        beads,
        FeatureToggles {
            explain: true,
            mmr: false,
            negation_queries: false,
            prf: false,
            adaptive_fusion: false,
            calibration: CalibratorChoice::Identity,
            conformal: false,
            circuit_breaker: true,
            feedback: false,
        },
        slices,
        false,
        2,
        ExpectedPhase::InitialThenMaybeRefined,
        RiskLevel::High,
        0xCAFE_000A,
    )
}

/// Full kitchen sink: all features active simultaneously.
pub open spec fn kitchen_sink_spec() -> LaneView {
    lane_spec(
        "kitchen_sink"@,
        "All features active simultaneously — catches emergent interactions"@,
        seq![
            "bd-11n"@,
            "bd-z3j"@,
            "bd-2n6"@,
            "bd-3st"@,
            "bd-21g"@,
            "bd-22k"@,
            "bd-2yj"@,
            "bd-1do"@,
            "bd-2tv"@,
        ],
        toggles(true, true, true, true, true, CalibratorChoice::Platt, true, true, true),
        seq![CorpusSlice::Full],
        true,
        3,
        ExpectedPhase::InitialThenRefined,
        RiskLevel::High,
        0xCAFE_00FF,
    )
}

/// Lane 11: Full kitchen sink: all features active simultaneously.
#[allow(non_snake_case)]
pub fn LANE_KITCHEN_SINK() -> (l: InteractionLane)
    ensures
        lane_view(l) == kitchen_sink_spec(),
{
    let beads = vec!["bd-11n", "bd-z3j", "bd-2n6", "bd-3st", "bd-21g", "bd-22k", "bd-2yj", "bd-1do", "bd-2tv"];
    let slices = vec![CorpusSlice::Full];
    assert(strs_view(beads@) =~= seq![
        "bd-11n"@,
        "bd-z3j"@,
        "bd-2n6"@,
        "bd-3st"@,
        "bd-21g"@,
        "bd-22k"@,
        "bd-2yj"@,
        "bd-1do"@,
        "bd-2tv"@,
    ]);
    assert(slices@ =~= seq![CorpusSlice::Full]);
    make_lane(
        "kitchen_sink",
        "All features active simultaneously — catches emergent interactions",
        beads,
        FeatureToggles {
            explain: true,
            mmr: true,
            negation_queries: true,
            prf: true,
            adaptive_fusion: true,
            calibration: CalibratorChoice::Platt,
            conformal: true,
            circuit_breaker: true,
            feedback: true,
        },
        slices,
        true,
        3,
        ExpectedPhase::InitialThenRefined,
        RiskLevel::High,
        0xCAFE_00FF,
    )
}

/// Baseline: no optional features.
pub open spec fn baseline_spec() -> LaneView {
    lane_spec(
        "baseline"@,
        "No optional features — control lane for baseline metrics comparison"@,
        Seq::empty(),
        default_toggles(),
        seq![CorpusSlice::Full],
        false,
        3,
        ExpectedPhase::InitialThenRefined,
        RiskLevel::Low,
        0xCAFE_0000,
    )
}

/// Lane 12: Baseline: no optional features.
#[allow(non_snake_case)]
pub fn LANE_BASELINE() -> (l: InteractionLane)
    ensures
        lane_view(l) == baseline_spec(),
{
    let beads: Vec<&'static str> = Vec::new();
    let slices = vec![CorpusSlice::Full];
    assert(strs_view(beads@) =~= Seq::<Seq<char>>::empty());
    assert(slices@ =~= seq![CorpusSlice::Full]);
    make_lane(
        "baseline",
        "No optional features — control lane for baseline metrics comparison",
        beads,
        FeatureToggles::default(),
        slices,
        false,
        3,
        ExpectedPhase::InitialThenRefined,
        RiskLevel::Low,
        0xCAFE_0000,
    )
}

// ---------------------------------------------------------------------------
// Catalog accessor
// ---------------------------------------------------------------------------
/// A lane with the default query classes filled in when it has none.
pub open spec fn with_default_classes(v: LaneView) -> LaneView {
    if v.classes.len() == 0 {
        LaneView { classes: default_classes(), ..v }
    } else {
        v
    }
}

/// The catalog: every lane with default query classes, ordered by risk
/// (high first), then by id.
pub open spec fn catalog_views() -> Seq<LaneView> {
    seq![
        with_default_classes(adaptive_calibration_conformal_spec()),
        with_default_classes(breaker_adaptive_feedback_spec()),
        with_default_classes(breaker_explain_spec()),
        with_default_classes(explain_mmr_spec()),
        with_default_classes(kitchen_sink_spec()),
        with_default_classes(prf_negation_spec()),
        with_default_classes(calibration_conformal_spec()),
        with_default_classes(explain_calibration_spec()),
        with_default_classes(explain_negation_spec()),
        with_default_classes(mmr_feedback_spec()),
        with_default_classes(prf_adaptive_spec()),
        with_default_classes(baseline_spec()),
    ]
}

/// Fills in the query slice with default classes when it is empty.
fn lane_with_default_query_slice(lane: InteractionLane) -> (l: InteractionLane)
    ensures
        lane_view(l) == with_default_classes(lane_view(lane)),
{
    let mut lane = lane;
    if lane.query_slice.classes.len() == 0 {
        lane.query_slice.classes = default_class_vec();
        assert(lane_view(lane) =~= with_default_classes(lane_view(lane)));
    }
    lane
}

/// Returns the full interaction lane catalog, ordered by risk level (high
/// first), then by id.
pub fn lane_catalog() -> (catalog: Vec<InteractionLane>)
    ensures
        lanes_view(catalog@) == catalog_views(),
{
    let catalog = vec![
        lane_with_default_query_slice(LANE_ADAPTIVE_CALIBRATION_CONFORMAL()),
        lane_with_default_query_slice(LANE_BREAKER_ADAPTIVE_FEEDBACK()),
        lane_with_default_query_slice(LANE_BREAKER_EXPLAIN()),
        lane_with_default_query_slice(LANE_EXPLAIN_MMR()),
        lane_with_default_query_slice(LANE_KITCHEN_SINK()),
        lane_with_default_query_slice(LANE_PRF_NEGATION()),
        lane_with_default_query_slice(LANE_CALIBRATION_CONFORMAL()),
        lane_with_default_query_slice(LANE_EXPLAIN_CALIBRATION()),
        lane_with_default_query_slice(LANE_EXPLAIN_NEGATION()),
        lane_with_default_query_slice(LANE_MMR_FEEDBACK()),
        lane_with_default_query_slice(LANE_PRF_ADAPTIVE()),
        lane_with_default_query_slice(LANE_BASELINE()),
    ];
    assert(lanes_view(catalog@) =~= catalog_views());
    catalog
}

/// The ids of a sequence of lane views.
pub open spec fn view_ids(s: Seq<LaneView>) -> Seq<Seq<char>> {
    s.map_values(|v: LaneView| v.id)
}

/// Returns lane IDs only, in catalog order.
pub fn lane_ids() -> (ids: Vec<&'static str>)
    ensures
        strs_view(ids@) == view_ids(catalog_views()),
{
    let catalog = lane_catalog();
    let mut ids: Vec<&'static str> = Vec::new();
    let mut i: usize = 0;
    while i < catalog.len()
        invariant
            i <= catalog@.len(),
            lanes_view(catalog@) == catalog_views(),
            strs_view(ids@) == view_ids(catalog_views()).take(i as int),
        decreases catalog@.len() - i,
    {
        let ghost before = ids@;
        ids.push(catalog[i].id);
        proof {
            assert(lanes_view(catalog@)[i as int] == lane_view(catalog@[i as int]));
            assert(view_ids(catalog_views())[i as int] == catalog@[i as int].id@);
            assert(strs_view(ids@) =~= strs_view(before).push(catalog@[i as int].id@));
            assert(view_ids(catalog_views()).take(i + 1) =~= view_ids(catalog_views()).take(i as int).push(
                view_ids(catalog_views())[i as int],
            ));
        }
        i = i + 1;
    }
    assert(view_ids(catalog_views()).take(catalog@.len() as int) =~= view_ids(catalog_views()));
    ids
}

/// Index of the first lane view with id `id`.
pub open spec fn lane_index(s: Seq<LaneView>, id: Seq<char>) -> Option<int>
    decreases s.len(),
{
    if s.len() == 0 {
        None
    } else if s[0].id == id {
        Some(0)
    } else {
        match lane_index(s.drop_first(), id) {
            Some(i) => Some(i + 1),
            None => None,
        }
    }
}

proof fn lemma_lane_index_at(s: Seq<LaneView>, id: Seq<char>, i: int)
    requires
        0 <= i < s.len(),
        forall|j: int| 0 <= j < i ==> (#[trigger] s[j]).id != id,
        s[i].id == id,
    ensures
        lane_index(s, id) == Some(i),
    decreases i,
{
    if i > 0 {
        lemma_lane_index_at(s.drop_first(), id, i - 1);
    }
}

proof fn lemma_lane_index_none(s: Seq<LaneView>, id: Seq<char>)
    requires
        forall|j: int| 0 <= j < s.len() ==> (#[trigger] s[j]).id != id,
    ensures
        lane_index(s, id) is None,
    decreases s.len(),
{
    if s.len() > 0 {
        lemma_lane_index_none(s.drop_first(), id);
    }
}

/// Look up a lane by ID. Returns `None` if not found.
pub fn lane_by_id(id: &str) -> (r: Option<InteractionLane>)
    ensures
        match lane_index(catalog_views(), id@) {
            Some(i) => r is Some && lane_view(r->0) == catalog_views()[i],
            None => r is None,
        },
{
    let mut catalog = lane_catalog();
    let ghost cv = catalog_views();
    let mut i: usize = 0;
    while i < catalog.len()
        invariant
            i <= catalog@.len(),
            cv == catalog_views(),
            lanes_view(catalog@) == cv,
            forall|j: int| 0 <= j < i ==> (#[trigger] cv[j]).id != id@,
        decreases catalog@.len() - i,
    {
        assert(cv[i as int] == lane_view(catalog@[i as int]));
        if str_eq(catalog[i].id, id) {
            proof {
                lemma_lane_index_at(cv, id@, i as int);
            }
            let lane = catalog.remove(i);
            return Some(lane);
        }
        i = i + 1;
    }
    proof {
        lemma_lane_index_none(cv, id@);
    }
    None
}

/// The risk filter on lane views.
pub open spec fn risk_at_least(min: RiskLevel) -> spec_fn(LaneView) -> bool {
    |v: LaneView| risk_rank(v.risk) >= risk_rank(min)
}

/// Returns only lanes at or above the given risk level, in catalog order.
pub fn lanes_at_risk(min_risk: RiskLevel) -> (lanes: Vec<InteractionLane>)
    ensures
        lanes_view(lanes@) == catalog_views().filter(risk_at_least(min_risk)),
{
    broadcast use Seq::lemma_filter_push;

    let mut catalog = lane_catalog();
    let ghost cv = catalog_views();
    let ghost pred = risk_at_least(min_risk);
    let mut out: Vec<InteractionLane> = Vec::new();
    let mut k: usize = 0;
    while catalog.len() > 0
        invariant
            cv == catalog_views(),
            pred == risk_at_least(min_risk),
            k + catalog@.len() == cv.len(),
            lanes_view(catalog@) == cv.skip(k as int),
            lanes_view(out@) == cv.take(k as int).filter(pred),
        decreases catalog@.len(),
    {
        let ghost before = catalog@;
        let lane = catalog.remove(0);
        proof {
            assert(lane_view(lane) == cv[k as int]) by {
                assert(lanes_view(before)[0] == cv.skip(k as int)[0]);
            }
            assert(lanes_view(catalog@) =~= cv.skip(k + 1)) by {
                assert forall|j: int| 0 <= j < catalog@.len() implies lanes_view(catalog@)[j] == cv.skip(
                    k + 1,
                )[j] by {
                    assert(catalog@[j] == before[j + 1]);
                    assert(lanes_view(before)[j + 1] == cv.skip(k as int)[j + 1]);
                }
            }
            assert(cv.take(k + 1) =~= cv.take(k as int).push(cv[k as int]));
            assert(pred(cv[k as int]) == (risk_rank(lane.risk) >= risk_rank(min_risk)));
            cv.take(k as int).lemma_filter_push(cv[k as int], pred);
        }
        if lane.risk.at_least(min_risk) {
            let ghost o = out@;
            out.push(lane);
            proof {
                assert(lanes_view(out@) =~= lanes_view(o).push(lane_view(lane)));
            }
        }
        k = k + 1;
    }
    assert(cv.take(cv.len() as int) =~= cv);
    out
}

// ---------------------------------------------------------------------------
// Fixture queries
// ---------------------------------------------------------------------------
/// A fixture query with optional negated variant for testing exclusion
/// interactions.
#[derive(Debug, Clone, Copy, PartialEq, Eq)]
pub struct FixtureQuery {
    /// The query text (positive form).
    pub text: &'static str,
    /// Expected query class.
    pub class: QueryClass,
    /// Negated variant for lanes that test exclusion syntax.
    pub negated_variant: Option<&'static str>,
}

/// The view of an optional string slice.
pub open spec fn opt_str_view(o: Option<&str>) -> Option<Seq<char>> {
    match o {
        Some(s) => Some(s@),
        None => None,
    }
}

/// A fixture query as plain values: text, class, negated variant.
pub type FixtureView = (Seq<char>, QueryClass, Option<Seq<char>>);

/// The plain values of a fixture query.
pub open spec fn fixture_view(q: FixtureQuery) -> FixtureView {
    (q.text@, q.class, opt_str_view(q.negated_variant))
}

/// The plain values of a sequence of fixture queries.
pub open spec fn fixtures_view(s: Seq<FixtureQuery>) -> Seq<FixtureView> {
    s.map_values(|q: FixtureQuery| fixture_view(q))
}

/// The fixture query table.
pub open spec fn fixture_table() -> Seq<FixtureView> {
    seq![
        ("SearchIndex::new"@, QueryClass::Identifier, Some("SearchIndex::new -deprecated"@)),
        ("ONNX Runtime inference"@, QueryClass::Identifier, Some("ONNX Runtime inference -python"@)),
        ("BM25 scoring algorithm"@, QueryClass::Identifier, Some("BM25 scoring algorithm -lucene"@)),
        (
            "sentence transformers MiniLM"@,
            QueryClass::Identifier,
            Some("sentence transformers MiniLM NOT \"large model\""@),
        ),
        ("HNSW approximate nearest neighbor"@, QueryClass::Identifier, None),
        ("rust ownership borrowing"@, QueryClass::ShortKeyword, Some("rust ownership borrowing -unsafe"@)),
        (
            "cosine similarity vector search"@,
            QueryClass::ShortKeyword,
            Some("cosine similarity vector search -euclidean"@),
        ),
        ("f16 quantization memory savings"@, QueryClass::ShortKeyword, None),
        ("docker compose health check"@, QueryClass::ShortKeyword, Some("docker compose health check -swarm"@)),
        ("async await future executor"@, QueryClass::ShortKeyword, Some("async await future executor -tokio"@)),
        (
            "how do transformers work for text embeddings"@,
            QueryClass::NaturalLanguage,
            Some("how do transformers work for text embeddings -GPT"@),
        ),
        (
            "how to deploy containers with kubernetes"@,
            QueryClass::NaturalLanguage,
            Some("how to deploy containers with kubernetes NOT \"docker swarm\""@),
        ),
        (
            "error handling Result type in Rust"@,
            QueryClass::NaturalLanguage,
            Some("error handling Result type in Rust -unwrap -panic"@),
        ),
        ("reciprocal rank fusion hybrid search"@, QueryClass::NaturalLanguage, None),
        (
            "chocolate chip cookies recipe"@,
            QueryClass::NaturalLanguage,
            Some("chocolate chip cookies recipe -gluten"@),
        ),
    ]
}

/// Fixture query set for interaction testing.
pub fn fixture_queries() -> (qs: Vec<FixtureQuery>)
    ensures
        fixtures_view(qs@) == fixture_table(),
{
    let qs = vec![
        FixtureQuery {
            text: "SearchIndex::new",
            class: QueryClass::Identifier,
            negated_variant: Some("SearchIndex::new -deprecated"),
        },
        FixtureQuery {
            text: "ONNX Runtime inference",
            class: QueryClass::Identifier,
            negated_variant: Some("ONNX Runtime inference -python"),
        },
        FixtureQuery {
            text: "BM25 scoring algorithm",
            class: QueryClass::Identifier,
            negated_variant: Some("BM25 scoring algorithm -lucene"),
        },
        FixtureQuery {
            text: "sentence transformers MiniLM",
            class: QueryClass::Identifier,
            negated_variant: Some("sentence transformers MiniLM NOT \"large model\""),
        },
        FixtureQuery { text: "HNSW approximate nearest neighbor", class: QueryClass::Identifier, negated_variant: None },
        FixtureQuery {
            text: "rust ownership borrowing",
            class: QueryClass::ShortKeyword,
            negated_variant: Some("rust ownership borrowing -unsafe"),
        },
        FixtureQuery {
            text: "cosine similarity vector search",
            class: QueryClass::ShortKeyword,
            negated_variant: Some("cosine similarity vector search -euclidean"),
        },
        FixtureQuery { text: "f16 quantization memory savings", class: QueryClass::ShortKeyword, negated_variant: None },
        FixtureQuery {
            text: "docker compose health check",
            class: QueryClass::ShortKeyword,
            negated_variant: Some("docker compose health check -swarm"),
        },
        FixtureQuery {
            text: "async await future executor",
            class: QueryClass::ShortKeyword,
            negated_variant: Some("async await future executor -tokio"),
        },
        FixtureQuery {
            text: "how do transformers work for text embeddings",
            class: QueryClass::NaturalLanguage,
            negated_variant: Some("how do transformers work for text embeddings -GPT"),
        },
        FixtureQuery {
            text: "how to deploy containers with kubernetes",
            class: QueryClass::NaturalLanguage,
            negated_variant: Some("how to deploy containers with kubernetes NOT \"docker swarm\""),
        },
        FixtureQuery {
            text: "error handling Result type in Rust",
            class: QueryClass::NaturalLanguage,
            negated_variant: Some("error handling Result type in Rust -unwrap -panic"),
        },
        FixtureQuery {
            text: "reciprocal rank fusion hybrid search",
            class: QueryClass::NaturalLanguage,
            negated_variant: None,
        },
        FixtureQuery {
            text: "chocolate chip cookies recipe",
            class: QueryClass::NaturalLanguage,
            negated_variant: Some("chocolate chip cookies recipe -gluten"),
        },
    ];
    assert(fixtures_view(qs@) =~= fixture_table());
    qs
}

impl FixtureQuery {
    /// The query to use: the negated variant when negation is active and one
    /// exists, else the positive text.
    pub fn query_for_lane(&self, include_negated: bool) -> (q: &str)
        ensures
            q@ == (match (include_negated, self.negated_variant) {
                (true, Some(n)) => n@,
                _ => self.text@,
            }),
    {
        if include_negated {
            match self.negated_variant {
                Some(n) => n,
                None => self.text,
            }
        } else {
            self.text
        }
    }
}

/// The class filter on fixture views.
pub open spec fn class_in(classes: Seq<QueryClass>) -> spec_fn(FixtureView) -> bool {
    |q: FixtureView| classes.contains(q.1)
}

fn contains_class(classes: &Vec<QueryClass>, c: QueryClass) -> (b: bool)
    ensures
        b == classes@.contains(c),
{
    let mut i: usize = 0;
    while i < classes.len()
        invariant
            i <= classes@.len(),
            forall|j: int| 0 <= j < i ==> classes@[j] != c,
        decreases classes@.len() - i,
    {
        if classes[i] == c {
            assert(classes@[i as int] == c);
            return true;
        }
        i = i + 1;
    }
    false
}

/// Returns the fixture queries whose class the lane exercises, in order.
pub fn queries_for_lane(lane: &InteractionLane) -> (qs: Vec<FixtureQuery>)
    ensures
        fixtures_view(qs@) == fixture_table().filter(class_in(lane.query_slice.classes@)),
{
    broadcast use Seq::lemma_filter_push;

    let all = fixture_queries();
    let ghost t = fixture_table();
    let ghost pred = class_in(lane.query_slice.classes@);
    let mut out: Vec<FixtureQuery> = Vec::new();
    let mut i: usize = 0;
    while i < all.len()
        invariant
            i <= all@.len(),
            t == fixture_table(),
            fixtures_view(all@) == t,
            pred == class_in(lane.query_slice.classes@),
            fixtures_view(out@) == t.take(i as int).filter(pred),
        decreases all@.len() - i,
    {
        let q = all[i];
        proof {
            assert(t.take(i + 1) =~= t.take(i as int).push(t[i as int]));
            assert(t[i as int] == fixture_view(q));
            assert(pred(t[i as int]) == lane.query_slice.classes@.contains(q.class));
            t.take(i as int).lemma_filter_push(t[i as int], pred);
        }
        if contains_class(&lane.query_slice.classes, q.class) {
            let ghost o = out@;
            out.push(q);
            proof {
                assert(fixtures_view(out@) =~= fixtures_view(o).push(fixture_view(q)));
            }
        }
        i = i + 1;
    }
    assert(t.take(t.len() as int) =~= t);
    out
}

// ---------------------------------------------------------------------------
// Seed strategy
// ---------------------------------------------------------------------------
/// The multiplier that spreads query indices over the seed space.
pub const SEED_SPREAD: u64 = 0x9E37_79B9_7F4A_7C15;

/// `index * SEED_SPREAD` modulo 2^64.
pub open spec fn spread(index: u64) -> u64 {
    ((index as nat * SEED_SPREAD as nat) % 0x1_0000_0000_0000_0000nat) as u64
}

/// Derives a per-query seed: the lane seed XOR the spread query index.
pub fn derive_query_seed(lane_seed: u64, query_index: usize) -> (s: u64)
    ensures
        s == lane_seed ^ spread(query_index as u64),
{
    lane_seed ^ (query_index as u64).wrapping_mul(SEED_SPREAD)
}

// ---------------------------------------------------------------------------
// Laws
// ---------------------------------------------------------------------------
/// Whether lane `a` may precede lane `b`: higher risk first, then lower id.
pub open spec fn lane_precedes(a: LaneView, b: LaneView) -> bool {
    risk_rank(a.risk) > risk_rank(b.risk) || (risk_rank(a.risk) == risk_rank(b.risk) && seq_lt(a.id, b.id))
}

proof fn lemma_precedes_trans(a: LaneView, b: LaneView, c: LaneView)
    requires
        lane_precedes(a, b),
        lane_precedes(b, c),
    ensures
        lane_precedes(a, c),
{
    if risk_rank(a.risk) == risk_rank(b.risk) && risk_rank(b.risk) == risk_rank(c.risk) {
        lemma_seq_lt_trans(a.id, b.id, c.id);
    }
}

proof fn lemma_chain_sorted(s: Seq<LaneView>)
    requires
        forall|k: int| 0 <= k < s.len() - 1 ==> lane_precedes(#[trigger] s[k], s[k + 1]),
    ensures
        forall|i: int, j: int| 0 <= i < j < s.len() ==> lane_precedes(#[trigger] s[i], #[trigger] s[j]),
    decreases s.len(),
{
    if s.len() > 1 {
        let p = s.drop_last();
        assert forall|k: int| 0 <= k < p.len() - 1 implies lane_precedes(#[trigger] p[k], p[k + 1]) by {
            assert(p[k] == s[k] && p[k + 1] == s[k + 1]);
        }
        lemma_chain_sorted(p);
        assert forall|i: int, j: int| 0 <= i < j < s.len() implies lane_precedes(
            #[trigger] s[i],
            #[trigger] s[j],
        ) by {
            if j < s.len() - 1 {
                assert(p[i] == s[i] && p[j] == s[j]);
            } else if i < j - 1 {
                assert(p[i] == s[i] && p[j - 1] == s[j - 1]);
                assert(lane_precedes(s[i], s[j - 1]));
                assert(lane_precedes(s[j - 1], s[j]));
                lemma_precedes_trans(s[i], s[j - 1], s[j]);
            }
        }
    }
}

/// The catalog is ordered by risk (high first), then strictly by id within
/// a risk level.
pub proof fn law_catalog_sorted()
    ensures
        forall|i: int, j: int|
            0 <= i < j < catalog_views().len() ==> lane_precedes(
                #[trigger] catalog_views()[i],
                #[trigger] catalog_views()[j],
            ),
{
    let s = catalog_views();
    reveal_strlit("adaptive_calibration_conformal");
    reveal_strlit("breaker_adaptive_feedback");
    reveal_strlit("breaker_explain");
    reveal_strlit("explain_mmr");
    reveal_strlit("kitchen_sink");
    reveal_strlit("prf_negation");
    reveal_strlit("calibration_conformal");
    reveal_strlit("explain_calibration");
    reveal_strlit("explain_negation");
    reveal_strlit("mmr_feedback");
    reveal_strlit("prf_adaptive");
    assert(lane_precedes(s[0], s[1]));
    assert(lane_precedes(s[1], s[2])) by {
        reveal_with_fuel(seq_lt, 10);
    }
    assert(lane_precedes(s[2], s[3]));
    assert(lane_precedes(s[3], s[4]));
    assert(lane_precedes(s[4], s[5]));
    assert(lane_precedes(s[5], s[6]));
    assert(lane_precedes(s[6], s[7]));
    assert(lane_precedes(s[7], s[8])) by {
        reveal_with_fuel(seq_lt, 10);
    }
    assert(lane_precedes(s[8], s[9]));
    assert(lane_precedes(s[9], s[10]));
    assert(lane_precedes(s[10], s[11]));
    lemma_chain_sorted(s);
}

/// Every catalog lane whose queries include negation turns the negation
/// toggle on, and every catalog lane exercises some corpus slice.
pub proof fn law_catalog_lane_consistency()
    ensures
        forall|i: int|
            0 <= i < catalog_views().len() ==> ((#[trigger] catalog_views()[i]).include_negated
                ==> catalog_views()[i].toggles.negation_queries),
        forall|i: int| 0 <= i < catalog_views().len() ==> (#[trigger] catalog_views()[i]).corpus_slices.len() > 0,
{
}

/// Filtering the catalog at the lowest risk keeps every lane.
pub proof fn law_lowest_risk_keeps_all()
    ensures
        catalog_views().filter(risk_at_least(RiskLevel::Low)) == catalog_views(),
{
    let s = catalog_views();
    let pred = risk_at_least(RiskLevel::Low);
    assert forall|n: int| 0 <= n <= s.len() implies #[trigger] s.take(n).filter(pred) == s.take(n) by {
        lemma_filter_take_all(s, pred, n);
    }
    assert(s.take(s.len() as int) =~= s);
}

proof fn lemma_filter_take_all(s: Seq<LaneView>, pred: spec_fn(LaneView) -> bool, n: int)
    requires
        0 <= n <= s.len(),
        forall|k: int| 0 <= k < s.len() ==> pred(#[trigger] s[k]),
    ensures
        s.take(n).filter(pred) == s.take(n),
    decreases n,
{
    broadcast use Seq::lemma_filter_push;

    if n > 0 {
        lemma_filter_take_all(s, pred, n - 1);
        assert(s.take(n) =~= s.take(n - 1).push(s[n - 1]));
    } else {
        reveal(Seq::filter);
        assert(s.take(0) =~= Seq::<LaneView>::empty());
    }
}

/// Two different lane seeds never give the same query seed for one index.
pub proof fn law_seed_differs_per_lane(a: u64, b: u64, index: u64)
    requires
        a != b,
    ensures
        a ^ spread(index) != b ^ spread(index),
{
    let m = spread(index);
    assert((a ^ m) == (b ^ m) ==> a == b) by (bit_vector);
}

/// The multiplicative inverse of `SEED_SPREAD` modulo 2^64.
pub open spec fn spread_inverse() -> nat {
    0xF1DE_83E1_9937_733D
}

/// Multiplying a spread index by the inverse gives the index back, so
/// spreading is one-to-one.
pub proof fn lemma_spread_invertible(x: u64)
    ensures
        (spread(x) as nat * spread_inverse()) % 0x1_0000_0000_0000_0000nat == x,
{
    let m: int = 0x1_0000_0000_0000_0000;
    let c: int = SEED_SPREAD as int;
    let inv: int = spread_inverse() as int;
    let k: int = 10771413168148108919;
    let p: int = x as int * c;
    assert(c * inv == 1 + k * m);
    assert(spread(x) as int == p % m);
    vstd::arithmetic::div_mod::lemma_mul_mod_noop_left(p, inv, m);
    assert(p * inv == m * (x as int * k) + x as int) by (nonlinear_arith)
        requires
            p == x as int * c,
            c * inv == 1 + k * m,
    ;
    vstd::arithmetic::div_mod::lemma_mod_multiples_vanish(x as int * k, x as int, m);
    vstd::arithmetic::div_mod::lemma_small_mod(x as nat, m as nat);
}

/// Two different query indices never give the same query seed for one lane.
pub proof fn law_seed_differs_per_index(lane_seed: u64, a: u64, b: u64)
    requires
        a != b,
    ensures
        lane_seed ^ spread(a) != lane_seed ^ spread(b),
{
    lemma_spread_invertible(a);
    lemma_spread_invertible(b);
    let sa = spread(a);
    let sb = spread(b);
    assert((lane_seed ^ sa) == (lane_seed ^ sb) ==> sa == sb) by (bit_vector);
}

} // verus!
